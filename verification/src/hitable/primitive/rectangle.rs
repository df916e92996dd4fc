//! Axis-aligned rectangles through the origin.
use vstd::prelude::*;
use crate::boundingbox::{canonical, lemma_box_len, BoundingBox, BoxModel};
use crate::constants::{axis_index, next_axis, Axis};
use crate::float::{half, half_spec, Float};
use crate::hit::{Hit, HitModel};
use crate::hitable::Hitable;
use crate::ray::{lemma_ray_len, point_at, Ray, RayModel};
use crate::utils::axis_to_index;
use crate::vector::{plus, scaled, Vec3};

verus! {

/// The vector that has `length` on `axis` and zero on the other two axes.
pub open spec fn axis_vector<T: Float>(length: T, axis: Axis) -> Seq<T> {
    match axis {
        Axis::X => seq![length, T::zero_spec(), T::zero_spec()],
        Axis::Y => seq![T::zero_spec(), length, T::zero_spec()],
        Axis::Z => seq![T::zero_spec(), T::zero_spec(), length],
    }
}

/// The axis orthogonal to a rectangle whose sides run along two different axes.
pub open spec fn normal_axis_of(width_axis: Axis, height_axis: Axis) -> Axis {
    match (width_axis, height_axis) {
        (Axis::X, Axis::Y) | (Axis::Y, Axis::X) => Axis::Z,
        (Axis::Y, Axis::Z) | (Axis::Z, Axis::Y) => Axis::X,
        _ => Axis::Y,
    }
}

/// The sign of the normal by the right-hand rule: `+1` when the height axis follows
/// the width axis in the cycle X, Y, Z, X, and `-1` when it precedes it.
pub open spec fn normal_direction<T: Float>(width_axis: Axis, height_axis: Axis) -> T {
    if next_axis(width_axis) == height_axis {
        T::one_spec()
    } else {
        T::one_spec().neg_spec()
    }
}

/// The normal of a rectangle whose width and height run along the given axes.
pub open spec fn rectangle_normal<T: Float>(width_axis: Axis, height_axis: Axis) -> Seq<T> {
    axis_vector(normal_direction::<T>(width_axis, height_axis), normal_axis_of(width_axis, height_axis))
}

/// The box of a rectangle: it reaches half the width to either side of the origin on
/// the width axis, half the height on the height axis, and is flat on the normal axis.
pub open spec fn rectangle_bounds<T: Float>(
    width: T,
    width_axis: Axis,
    height: T,
    height_axis: Axis,
) -> BoxModel<T> {
    canonical(
        plus(
            axis_vector(width.neg_spec().mul_spec(half_spec::<T>()), width_axis),
            axis_vector(height.neg_spec().mul_spec(half_spec::<T>()), height_axis),
        ),
        plus(
            axis_vector(width.mul_spec(half_spec::<T>()), width_axis),
            axis_vector(height.mul_spec(half_spec::<T>()), height_axis),
        ),
    )
}

/// The parameter at which the ray crosses the plane of the rectangle: the negated
/// origin coordinate on the normal axis divided by the direction coordinate there.
pub open spec fn plane_parameter<T: Float>(ray: RayModel<T>, normal_axis: Axis) -> T {
    ray.origin[axis_index(normal_axis)].neg_spec().div_spec(
        ray.direction[axis_index(normal_axis)],
    )
}

/// The coordinate on `axis` of the ray at parameter `t`.
pub open spec fn coordinate_at<T: Float>(ray: RayModel<T>, t: T, axis: Axis) -> T {
    ray.origin[axis_index(axis)].add_spec(t.mul_spec(ray.direction[axis_index(axis)]))
}

/// `x` lies within the interval of `bounds` on `axis`, the ends included. A
/// coordinate that is no number lies within no interval.
pub open spec fn inside_on<T: Float>(bounds: BoxModel<T>, x: T, axis: Axis) -> bool {
    bounds.lo[axis_index(axis)].le_spec(x) && x.le_spec(bounds.hi[axis_index(axis)])
}

/// `t` lies in the interval `(t_min, t_max]`. A parameter that is no number lies
/// in no interval.
pub open spec fn in_rectangle_range<T: Float>(t: T, t_min: T, t_max: T) -> bool {
    t_min.lt_spec(t) && t.le_spec(t_max)
}

/// The hit of a ray on a rectangle.
///
/// The plane parameter must lie in the interval `(t_min, t_max]`, and the crossing
/// point must lie within the rectangle's box on the width and on the height axis.
/// A ray in the plane of the rectangle, whose parameter is no number, has no hit.
pub open spec fn rectangle_hit<T: Float>(
    width: T,
    width_axis: Axis,
    height: T,
    height_axis: Axis,
    ray: RayModel<T>,
    t_min: T,
    t_max: T,
) -> Option<HitModel<T>> {
    let t = plane_parameter(ray, normal_axis_of(width_axis, height_axis));
    let bounds = rectangle_bounds(width, width_axis, height, height_axis);
    if !in_rectangle_range(t, t_min, t_max) {
        None
    } else if !inside_on(bounds, coordinate_at(ray, t, width_axis), width_axis) || !inside_on(
        bounds,
        coordinate_at(ray, t, height_axis),
        height_axis,
    ) {
        None
    } else {
        Some(
            HitModel {
                point: point_at(ray, t),
                normal: scaled(rectangle_normal::<T>(width_axis, height_axis), T::one_spec()),
                t,
            },
        )
    }
}

/// A rectangle centred at the origin, in the plane orthogonal to its normal axis.
pub struct Rectangle<T: Float> {
    width: T,
    width_axis: Axis,
    height: T,
    height_axis: Axis,
    normal_axis: Axis,
    normal: Vec3<T>,
    bounds: BoundingBox<T>,
}

impl<T: Float> Rectangle<T> {
    /// The sides run along different axes, and the cached normal axis, normal and box
    /// are those of the sides.
    #[verifier::type_invariant]
    spec fn inv(&self) -> bool {
        &&& self.width_axis != self.height_axis
        &&& self.normal_axis == normal_axis_of(self.width_axis, self.height_axis)
        &&& self.normal@ == rectangle_normal::<T>(self.width_axis, self.height_axis)
        &&& self.bounds@ == rectangle_bounds(
            self.width,
            self.width_axis,
            self.height,
            self.height_axis,
        )
    }

    pub closed spec fn width(&self) -> T {
        self.width
    }

    pub closed spec fn height(&self) -> T {
        self.height
    }

    pub closed spec fn width_axis(&self) -> Axis {
        self.width_axis
    }

    pub closed spec fn height_axis(&self) -> Axis {
        self.height_axis
    }

    /// A rectangle of the given width and height along two different axes.
    pub fn new(width: T, width_axis: Axis, height: T, height_axis: Axis) -> (r: Self)
        requires
            width_axis != height_axis,
        ensures
            r.width() == width,
            r.width_axis() == width_axis,
            r.height() == height,
            r.height_axis() == height_axis,
    {
        let (normal_axis, normal_direction) = Self::normal_axis(&width_axis, &height_axis);
        let half = half::<T>();
        let p0 = Self::length_to_point(width.neg().mul(half), &width_axis);
        let p0 = p0.add(&Self::length_to_point(height.neg().mul(half), &height_axis));
        let p1 = Self::length_to_point(width.mul(half), &width_axis);
        let p1 = p1.add(&Self::length_to_point(height.mul(half), &height_axis));
        let normal = Self::length_to_point(normal_direction, &normal_axis);
        let bounds = BoundingBox::new(p0, p1);
        Rectangle { width, width_axis, height, height_axis, normal_axis, normal, bounds }
    }

    /// The unit normal, signed by the right-hand rule.
    pub fn get_normal(&self) -> (r: &Vec3<T>)
        ensures
            r@ == rectangle_normal::<T>(self.width_axis(), self.height_axis()),
    {
        proof {
            use_type_invariant(self);
        }
        &self.normal
    }

    /// A primitive wraps nothing: unwrapping hands back the rectangle itself.
    pub fn unwrap(self: Box<Self>) -> (r: Box<Rectangle<T>>)
        ensures
            r == self,
    {
        self
    }

    fn length_to_point(length: T, axis: &Axis) -> (r: Vec3<T>)
        ensures
            r@ == axis_vector(length, *axis),
    {
        match axis {
            Axis::X => Vec3::from_array([length, T::zero(), T::zero()]),
            Axis::Y => Vec3::from_array([T::zero(), length, T::zero()]),
            Axis::Z => Vec3::from_array([T::zero(), T::zero(), length]),
        }
    }

    fn normal_axis(width_axis: &Axis, height_axis: &Axis) -> (r: (Axis, T))
        requires
            *width_axis != *height_axis,
        ensures
            r.0 == normal_axis_of(*width_axis, *height_axis),
            r.1 == normal_direction::<T>(*width_axis, *height_axis),
    {
        match (width_axis, height_axis) {
            (Axis::X, Axis::Y) => (Axis::Z, T::one()),
            (Axis::Y, Axis::X) => (Axis::Z, T::one().neg()),
            (Axis::Y, Axis::Z) => (Axis::X, T::one()),
            (Axis::Z, Axis::Y) => (Axis::X, T::one().neg()),
            (Axis::Z, Axis::X) => (Axis::Y, T::one()),
            _ => (Axis::Y, T::one().neg()),
        }
    }
}

/// The parameter of a hit on a rectangle is a number within `(t_min, t_max]`, and
/// the point of the hit lies within the rectangle on both of its axes.
pub proof fn lemma_rectangle_hit_is_inside<T: Float>(
    width: T,
    width_axis: Axis,
    height: T,
    height_axis: Axis,
    ray: RayModel<T>,
    t_min: T,
    t_max: T,
)
    ensures
        rectangle_hit(width, width_axis, height, height_axis, ray, t_min, t_max) matches Some(hit)
            ==> {
            &&& t_min.lt_spec(hit.t)
            &&& hit.t.le_spec(t_max)
            &&& inside_on(
                rectangle_bounds(width, width_axis, height, height_axis),
                coordinate_at(ray, hit.t, width_axis),
                width_axis,
            )
            &&& inside_on(
                rectangle_bounds(width, width_axis, height, height_axis),
                coordinate_at(ray, hit.t, height_axis),
                height_axis,
            )
        },
{
}

impl<T: Float> Hitable<T> for Rectangle<T> {
    open spec fn hit_spec(&self, ray: RayModel<T>, t_min: T, t_max: T) -> Option<HitModel<T>> {
        rectangle_hit(
            self.width(),
            self.width_axis(),
            self.height(),
            self.height_axis(),
            ray,
            t_min,
            t_max,
        )
    }

    open spec fn bounds_spec(&self) -> BoxModel<T> {
        rectangle_bounds(self.width(), self.width_axis(), self.height(), self.height_axis())
    }

    open spec fn primitive_spec(&self) -> bool {
        true
    }

    fn hit(&self, ray: &Ray<T>, t_min: T, t_max: T) -> (r: Option<Hit<T>>) {
        proof {
            use_type_invariant(self);
            lemma_ray_len(*ray);
            lemma_box_len(self.bounds);
        }
        let oc = ray.get_origin();
        let direction = ray.get_direction();
        let normal_index = axis_to_index(&self.normal_axis);
        let t = oc.get(normal_index).neg().div(direction.get(normal_index));
        if !(t.gt(t_min) && t.le(t_max)) {
            return None;
        }
        let width_index = axis_to_index(&self.width_axis);
        let height_index = axis_to_index(&self.height_axis);
        let width = oc.get(width_index).add(t.mul(direction.get(width_index)));
        let height = oc.get(height_index).add(t.mul(direction.get(height_index)));
        let w0 = self.bounds.get_p0().get(width_index);
        let w1 = self.bounds.get_p1().get(width_index);
        let h0 = self.bounds.get_p0().get(height_index);
        let h1 = self.bounds.get_p1().get(height_index);
        if !(width.ge(w0) && width.le(w1) && height.ge(h0) && height.le(h1)) {
            return None;
        }
        let point = ray.get_point(t);
        let normal = self.normal.mul(T::one());
        let hit = Hit { point, normal, t };
        Some(hit)
    }

    fn get_bounds(&self) -> (r: &BoundingBox<T>) {
        proof {
            use_type_invariant(self);
        }
        &self.bounds
    }

    fn is_primitive(&self) -> (r: bool) {
        true
    }
}

} // verus!
