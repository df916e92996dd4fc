//! Spheres centred at the origin.
use vstd::prelude::*;
use crate::boundingbox::{canonical, BoundingBox, BoxModel};
use crate::float::{is_number, lemma_numbers_total, Float};
use crate::hit::{Hit, HitModel};
use crate::hitable::{faithful_surface, surface_keeps, surface_respects, Hitable};
use crate::ray::{point_at, Ray, RayModel};
use crate::vector::{divided, dot_spec, scaled, Vec3};

verus! {

/// The three-component vector of ones.
pub open spec fn ones<T: Float>() -> Seq<T> {
    seq![T::one_spec(), T::one_spec(), T::one_spec()]
}

/// The box of a sphere of radius `radius` around the origin: spanned by the corner
/// `(1, 1, 1) * radius * (-1)` and the corner `(1, 1, 1) * radius`.
pub open spec fn sphere_bounds<T: Float>(radius: T) -> BoxModel<T> {
    canonical(
        scaled(scaled(ones::<T>(), radius), T::one_spec().neg_spec()),
        scaled(ones::<T>(), radius),
    )
}

/// The discriminant of the intersection quadratic, with the factors of two dropped:
/// `b * b - a * c` for `a = d.d`, `b = d.o` and `c = o.o - radius * radius`.
pub open spec fn sphere_discriminant<T: Float>(ray: RayModel<T>, radius: T) -> T {
    let a = dot_spec(ray.direction, ray.direction);
    let b = dot_spec(ray.direction, ray.origin);
    let c = dot_spec(ray.origin, ray.origin).sub_spec(radius.mul_spec(radius));
    b.mul_spec(b).sub_spec(a.mul_spec(c))
}

/// The smaller root `(-b - sqrt(discriminant)) / a`.
pub open spec fn sphere_near_root<T: Float>(ray: RayModel<T>, radius: T) -> T {
    let a = dot_spec(ray.direction, ray.direction);
    let b = dot_spec(ray.direction, ray.origin);
    b.neg_spec().sub_spec(sphere_discriminant(ray, radius).sqrt_spec()).div_spec(a)
}

/// The larger root `(-b + sqrt(discriminant)) / a`.
pub open spec fn sphere_far_root<T: Float>(ray: RayModel<T>, radius: T) -> T {
    let a = dot_spec(ray.direction, ray.direction);
    let b = dot_spec(ray.direction, ray.origin);
    b.neg_spec().add_spec(sphere_discriminant(ray, radius).sqrt_spec()).div_spec(a)
}

/// `t` lies in the half-open interval `[t_min, t_max)`.
pub open spec fn in_sphere_range<T: Float>(t: T, t_min: T, t_max: T) -> bool {
    t_min.le_spec(t) && t.lt_spec(t_max)
}

/// The hit at ray parameter `t`: the point on the ray, and the point divided by the
/// radius as the outward normal.
pub open spec fn sphere_hit_at<T: Float>(ray: RayModel<T>, radius: T, t: T) -> HitModel<T> {
    HitModel { point: point_at(ray, t), normal: divided(point_at(ray, t), radius), t }
}

/// The hit of a ray on the sphere of radius `radius` around the origin.
///
/// There is none unless the discriminant is strictly positive. Otherwise the smaller
/// root is taken if it lies in `[t_min, t_max)`, else the larger root if that does.
pub open spec fn sphere_hit<T: Float>(ray: RayModel<T>, radius: T, t_min: T, t_max: T) -> Option<
    HitModel<T>,
> {
    if sphere_discriminant(ray, radius).le_spec(T::zero_spec()) {
        None
    } else if in_sphere_range(sphere_near_root(ray, radius), t_min, t_max) {
        Some(sphere_hit_at(ray, radius, sphere_near_root(ray, radius)))
    } else if in_sphere_range(sphere_far_root(ray, radius), t_min, t_max) {
        Some(sphere_hit_at(ray, radius, sphere_far_root(ray, radius)))
    } else {
        None
    }
}

/// A sphere around the origin. A sphere elsewhere is a sphere in a translation.
pub struct Sphere<T: Float> {
    radius: T,
    bounds: BoundingBox<T>,
}

impl<T: Float> Sphere<T> {
    /// The cached box is the box of the radius.
    #[verifier::type_invariant]
    spec fn inv(&self) -> bool {
        self.bounds@ == sphere_bounds(self.radius)
    }

    /// The radius, as a specification.
    pub closed spec fn radius(&self) -> T {
        self.radius
    }

    pub fn new(radius: T) -> (r: Self)
        ensures
            r.radius() == radius,
    {
        Sphere { radius, bounds: Self::update_bounds(radius) }
    }

    pub fn get_radius(&self) -> (r: T)
        ensures
            r == self.radius(),
    {
        self.radius
    }

    pub fn set_radius(&mut self, radius: T)
        ensures
            final(self).radius() == radius,
    {
        *self = Sphere::new(radius);
    }

    /// A primitive wraps nothing: unwrapping hands back the sphere itself.
    pub fn unwrap(self: Box<Self>) -> (r: Box<Sphere<T>>)
        ensures
            r == self,
    {
        self
    }

    /// The box of a sphere of the given radius.
    fn update_bounds(radius: T) -> (r: BoundingBox<T>)
        ensures
            r@ == sphere_bounds(radius),
    {
        let one = Vec3::from_array([T::one(), T::one(), T::one()]);
        let p0 = one.mul(radius).mul(T::one().neg());
        let p1 = one.mul(radius);
        proof {
            assert(one@ =~= ones::<T>());
        }
        BoundingBox::new(p0, p1)
    }
}

impl<T: Float> Hitable<T> for Sphere<T> {
    open spec fn hit_spec(&self, ray: RayModel<T>, t_min: T, t_max: T) -> Option<HitModel<T>> {
        sphere_hit(ray, self.radius(), t_min, t_max)
    }

    open spec fn bounds_spec(&self) -> BoxModel<T> {
        sphere_bounds(self.radius())
    }

    open spec fn primitive_spec(&self) -> bool {
        true
    }

    fn hit(&self, ray: &Ray<T>, t_min: T, t_max: T) -> (r: Option<Hit<T>>) {
        let oc = ray.get_origin();
        let a = ray.get_direction().dot(ray.get_direction());
        let b = ray.get_direction().dot(oc);
        let c = oc.dot(oc).sub(self.get_radius().mul(self.get_radius()));
        let discriminant = b.mul(b).sub(a.mul(c));
        if discriminant.le(T::zero()) {
            return None;
        }
        let discriminant = discriminant.sqrt();
        let t0 = b.neg().sub(discriminant).div(a);
        let t1 = b.neg().add(discriminant).div(a);
        let t = if t0.ge(t_min) && t0.lt(t_max) {
            t0
        } else if t1.ge(t_min) && t1.lt(t_max) {
            t1
        } else {
            return None;
        };
        let point = ray.get_point(t);
        let normal = point.div(self.get_radius());
        let hit = Hit { point, normal, t };
        Some(hit)
    }

    fn get_bounds(&self) -> (r: &BoundingBox<T>) {
        proof {
            use_type_invariant(self);
        }
        &self.bounds
    }

    fn is_primitive(&self) -> (r: bool) {
        true
    }
}

/// A sphere is faithful to every ray that it does not meet, and to every ray whose
/// two roots are numbers of which the smaller root is not above the larger.
pub proof fn lemma_sphere_faithful<T: Float>(sphere: Sphere<T>, ray: RayModel<T>, t_min: T)
    requires
        sphere_discriminant(ray, sphere.radius()).le_spec(T::zero_spec()) || {
            &&& is_number(sphere_near_root(ray, sphere.radius()))
            &&& is_number(sphere_far_root(ray, sphere.radius()))
            &&& sphere_near_root(ray, sphere.radius()).le_spec(
                sphere_far_root(ray, sphere.radius()),
            )
        },
    ensures
        faithful_surface(sphere, ray, t_min),
{
    let near = sphere_near_root(ray, sphere.radius());
    let far = sphere_far_root(ray, sphere.radius());
    assert forall|b: T| is_number(b) implies #[trigger] surface_respects(sphere, ray, t_min, b) by {
        T::order_laws(t_min, near, near);
        T::order_laws(t_min, far, far);
    }
    assert forall|b: T, c: T| is_number(b) && is_number(c) implies #[trigger] surface_keeps(
        sphere,
        ray,
        t_min,
        b,
        c,
    ) by {
        if let Some(hit) = sphere.hit_spec(ray, t_min, b) {
            if hit.t.lt_spec(c) {
                if !in_sphere_range(near, t_min, b) && t_min.le_spec(near) {
                    // the smaller root is cut off by b, yet the larger lies below b
                    lemma_numbers_total(near, b);
                    T::order_laws(b, near, far);
                    T::order_laws(b, far, b);
                    T::order_laws(far, b, far);
                }
            }
        }
    }
}

} // verus!
