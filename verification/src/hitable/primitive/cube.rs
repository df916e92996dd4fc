//! Axis-aligned cuboids around the origin, built from six rectangles.
use vstd::prelude::*;
use crate::boundingbox::{canonical, BoundingBox, BoxModel};
use crate::constants::Axis;
use crate::float::{half, half_spec, Float};
use crate::hit::{Hit, HitModel};
use crate::hitable::primitive::rectangle::{rectangle_normal, Rectangle};
use crate::hitable::transform::translation::Translation;
use crate::hitable::{closest_hit, closest_hit_of, Hitable};
use crate::ray::{Ray, RayModel};
use crate::vector::{scaled, Vec3};

verus! {

/// One face of a cuboid: a rectangle pushed outward along its own normal.
pub type Face<T> = Translation<T, Rectangle<T>>;

/// The axes along which the width and the height of face `i` run. Opposite faces
/// exchange the two, which turns the normal round.
pub open spec fn face_axes(i: int) -> (Axis, Axis) {
    if i == 0 {
        (Axis::X, Axis::Y)
    } else if i == 1 {
        (Axis::Y, Axis::X)
    } else if i == 2 {
        (Axis::Y, Axis::Z)
    } else if i == 3 {
        (Axis::Z, Axis::Y)
    } else if i == 4 {
        (Axis::Z, Axis::X)
    } else {
        (Axis::X, Axis::Z)
    }
}

/// The width and the height of face `i` and the extent of the cuboid along the
/// normal of that face, for a cuboid of the given extents along X, Y and Z.
pub open spec fn face_lengths<T: Float>(length: T, width: T, height: T, i: int) -> (T, T, T) {
    if i == 0 {
        (length, width, height)
    } else if i == 1 {
        (width, length, height)
    } else if i == 2 {
        (width, height, length)
    } else if i == 3 {
        (height, width, length)
    } else if i == 4 {
        (height, length, width)
    } else {
        (length, height, width)
    }
}

/// `face` is a rectangle of the given sides along the given axes, pushed along its
/// normal by half of `depth`.
pub open spec fn is_face<T: Float>(
    face: Face<T>,
    width: T,
    width_axis: Axis,
    height: T,
    height_axis: Axis,
    depth: T,
) -> bool {
    &&& face.inner().width() == width
    &&& face.inner().width_axis() == width_axis
    &&& face.inner().height() == height
    &&& face.inner().height_axis() == height_axis
    &&& face.offset() == scaled(
        scaled(rectangle_normal::<T>(width_axis, height_axis), depth),
        half_spec::<T>(),
    )
}

/// `faces` are the six faces of the cuboid with the given extents, in the order of
/// `face_axes`.
pub open spec fn are_faces<T: Float>(faces: Seq<Face<T>>, length: T, width: T, height: T) -> bool {
    &&& faces.len() == 6
    &&& forall|i: int|
        0 <= i < 6 ==> is_face(
            #[trigger] faces[i],
            face_lengths(length, width, height, i).0,
            face_axes(i).0,
            face_lengths(length, width, height, i).1,
            face_axes(i).1,
            face_lengths(length, width, height, i).2,
        )
}

/// The box of the cuboid: half of each extent to either side of the origin.
pub open spec fn cube_bounds<T: Float>(length: T, width: T, height: T) -> BoxModel<T> {
    canonical(
        seq![
            length.neg_spec().mul_spec(half_spec::<T>()),
            width.neg_spec().mul_spec(half_spec::<T>()),
            height.neg_spec().mul_spec(half_spec::<T>()),
        ],
        seq![
            length.mul_spec(half_spec::<T>()),
            width.mul_spec(half_spec::<T>()),
            height.mul_spec(half_spec::<T>()),
        ],
    )
}

/// A cuboid around the origin with extents `length`, `width` and `height` along X,
/// Y and Z.
pub struct Cube<T: Float> {
    length: T,
    width: T,
    height: T,
    faces: Vec<Face<T>>,
    bounds: BoundingBox<T>,
}

impl<T: Float> Cube<T> {
    /// The cached box is that of the extents.
    #[verifier::type_invariant]
    spec fn inv(&self) -> bool {
        self.bounds@ == cube_bounds(self.length, self.width, self.height)
    }

    pub closed spec fn length(&self) -> T {
        self.length
    }

    pub closed spec fn width(&self) -> T {
        self.width
    }

    pub closed spec fn height(&self) -> T {
        self.height
    }

    /// The six faces, as a specification.
    pub closed spec fn faces(&self) -> Seq<Face<T>> {
        self.faces@
    }

    /// The cuboid with the given extents along X, Y and Z.
    pub fn new(length: T, width: T, height: T) -> (r: Self)
        ensures
            r.length() == length,
            r.width() == width,
            r.height() == height,
            are_faces(r.faces(), length, width, height),
    {
        let half = half::<T>();
        let mut faces: Vec<Face<T>> = Vec::new();
        faces.push(Self::face(length, Axis::X, width, Axis::Y, height));
        faces.push(Self::face(width, Axis::Y, length, Axis::X, height));
        faces.push(Self::face(width, Axis::Y, height, Axis::Z, length));
        faces.push(Self::face(height, Axis::Z, width, Axis::Y, length));
        faces.push(Self::face(height, Axis::Z, length, Axis::X, width));
        faces.push(Self::face(length, Axis::X, height, Axis::Z, width));
        let bounds = BoundingBox::new(
            Vec3::from_array([length.neg().mul(half), width.neg().mul(half), height.neg().mul(half)]),
            Vec3::from_array([length.mul(half), width.mul(half), height.mul(half)]),
        );
        Cube { length, width, height, faces, bounds }
    }

    /// A primitive wraps nothing: unwrapping hands back the cuboid itself.
    pub fn unwrap(self: Box<Self>) -> (r: Box<Cube<T>>)
        ensures
            r == self,
    {
        self
    }

    /// A rectangle of the given sides, pushed along its normal by half of `depth`.
    fn face(width: T, width_axis: Axis, height: T, height_axis: Axis, depth: T) -> (r: Face<T>)
        requires
            width_axis != height_axis,
        ensures
            is_face(r, width, width_axis, height, height_axis, depth),
    {
        let face = Box::new(Rectangle::new(width, width_axis, height, height_axis));
        let translation = face.get_normal().mul(depth).mul(half());
        Translation::new(face, translation)
    }
}

impl<T: Float> Hitable<T> for Cube<T> {
    /// The nearest hit among the six faces.
    open spec fn hit_spec(&self, ray: RayModel<T>, t_min: T, t_max: T) -> Option<HitModel<T>> {
        closest_hit(self.faces(), ray, t_min, t_max)
    }

    open spec fn bounds_spec(&self) -> BoxModel<T> {
        cube_bounds(self.length(), self.width(), self.height())
    }

    open spec fn primitive_spec(&self) -> bool {
        true
    }

    fn hit(&self, ray: &Ray<T>, t_min: T, t_max: T) -> (r: Option<Hit<T>>) {
        closest_hit_of(&self.faces, ray, t_min, t_max)
    }

    fn get_bounds(&self) -> (r: &BoundingBox<T>) {
        proof {
            use_type_invariant(self);
        }
        &self.bounds
    }

    fn is_primitive(&self) -> (r: bool) {
        true
    }
}

} // verus!
