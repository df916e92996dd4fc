//! Rays: an origin and a direction.
use vstd::prelude::*;
use crate::float::Float;
use crate::vector::{plus, scaled, Vec3};

verus! {

/// The mathematical content of a ray.
pub struct RayModel<T> {
    pub origin: Seq<T>,
    pub direction: Seq<T>,
}

/// The point `origin + direction * t`, the product taken first.
pub open spec fn point_at<T: Float>(ray: RayModel<T>, t: T) -> Seq<T> {
    plus(ray.origin, scaled(ray.direction, t))
}

/// A half-line given by its origin and its direction. The direction need not have
/// unit length.
#[derive(Debug)]
pub struct Ray<T: Float> {
    origin: Vec3<T>,
    direction: Vec3<T>,
}

impl<T: Float> View for Ray<T> {
    type V = RayModel<T>;

    closed spec fn view(&self) -> RayModel<T> {
        RayModel { origin: self.origin@, direction: self.direction@ }
    }
}

impl<T: Float> Ray<T> {
    /// The ray from the zero vector along the zero vector.
    pub fn new() -> (r: Self)
        ensures
            r@.origin == seq![T::zero_spec(), T::zero_spec(), T::zero_spec()],
            r@.direction == seq![T::zero_spec(), T::zero_spec(), T::zero_spec()],
    {
        Ray { origin: Vec3::new(), direction: Vec3::new() }
    }

    pub fn from_vec(origin: Vec3<T>, direction: Vec3<T>) -> (r: Self)
        ensures
            r@.origin == origin@,
            r@.direction == direction@,
    {
        Ray { origin, direction }
    }

    pub fn from_array(origin: [T; 3], direction: [T; 3]) -> (r: Self)
        ensures
            r@.origin == origin@,
            r@.direction == direction@,
    {
        Ray { origin: Vec3::from_array(origin), direction: Vec3::from_array(direction) }
    }

    /// The ray given by the first three elements of each slice.
    pub fn from_slice(origin: &[T], direction: &[T]) -> (r: Self)
        requires
            origin@.len() >= 3,
            direction@.len() >= 3,
        ensures
            r@.origin == origin@.subrange(0, 3),
            r@.direction == direction@.subrange(0, 3),
    {
        Ray { origin: Vec3::from_slice(origin), direction: Vec3::from_slice(direction) }
    }

    pub fn get_origin(&self) -> (r: &Vec3<T>)
        ensures
            r@ == self@.origin,
    {
        &self.origin
    }

    pub fn get_direction(&self) -> (r: &Vec3<T>)
        ensures
            r@ == self@.direction,
    {
        &self.direction
    }

    /// The point reached after travelling `t` directions from the origin.
    pub fn get_point(&self, t: T) -> (r: Vec3<T>)
        ensures
            r@ == point_at(self@, t),
    {
        let step = self.direction.mul(t);
        self.origin.add(&step)
    }
}

/// Both parts of a ray have three components.
pub broadcast proof fn lemma_ray_len<T: Float>(ray: Ray<T>)
    ensures
        #![trigger ray@]
        ray@.origin.len() == 3,
        ray@.direction.len() == 3,
{
    crate::vector::lemma_vec3_len(ray.origin);
    crate::vector::lemma_vec3_len(ray.direction);
}

} // verus!
