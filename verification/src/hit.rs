//! The record of an intersection.
use vstd::prelude::*;
use crate::float::Float;
use crate::vector::Vec3;

verus! {

/// The mathematical content of a hit.
pub struct HitModel<T> {
    pub point: Seq<T>,
    pub normal: Seq<T>,
    pub t: T,
}

/// Where and how a ray meets a surface: the point, the surface normal there and the
/// ray parameter `t` of the point.
pub struct Hit<T: Float> {
    pub point: Vec3<T>,
    pub normal: Vec3<T>,
    pub t: T,
}

impl<T: Float> View for Hit<T> {
    type V = HitModel<T>;

    open spec fn view(&self) -> HitModel<T> {
        HitModel { point: self.point@, normal: self.normal@, t: self.t }
    }
}

/// The view of an optional hit.
pub open spec fn hit_view<T: Float>(hit: Option<Hit<T>>) -> Option<HitModel<T>> {
    match hit {
        Some(h) => Some(h@),
        None => None,
    }
}

} // verus!
