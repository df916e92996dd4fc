//! What a surface does to the light that reaches it.
use vstd::prelude::*;
use crate::float::Float;
use crate::hit::{Hit, HitModel};
use crate::ray::{Ray, RayModel};
use crate::vector::Vec3;

pub mod plain;
pub mod lambertian;
pub mod metal;
pub mod dielectric;

verus! {

/// The mathematical content of a scattering event.
pub struct ScatterModel<T> {
    pub attenuation: Seq<T>,
    pub scattered: Option<RayModel<T>>,
}

/// The outcome of a scattering event: the fraction of light that survives, colour
/// by colour, and the ray along which it travels on, if it does.
pub struct Scatter<T: Float> {
    pub attenuation: Vec3<T>,
    pub scattered: Option<Ray<T>>,
}

impl<T: Float> View for Scatter<T> {
    type V = ScatterModel<T>;

    open spec fn view(&self) -> ScatterModel<T> {
        ScatterModel {
            attenuation: self.attenuation@,
            scattered: match self.scattered {
                Some(ray) => Some(ray@),
                None => None,
            },
        }
    }
}

/// A scattering policy.
///
/// A material may draw random numbers: two calls with the same arguments may
/// differ. What it promises is that every outcome is one that it may give.
pub trait Material<T: Float> {
    /// `outcome` is one of the outcomes that the material may give for a ray that
    /// arrives as `incident` and hits as `hit`.
    spec fn may_scatter(
        &self,
        incident: RayModel<T>,
        hit: HitModel<T>,
        outcome: ScatterModel<T>,
    ) -> bool;

    fn scatter(&self, incident: &Ray<T>, hit: &Hit<T>) -> (r: Scatter<T>)
        ensures
            self.may_scatter(incident@, hit@, r@),
    ;
}

} // verus!
