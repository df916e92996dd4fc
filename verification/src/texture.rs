//! Colour lookup on a surface.
use vstd::prelude::*;
use crate::float::Float;
use crate::vector::{Components, Vec3};

pub mod uniform;
pub mod checker;

verus! {

/// A colour as a function of surface coordinates and of the point in space.
pub trait Texture<T: Float> {
    /// The colour at the coordinates `u`, `v` and the point `point`.
    spec fn color_spec(&self, u: T, v: T, point: Components<T>) -> Components<T>;

    fn get_color(&self, u: T, v: T, point: &Vec3<T>) -> (r: Vec3<T>)
        ensures
            r@ == self.color_spec(u, v, point@),
    ;
}

} // verus!
