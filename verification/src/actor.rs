//! Actors: a surface together with its material.
use vstd::prelude::*;
use crate::float::Float;
use crate::hitable::Hitable;
use crate::material::Material;

verus! {

/// A surface placed in a scene, and the material it is made of.
pub struct Actor<T: Float, H: Hitable<T>, M: Material<T>> {
    pub hitable: Box<H>,
    pub material: Box<M>,
    pub scalar: core::marker::PhantomData<T>,
}

impl<T: Float, H: Hitable<T>, M: Material<T>> Actor<T, H, M> {
    pub fn new(hitable: Box<H>, material: Box<M>) -> (r: Self)
        ensures
            r.hitable == hitable,
            r.material == material,
    {
        Actor { hitable, material, scalar: core::marker::PhantomData }
    }
}

} // verus!
