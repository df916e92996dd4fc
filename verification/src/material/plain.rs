//! The material that emits or absorbs and never scatters.
use vstd::prelude::*;
use crate::float::Float;
use crate::hit::{Hit, HitModel};
use crate::material::{Material, Scatter, ScatterModel};
use crate::ray::{Ray, RayModel};
use crate::texture::Texture;

verus! {

/// A terminal material: its colour is that of its texture and no ray leaves it.
pub struct PlainMaterial<T: Float, X: Texture<T>> {
    texture: Box<X>,
    scalar: core::marker::PhantomData<T>,
}

impl<T: Float, X: Texture<T>> PlainMaterial<T, X> {
    /// The texture, as a specification.
    pub closed spec fn texture(&self) -> X {
        *self.texture
    }

    pub fn new(texture: Box<X>) -> (r: Self)
        ensures
            r.texture() == *texture,
    {
        PlainMaterial { texture, scalar: core::marker::PhantomData }
    }
}

impl<T: Float, X: Texture<T>> Material<T> for PlainMaterial<T, X> {
    /// The one outcome of a plain material: the attenuation is the texture's colour
    /// at the coordinates `(0, 0)` and the point of the hit; there is no scattered
    /// ray.
    open spec fn may_scatter(
        &self,
        incident: RayModel<T>,
        hit: HitModel<T>,
        outcome: ScatterModel<T>,
    ) -> bool {
        outcome == (ScatterModel {
            attenuation: self.texture().color_spec(T::zero_spec(), T::zero_spec(), hit.point),
            scattered: None,
        })
    }

    fn scatter(&self, _incident: &Ray<T>, hit: &Hit<T>) -> (r: Scatter<T>) {
        let color = self.texture.get_color(T::zero(), T::zero(), &hit.point);
        let attenuation = color.copy();
        Scatter { attenuation, scattered: None }
    }
}

} // verus!
