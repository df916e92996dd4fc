//! The matt material: light leaves it in a random direction around the normal.
use vstd::prelude::*;
use crate::float::Float;
use crate::hit::{Hit, HitModel};
use crate::material::{Scatter, ScatterModel};
use crate::ray::{Ray, RayModel};
use crate::texture::Texture;
use crate::vector::{normalized, plus, scaled, Vec3};

verus! {

/// What a matt surface of the given colour makes of a hit: the colour dimmed, and a
/// ray from the point of the hit along the normalized sum of the normalized normal
/// and the point `sample` of the unit ball.
pub open spec fn lambertian_scatter<T: Float>(
    color: Seq<T>,
    dimming: T,
    hit: HitModel<T>,
    sample: Seq<T>,
) -> ScatterModel<T> {
    ScatterModel {
        attenuation: scaled(color, dimming),
        scattered: Some(
            RayModel {
                origin: hit.point,
                direction: normalized(
                    plus(normalized(hit.normal), scaled(sample, T::one_spec())),
                ),
            },
        ),
    }
}

/// A matt material with the colour of a texture, dimmed.
pub struct LambertianMaterial<T: Float, X: Texture<T>> {
    texture: Box<X>,
    dimming: T,
}

impl<T: Float, X: Texture<T>> LambertianMaterial<T, X> {
    pub closed spec fn texture(&self) -> X {
        *self.texture
    }

    pub closed spec fn dimming(&self) -> T {
        self.dimming
    }

    pub fn new(texture: Box<X>, dimming: T) -> (r: Self)
        ensures
            r.texture() == *texture,
            r.dimming() == dimming,
    {
        LambertianMaterial { texture, dimming }
    }

    /// Scatters the light of a hit. `sample` is a point drawn uniformly from the unit
    /// ball.
    pub fn scatter_with(&self, _incident: &Ray<T>, hit: &Hit<T>, sample: &Vec3<T>) -> (r: Scatter<T>)
        ensures
            r@ == lambertian_scatter(
                self.texture().color_spec(T::zero_spec(), T::zero_spec(), hit.point@),
                self.dimming(),
                hit@,
                sample@,
            ),
    {
        let color = self.texture.get_color(T::zero(), T::zero(), &hit.point);
        let attenuation = color.mul(self.dimming);
        let mut normal = hit.normal.copy();
        normal.normalize();
        let origin = hit.point.copy();
        let mut direction = normal.add(&sample.mul(T::one()));
        direction.normalize();
        let scattered = Some(Ray::from_vec(origin, direction));
        Scatter { attenuation, scattered }
    }
}

} // verus!
