//! The metallic material: a mirror, blurred by its fuzziness.
use vstd::prelude::*;
use crate::float::Float;
use crate::hit::{Hit, HitModel};
use crate::material::{Scatter, ScatterModel};
use crate::ray::{Ray, RayModel};
use crate::texture::Texture;
use crate::utils::{reflect, reflected};
use crate::vector::{normalized, plus, scaled, Vec3};

verus! {

/// The direction in which a metal sends light on: the normalized mirror image of
/// the incident direction, to which a positive fuzziness adds the point `sample` of
/// the unit ball scaled by it, normalized once more.
pub open spec fn metal_direction<T: Float>(
    incident: Seq<T>,
    normal: Seq<T>,
    fuzziness: T,
    sample: Seq<T>,
) -> Seq<T> {
    let mirrored = normalized(reflected(incident, normal));
    if T::zero_spec().lt_spec(fuzziness) {
        normalized(plus(mirrored, scaled(sample, fuzziness)))
    } else {
        mirrored
    }
}

/// What a metal of the given colour makes of a hit.
pub open spec fn metal_scatter<T: Float>(
    color: Seq<T>,
    fuzziness: T,
    incident: RayModel<T>,
    hit: HitModel<T>,
    sample: Seq<T>,
) -> ScatterModel<T> {
    ScatterModel {
        attenuation: color,
        scattered: Some(
            RayModel {
                origin: hit.point,
                direction: metal_direction(incident.direction, hit.normal, fuzziness, sample),
            },
        ),
    }
}

/// A metal with the colour of a texture.
pub struct MetalMaterial<T: Float, X: Texture<T>> {
    texture: Box<X>,
    fuzziness: T,
}

impl<T: Float, X: Texture<T>> MetalMaterial<T, X> {
    pub closed spec fn texture(&self) -> X {
        *self.texture
    }

    pub closed spec fn fuzziness(&self) -> T {
        self.fuzziness
    }

    pub fn new(texture: Box<X>, fuzziness: T) -> (r: Self)
        ensures
            r.texture() == *texture,
            r.fuzziness() == fuzziness,
    {
        MetalMaterial { texture, fuzziness }
    }

    /// Scatters the light of a hit. `sample` is a point drawn uniformly from the unit
    /// ball; a metal without fuzziness ignores it.
    pub fn scatter_with(&self, incident: &Ray<T>, hit: &Hit<T>, sample: &Vec3<T>) -> (r: Scatter<T>)
        ensures
            r@ == metal_scatter(
                self.texture().color_spec(T::zero_spec(), T::zero_spec(), hit.point@),
                self.fuzziness(),
                incident@,
                hit@,
                sample@,
            ),
    {
        let color = self.texture.get_color(T::zero(), T::zero(), &hit.point);
        let attenuation = color.copy();
        let normal = &hit.normal;
        let origin = hit.point.copy();
        let mut direction = reflect(incident.get_direction(), normal);
        direction.normalize();
        if self.fuzziness.gt(T::zero()) {
            direction = direction.add(&sample.mul(self.fuzziness));
            direction.normalize();
        }
        let scattered = Some(Ray::from_vec(origin, direction));
        Scatter { attenuation, scattered }
    }
}

} // verus!
