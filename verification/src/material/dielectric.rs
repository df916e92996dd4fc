//! The transparent material: light is reflected or bent at its surface.
use vstd::prelude::*;
use crate::float::Float;
use crate::hit::{Hit, HitModel};
use crate::material::{Scatter, ScatterModel};
use crate::ray::{Ray, RayModel};
use crate::texture::Texture;
use crate::utils::{refract, refracted};
use crate::vector::{dot_spec, normalized, scaled};

verus! {

/// The direction in which a transparent body of refractive index `n` sends light
/// on.
///
/// Light that meets the normal head-on (`incident . normal < 0`) enters the body: it
/// passes from index one to index `n` at the normal. Other light leaves the body: it
/// passes from index `n` to index one at the normal turned round.
pub open spec fn dielectric_direction<T: Float>(
    incident: Seq<T>,
    normal: Seq<T>,
    n: T,
    sample: T,
) -> Seq<T> {
    if dot_spec(incident, normal).lt_spec(T::zero_spec()) {
        normalized(refracted(incident, normal, T::one_spec(), n, sample))
    } else {
        normalized(
            refracted(
                incident,
                scaled(normal, T::one_spec().neg_spec()),
                n,
                T::one_spec(),
                sample,
            ),
        )
    }
}

/// What a transparent body of the given colour makes of a hit.
pub open spec fn dielectric_scatter<T: Float>(
    color: Seq<T>,
    n: T,
    incident: RayModel<T>,
    hit: HitModel<T>,
    sample: T,
) -> ScatterModel<T> {
    ScatterModel {
        attenuation: color,
        scattered: Some(
            RayModel {
                origin: hit.point,
                direction: dielectric_direction(incident.direction, hit.normal, n, sample),
            },
        ),
    }
}

/// A transparent material with the colour of a texture and a refractive index.
pub struct DielectricMaterial<T: Float, X: Texture<T>> {
    texture: Box<X>,
    n: T,
}

impl<T: Float, X: Texture<T>> DielectricMaterial<T, X> {
    pub closed spec fn texture(&self) -> X {
        *self.texture
    }

    /// The refractive index.
    pub closed spec fn index(&self) -> T {
        self.n
    }

    pub fn new(texture: Box<X>, n: T) -> (r: Self)
        ensures
            r.texture() == *texture,
            r.index() == n,
    {
        DielectricMaterial { texture, n }
    }

    /// Scatters the light of a hit. `sample` is a number drawn uniformly from
    /// `[0, 1)`: it decides between reflection and refraction.
    pub fn scatter_with(&self, incident: &Ray<T>, hit: &Hit<T>, sample: T) -> (r: Scatter<T>)
        ensures
            r@ == dielectric_scatter(
                self.texture().color_spec(T::zero_spec(), T::zero_spec(), hit.point@),
                self.index(),
                incident@,
                hit@,
                sample,
            ),
    {
        let mut outward_normal = hit.normal.mul(T::one().neg());
        let mut n0 = self.n;
        let mut n1 = T::one();
        let color = self.texture.get_color(T::zero(), T::zero(), &hit.point);
        let attenuation = color.copy();
        let c = incident.get_direction().dot(&hit.normal);
        if c.lt(T::zero()) {
            outward_normal = hit.normal.copy();
            n1 = self.n;
            n0 = T::one();
        }
        let mut direction = refract(incident.get_direction(), &outward_normal, n0, n1, sample);
        let origin = hit.point.copy();
        direction.normalize();
        let scattered = Some(Ray::from_vec(origin, direction));
        Scatter { attenuation, scattered }
    }
}

} // verus!
