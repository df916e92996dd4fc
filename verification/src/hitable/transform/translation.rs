//! Translation of a surface by a fixed offset.
use vstd::prelude::*;
use crate::boundingbox::{canonical, BoundingBox, BoxModel};
use crate::float::{is_number, Float};
use crate::hit::{Hit, HitModel};
use crate::hitable::{faithful_surface, surface_keeps, surface_respects, Hitable};
use crate::ray::{Ray, RayModel};
use crate::vector::{minus, plus, Vec3};

verus! {

/// The box `bounds` moved by `offset`: spanned by its two corners, each moved.
pub open spec fn translated_bounds<T: Float>(bounds: BoxModel<T>, offset: Seq<T>) -> BoxModel<T> {
    canonical(plus(bounds.lo, offset), plus(bounds.hi, offset))
}

/// The ray as the wrapped surface sees it: the origin moved back by `offset`, the
/// direction unchanged.
pub open spec fn untranslated_ray<T: Float>(ray: RayModel<T>, offset: Seq<T>) -> RayModel<T> {
    RayModel { origin: minus(ray.origin, offset), direction: ray.direction }
}

/// A hit of the wrapped surface as the world sees it: the point moved by `offset`;
/// the normal and the ray parameter unchanged.
pub open spec fn translated_hit<T: Float>(hit: Option<HitModel<T>>, offset: Seq<T>) -> Option<
    HitModel<T>,
> {
    match hit {
        Some(h) => Some(HitModel { point: plus(h.point, offset), normal: h.normal, t: h.t }),
        None => None,
    }
}

/// A surface moved by an offset. It neither rotates nor scales the surface.
pub struct Translation<T: Float, H: Hitable<T>> {
    translation: Vec3<T>,
    wrapped: Box<H>,
    bounds: BoundingBox<T>,
}

impl<T: Float, H: Hitable<T>> Translation<T, H> {
    /// The cached box is the box of the wrapped surface, moved.
    #[verifier::type_invariant]
    spec fn inv(&self) -> bool {
        self.bounds@ == translated_bounds(self.wrapped.bounds_spec(), self.translation@)
    }

    /// The offset, as a specification.
    pub closed spec fn offset(&self) -> Seq<T> {
        self.translation@
    }

    /// The wrapped surface, as a specification.
    pub closed spec fn inner(&self) -> H {
        *self.wrapped
    }

    /// Wraps `wrapped` so that it appears moved by `translation`. The box is computed
    /// here, once.
    pub fn new(wrapped: Box<H>, translation: Vec3<T>) -> (r: Self)
        ensures
            r.inner() == *wrapped,
            r.offset() == translation@,
    {
        let bounds = Self::compute_bounds(wrapped.get_bounds(), &translation);
        Translation { translation, wrapped, bounds }
    }

    /// The box `bounds` moved by `translation`.
    pub fn compute_bounds(bounds: &BoundingBox<T>, translation: &Vec3<T>) -> (r: BoundingBox<T>)
        ensures
            r@ == translated_bounds(bounds@, translation@),
    {
        BoundingBox::new(bounds.get_p0().add(translation), bounds.get_p1().add(translation))
    }

    /// Takes the decorator off and hands back the wrapped surface.
    pub fn unwrap(self) -> (r: Box<H>)
        ensures
            *r == self.inner(),
    {
        self.wrapped
    }
}

impl<T: Float, H: Hitable<T>> Hitable<T> for Translation<T, H> {
    /// The ray is moved into the frame of the wrapped surface, tested there, and the
    /// point of a hit is moved back.
    open spec fn hit_spec(&self, ray: RayModel<T>, t_min: T, t_max: T) -> Option<HitModel<T>> {
        translated_hit(
            self.inner().hit_spec(untranslated_ray(ray, self.offset()), t_min, t_max),
            self.offset(),
        )
    }

    open spec fn bounds_spec(&self) -> BoxModel<T> {
        translated_bounds(self.inner().bounds_spec(), self.offset())
    }

    open spec fn primitive_spec(&self) -> bool {
        false
    }

    fn hit(&self, ray: &Ray<T>, t_min: T, t_max: T) -> (r: Option<Hit<T>>) {
        let origin = ray.get_origin().sub(&self.translation);
        let direction = ray.get_direction().copy();
        let translated_ray = Ray::from_vec(origin, direction);
        assert(translated_ray@ == untranslated_ray(ray@, self.offset()));
        match self.wrapped.hit(&translated_ray, t_min, t_max) {
            Some(hit) => {
                let point = hit.point.add(&self.translation);
                Some(Hit { point, normal: hit.normal, t: hit.t })
            },
            None => None,
        }
    }

    fn get_bounds(&self) -> (r: &BoundingBox<T>) {
        proof {
            use_type_invariant(self);
        }
        &self.bounds
    }

    fn is_primitive(&self) -> (r: bool) {
        false
    }
}

/// Hit-testing a translated surface is hit-testing the wrapped surface with the ray
/// moved back by the offset, and moving the point of the hit forward by the offset.
/// The normal and the ray parameter are those of the wrapped surface's hit.
pub proof fn lemma_translation_round_trip<T: Float, H: Hitable<T>>(
    surface: Translation<T, H>,
    ray: RayModel<T>,
    t_min: T,
    t_max: T,
)
    ensures
        match surface.inner().hit_spec(
            RayModel { origin: minus(ray.origin, surface.offset()), direction: ray.direction },
            t_min,
            t_max,
        ) {
            Some(h) => surface.hit_spec(ray, t_min, t_max) == Some(
                HitModel { point: plus(h.point, surface.offset()), normal: h.normal, t: h.t },
            ),
            None => surface.hit_spec(ray, t_min, t_max).is_none(),
        },
{
}

/// A translation of a surface is faithful to a ray if the surface is faithful to
/// the ray moved back by the offset.
pub proof fn lemma_translation_faithful<T: Float, H: Hitable<T>>(
    surface: Translation<T, H>,
    ray: RayModel<T>,
    t_min: T,
)
    requires
        faithful_surface(surface.inner(), untranslated_ray(ray, surface.offset()), t_min),
    ensures
        faithful_surface(surface, ray, t_min),
{
    let local = untranslated_ray(ray, surface.offset());
    assert forall|b: T| is_number(b) implies #[trigger] surface_respects(surface, ray, t_min, b) by {
        assert(surface_respects(surface.inner(), local, t_min, b));
    }
    assert forall|b: T, c: T| is_number(b) && is_number(c) implies #[trigger] surface_keeps(
        surface,
        ray,
        t_min,
        b,
        c,
    ) by {
        assert(surface_keeps(surface.inner(), local, t_min, b, c));
    }
}

} // verus!
