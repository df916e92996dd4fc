//! Hit-testable surfaces.
//!
//! A surface answers two questions: which box bounds it, and where (if anywhere) a ray
//! meets it inside a parameter interval. Composite surfaces and the spatial indices
//! combine such answers with the closest-hit scan defined here.
use vstd::prelude::*;
use crate::boundingbox::{BoundingBox, BoxModel};
use crate::float::{is_number, Float};
use crate::hit::{hit_view, Hit, HitModel};
use crate::nearest::{
    all_faithful, faithful, keeps, lemma_scan_faithful, lemma_scan_nearest, lemma_scan_source,
    respects, scan, scan_responder, Responder,
};
use crate::ray::{Ray, RayModel};

pub mod primitive;
pub mod transform;

verus! {

/// A surface that a ray can be tested against.
pub trait Hitable<T: Float>: Sized {
    /// The hit of `ray` on this surface within the interval given by `t_min` and
    /// `t_max`, as a function of the surface and the arguments.
    spec fn hit_spec(&self, ray: RayModel<T>, t_min: T, t_max: T) -> Option<HitModel<T>>;

    /// The box that bounds the surface.
    spec fn bounds_spec(&self) -> BoxModel<T>;

    /// Primitives (spheres, rectangles, ...) are primitive; decorators (translations)
    /// are not.
    spec fn primitive_spec(&self) -> bool;

    fn hit(&self, ray: &Ray<T>, t_min: T, t_max: T) -> (r: Option<Hit<T>>)
        ensures
            hit_view(r) == self.hit_spec(ray@, t_min, t_max),
    ;

    fn get_bounds(&self) -> (r: &BoundingBox<T>)
        ensures
            r@ == self.bounds_spec(),
    ;

    fn is_primitive(&self) -> (r: bool)
        ensures
            r == self.primitive_spec(),
    ;
}

/// The closest-hit scan from position `start` on.
///
/// Each candidate is tested against the bound then in force. A hit replaces the
/// best hit so far and its parameter becomes the bound for the candidates after it.
pub open spec fn scan_from<T: Float, H: Hitable<T>>(
    items: Seq<H>,
    start: int,
    ray: RayModel<T>,
    t_min: T,
    bound: T,
    best: Option<HitModel<T>>,
) -> Option<HitModel<T>>
    decreases items.len() - start,
{
    if start < 0 || start >= items.len() {
        best
    } else {
        match items[start].hit_spec(ray, t_min, bound) {
            Some(h) => scan_from(items, start + 1, ray, t_min, h.t, Some(h)),
            None => scan_from(items, start + 1, ray, t_min, bound, best),
        }
    }
}

/// The closest-hit scan over all of `items`, starting with the bound `t_max` and
/// no hit.
pub open spec fn closest_hit<T: Float, H: Hitable<T>>(
    items: Seq<H>,
    ray: RayModel<T>,
    t_min: T,
    t_max: T,
) -> Option<HitModel<T>> {
    scan_from(items, 0, ray, t_min, t_max, None)
}

/// Runs the closest-hit scan over a list of surfaces.
pub fn closest_hit_of<T: Float, H: Hitable<T>>(
    items: &Vec<H>,
    ray: &Ray<T>,
    t_min: T,
    t_max: T,
) -> (r: Option<Hit<T>>)
    ensures
        hit_view(r) == closest_hit(items@, ray@, t_min, t_max),
{
    let mut bound = t_max;
    let mut result: Option<Hit<T>> = None;
    let mut i: usize = 0;
    while i < items.len()
        invariant
            i <= items.len(),
            closest_hit(items@, ray@, t_min, t_max) == scan_from(
                items@,
                i as int,
                ray@,
                t_min,
                bound,
                hit_view(result),
            ),
        decreases items.len() - i,
    {
        if let Some(hit) = items[i].hit(ray, t_min, bound) {
            bound = hit.t;
            result = Some(hit);
        }
        i = i + 1;
    }
    result
}

/// The surface's hit under the bound `b`, if it has one, lies strictly below `b` and
/// its parameter is a number.
pub open spec fn surface_respects<T: Float, H: Hitable<T>>(
    surface: H,
    ray: RayModel<T>,
    t_min: T,
    b: T,
) -> bool {
    surface.hit_spec(ray, t_min, b) matches Some(hit) ==> is_number(hit.t) && hit.t.lt_spec(b)
}

/// If the surface's hit under the bound `b` also lies strictly below the bound `c`,
/// the surface has the same hit under `c`.
pub open spec fn surface_keeps<T: Float, H: Hitable<T>>(
    surface: H,
    ray: RayModel<T>,
    t_min: T,
    b: T,
    c: T,
) -> bool {
    (surface.hit_spec(ray, t_min, b) matches Some(hit) && hit.t.lt_spec(c)) ==> surface.hit_spec(
        ray,
        t_min,
        c,
    ) == surface.hit_spec(ray, t_min, b)
}

/// A surface is faithful to a ray if, for upper bounds that are numbers, its hit
/// lies strictly below the bound and does not depend on the bound as long as it lies
/// below it. This is what the closest-hit scan relies on when it shrinks the bound.
pub open spec fn faithful_surface<T: Float, H: Hitable<T>>(
    surface: H,
    ray: RayModel<T>,
    t_min: T,
) -> bool {
    &&& forall|b: T| is_number(b) ==> #[trigger] surface_respects(surface, ray, t_min, b)
    &&& forall|b: T, c: T|
        is_number(b) && is_number(c) ==> #[trigger] surface_keeps(surface, ray, t_min, b, c)
}

/// The answers of a surface, as a responder that answers with the surface itself.
pub open spec fn surface_responder<T: Float, H: Hitable<T>>(
    surface: H,
    ray: RayModel<T>,
    t_min: T,
) -> Responder<T, H> {
    |bound: T|
        match surface.hit_spec(ray, t_min, bound) {
            Some(hit) => Some((surface, hit)),
            None => None,
        }
}

/// The responders of a list of surfaces, in the order of the list.
pub open spec fn surface_responders<T: Float, H: Hitable<T>>(
    items: Seq<H>,
    ray: RayModel<T>,
    t_min: T,
) -> Seq<Responder<T, H>> {
    Seq::new(items.len(), |i: int| surface_responder(items[i], ray, t_min))
}

/// The hit of an answer.
pub open spec fn hit_of<T: Float, X>(found: Option<(X, HitModel<T>)>) -> Option<HitModel<T>> {
    match found {
        Some((_, hit)) => Some(hit),
        None => None,
    }
}

/// Every surface of a list is faithful to the ray.
pub open spec fn faithful_surfaces<T: Float, H: Hitable<T>>(
    items: Seq<H>,
    ray: RayModel<T>,
    t_min: T,
) -> bool {
    forall|i: int| 0 <= i < items.len() ==> faithful_surface(#[trigger] items[i], ray, t_min)
}

/// The closest-hit scan over surfaces is the scan over their responders.
pub proof fn lemma_scan_from_is_scan<T: Float, H: Hitable<T>>(
    items: Seq<H>,
    start: int,
    ray: RayModel<T>,
    t_min: T,
    bound: T,
    best: Option<(H, HitModel<T>)>,
)
    ensures
        scan_from(items, start, ray, t_min, bound, hit_of(best)) == hit_of(
            scan(surface_responders(items, ray, t_min), start, bound, best),
        ),
    decreases items.len() - start,
{
    if 0 <= start < items.len() {
        let responders = surface_responders(items, ray, t_min);
        let found = responders[start](bound);
        assert(hit_of(found) == items[start].hit_spec(ray, t_min, bound));
        match found {
            Some((_, hit)) => {
                lemma_scan_from_is_scan(items, start + 1, ray, t_min, hit.t, found);
            },
            None => {
                lemma_scan_from_is_scan(items, start + 1, ray, t_min, bound, best);
            },
        }
    }
}

/// The responders of faithful surfaces are faithful.
pub proof fn lemma_surface_responders_faithful<T: Float, H: Hitable<T>>(
    items: Seq<H>,
    ray: RayModel<T>,
    t_min: T,
)
    requires
        faithful_surfaces(items, ray, t_min),
    ensures
        all_faithful(surface_responders(items, ray, t_min)),
{
    let responders = surface_responders(items, ray, t_min);
    assert forall|i: int| 0 <= i < responders.len() implies faithful(#[trigger] responders[i]) by {
        let f = responders[i];
        assert(faithful_surface(items[i], ray, t_min));
        assert forall|b: T| is_number(b) implies #[trigger] respects(f, b) by {
            assert(surface_respects(items[i], ray, t_min, b));
        }
        assert forall|b: T, c: T| is_number(b) && is_number(c) implies #[trigger] keeps(
            f,
            b,
            c,
        ) by {
            assert(surface_keeps(items[i], ray, t_min, b, c));
        }
    }
}

/// The closest-hit scan finds the nearest hit.
///
/// Over surfaces that are faithful to the ray, and under a bound that is a number,
/// the hit of the scan is the hit of one of the surfaces within the same
/// interval, and no surface has a hit strictly nearer. The scan has no hit only if
/// no surface has one.
pub proof fn lemma_closest_hit_is_nearest<T: Float, H: Hitable<T>>(
    items: Seq<H>,
    ray: RayModel<T>,
    t_min: T,
    t_max: T,
)
    requires
        faithful_surfaces(items, ray, t_min),
        is_number(t_max),
    ensures
        match closest_hit(items, ray, t_min, t_max) {
            Some(hit) => {
                &&& exists|i: int|
                    0 <= i < items.len() && (#[trigger] items[i]).hit_spec(ray, t_min, t_max)
                        == Some(hit)
                &&& forall|j: int|
                    0 <= j < items.len() ==> ((#[trigger] items[j]).hit_spec(
                        ray,
                        t_min,
                        t_max,
                    ) matches Some(other) ==> !other.t.lt_spec(hit.t))
            },
            None => forall|j: int|
                0 <= j < items.len() ==> (#[trigger] items[j]).hit_spec(ray, t_min, t_max).is_none(),
        },
{
    let responders = surface_responders(items, ray, t_min);
    lemma_surface_responders_faithful(items, ray, t_min);
    lemma_scan_from_is_scan(items, 0, ray, t_min, t_max, None);
    let found = scan(responders, 0, t_max, None);
    if found.is_some() {
        let k = lemma_scan_source(responders, 0, t_max);
        assert(hit_of(responders[k](t_max)) == items[k].hit_spec(ray, t_min, t_max));
    }
    assert forall|j: int|
        0 <= j < items.len() && (#[trigger] items[j]).hit_spec(ray, t_min, t_max).is_some() implies (
    found matches Some((_, hit)) && !items[j].hit_spec(ray, t_min, t_max).unwrap().t.lt_spec(
        hit.t,
    )) by {
        assert(hit_of(responders[j](t_max)) == items[j].hit_spec(ray, t_min, t_max));
        lemma_scan_nearest(responders, 0, t_max, j);
    }
}

/// Surfaces that are hit where the nearest of a list of faithful surfaces is hit are
/// faithful themselves.
pub proof fn lemma_closest_hit_is_faithful<T: Float, H: Hitable<T>, G: Hitable<T>>(
    whole: G,
    items: Seq<H>,
    ray: RayModel<T>,
    t_min: T,
)
    requires
        faithful_surfaces(items, ray, t_min),
        forall|bound: T|
            #![trigger whole.hit_spec(ray, t_min, bound)]
            whole.hit_spec(ray, t_min, bound) == closest_hit(items, ray, t_min, bound),
    ensures
        faithful_surface(whole, ray, t_min),
{
    let responders = surface_responders(items, ray, t_min);
    lemma_surface_responders_faithful(items, ray, t_min);
    lemma_scan_faithful(responders, 0);
    let f = scan_responder(responders, 0);
    assert forall|b: T| is_number(b) implies #[trigger] surface_respects(whole, ray, t_min, b) by {
        lemma_scan_from_is_scan(items, 0, ray, t_min, b, None);
        assert(respects(f, b));
    }
    assert forall|b: T, c: T| is_number(b) && is_number(c) implies #[trigger] surface_keeps(
        whole,
        ray,
        t_min,
        b,
        c,
    ) by {
        lemma_scan_from_is_scan(items, 0, ray, t_min, b, None);
        lemma_scan_from_is_scan(items, 0, ray, t_min, c, None);
        assert(keeps(f, b, c));
    }
}

} // verus!
