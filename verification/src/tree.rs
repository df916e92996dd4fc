//! Spatial indices over shared actors.
//!
//! An index holds handles to actors and answers closest-hit queries. The three
//! strategies differ in how they arrange the actors and in how much of the scene a
//! query can skip; the query convention is the same closest-hit scan in all of them.
use std::rc::Rc;
use vstd::multiset::Multiset;
use vstd::prelude::*;
use crate::actor::Actor;
use crate::float::Float;
use crate::hit::{Hit, HitModel};
use crate::hitable::Hitable;
use crate::material::Material;
use crate::nearest::{bound_after, latest};
use crate::ray::{Ray, RayModel};

pub mod linear;
pub mod binary;
pub mod oct;
pub mod equivalence;
pub mod covering;

verus! {

/// The answer of an index: the actor that is hit and the hit, if any.
pub type Found<T, H, M> = Option<(Rc<Actor<T, H, M>>, HitModel<T>)>;

/// The view of an answer as the index returns it.
pub open spec fn found_view<T: Float, H: Hitable<T>, M: Material<T>>(
    found: Option<(Rc<Actor<T, H, M>>, Hit<T>)>,
) -> Found<T, H, M> {
    match found {
        Some((actor, hit)) => Some((actor, hit@)),
        None => None,
    }
}

/// The answer of a single actor.
pub open spec fn actor_hit<T: Float, H: Hitable<T>, M: Material<T>>(
    actor: Rc<Actor<T, H, M>>,
    ray: RayModel<T>,
    t_min: T,
    bound: T,
) -> Found<T, H, M> {
    match actor.hitable.hit_spec(ray, t_min, bound) {
        Some(hit) => Some((actor, hit)),
        None => None,
    }
}

/// The closest-hit scan over a list of actors from position `start` on.
pub open spec fn actors_scan<T: Float, H: Hitable<T>, M: Material<T>>(
    actors: Seq<Rc<Actor<T, H, M>>>,
    start: int,
    ray: RayModel<T>,
    t_min: T,
    bound: T,
    best: Found<T, H, M>,
) -> Found<T, H, M>
    decreases actors.len() - start,
{
    if start < 0 || start >= actors.len() {
        best
    } else {
        let found = actor_hit(actors[start], ray, t_min, bound);
        actors_scan(
            actors,
            start + 1,
            ray,
            t_min,
            bound_after(found, bound),
            latest(best, found),
        )
    }
}

/// An index over actors.
pub trait Tree<T: Float, H: Hitable<T>, M: Material<T>> {
    /// The actors that the index holds, each as often as it was accepted.
    spec fn held(&self) -> Multiset<Rc<Actor<T, H, M>>>;

    /// The answer of the index to a query.
    spec fn hit_spec(&self, ray: RayModel<T>, t_min: T, t_max: T) -> Found<T, H, M>;

    /// Offers an actor to the index. An index that refuses the actor holds what it
    /// held before.
    fn add_actor(&mut self, actor: Rc<Actor<T, H, M>>) -> (accepted: bool)
        ensures
            accepted ==> final(self).held() == old(self).held().insert(actor),
            !accepted ==> final(self).held() == old(self).held(),
    ;

    /// The nearest hit of `ray` on an actor of the index within the interval.
    fn get_hit(&self, ray: &Ray<T>, t_min: T, t_max: T) -> (r: Option<(Rc<Actor<T, H, M>>, Hit<T>)>)
        ensures
            found_view(r) == self.hit_spec(ray@, t_min, t_max),
    ;
}

/// The strategies an index can follow.
#[derive(Clone, Copy, Debug, PartialEq, Eq, Structural)]
pub enum TreeType {
    Linear,
    Binary,
    Oct,
}

/// `Rc::clone`: a second handle to the allocation of `handle`. The two handles
/// share one value, so the new handle is equal to the old one.
#[verifier::external_body]
pub(crate) fn share<A>(handle: &Rc<A>) -> (r: Rc<A>)
    ensures
        r == *handle,
{
    Rc::clone(handle)
}

/// Runs the closest-hit scan over a list of actors, starting with the bound `bound`
/// and no hit.
pub fn scan_actors<T: Float, H: Hitable<T>, M: Material<T>>(
    actors: &Vec<Rc<Actor<T, H, M>>>,
    ray: &Ray<T>,
    t_min: T,
    bound: T,
) -> (r: Option<(Rc<Actor<T, H, M>>, Hit<T>)>)
    ensures
        found_view(r) == actors_scan(actors@, 0, ray@, t_min, bound, None),
{
    let mut t_max = bound;
    let mut result: Option<(Rc<Actor<T, H, M>>, Hit<T>)> = None;
    let mut i: usize = 0;
    while i < actors.len()
        invariant
            i <= actors.len(),
            actors_scan(actors@, 0, ray@, t_min, bound, None) == actors_scan(
                actors@,
                i as int,
                ray@,
                t_min,
                t_max,
                found_view(result),
            ),
        decreases actors.len() - i,
    {
        if let Some(hit) = actors[i].hitable.hit(ray, t_min, t_max) {
            t_max = hit.t;
            result = Some((share(&actors[i]), hit));
        }
        i = i + 1;
    }
    result
}

} // verus!
