//! The flat list: every query tests every actor.
use std::rc::Rc;
use vstd::multiset::Multiset;
use vstd::prelude::*;
use crate::actor::Actor;
use crate::float::Float;
use crate::hit::Hit;
use crate::hitable::Hitable;
use crate::material::Material;
use crate::ray::{Ray, RayModel};
use crate::tree::{actors_scan, scan_actors, Found, Tree};

verus! {

/// The actors in the order in which they were added.
pub struct LinearTree<T: Float, H: Hitable<T>, M: Material<T>> {
    pub actors: Vec<Rc<Actor<T, H, M>>>,
}

impl<T: Float, H: Hitable<T>, M: Material<T>> LinearTree<T, H, M> {
    /// The index without actors.
    pub fn new() -> (r: Self)
        ensures
            r.actors@ == Seq::<Rc<Actor<T, H, M>>>::empty(),
    {
        let actors = Vec::new();
        LinearTree { actors }
    }
}

impl<T: Float, H: Hitable<T>, M: Material<T>> Tree<T, H, M> for LinearTree<T, H, M> {
    open spec fn held(&self) -> Multiset<Rc<Actor<T, H, M>>> {
        self.actors@.to_multiset()
    }

    /// The closest-hit scan over all actors, in the order in which they were added.
    open spec fn hit_spec(&self, ray: RayModel<T>, t_min: T, t_max: T) -> Found<T, H, M> {
        actors_scan(self.actors@, 0, ray, t_min, t_max, None)
    }

    /// Appends the actor. A list accepts every actor.
    fn add_actor(&mut self, actor: Rc<Actor<T, H, M>>) -> (accepted: bool)
        ensures
            accepted,
            final(self).actors@ == old(self).actors@.push(actor),
    {
        proof {
            old(self).actors@.to_multiset_ensures();
        }
        self.actors.push(actor);
        true
    }

    fn get_hit(&self, ray: &Ray<T>, t_min: T, t_max: T) -> (r: Option<
        (Rc<Actor<T, H, M>>, Hit<T>),
    >) {
        scan_actors(&self.actors, ray, t_min, t_max)
    }
}

} // verus!
