//! Flat unions of surfaces.
use vstd::prelude::*;
use crate::boundingbox::{canonical, grown, BoundingBox, BoxModel};
use crate::float::Float;
use crate::hit::{Hit, HitModel};
use crate::hitable::{
    closest_hit, closest_hit_of, faithful_surface, faithful_surfaces,
    lemma_closest_hit_is_faithful, Hitable,
};
use crate::ray::{Ray, RayModel};
use crate::vector::Vec3;

verus! {

/// The box that stands for no box: spanned twice by the origin. What bounds nothing
/// yet (a group without members, a tree without actors, a world without actors)
/// has it until the first box replaces it.
pub open spec fn empty_bounds<T: Float>() -> BoxModel<T> {
    canonical(
        seq![T::zero_spec(), T::zero_spec(), T::zero_spec()],
        seq![T::zero_spec(), T::zero_spec(), T::zero_spec()],
    )
}

/// The box of a group: the union of the boxes of its members. It is the box of the
/// first member, grown over the box of each later member in the order in which the
/// members were added.
pub open spec fn group_bounds<T: Float, H: Hitable<T>>(members: Seq<H>) -> BoxModel<T>
    decreases members.len(),
{
    if members.len() == 0 {
        empty_bounds()
    } else if members.len() == 1 {
        members[0].bounds_spec()
    } else {
        grown(group_bounds(members.drop_last()), members.last().bounds_spec())
    }
}

/// An ordered list of surfaces that is hit where its nearest member is hit.
pub struct Group<T: Float, H: Hitable<T>> {
    hitables: Vec<H>,
    bounds: BoundingBox<T>,
}

impl<T: Float, H: Hitable<T>> Group<T, H> {
    /// The cached box is the box of the members.
    #[verifier::type_invariant]
    spec fn inv(&self) -> bool {
        self.bounds@ == group_bounds(self.hitables@)
    }

    /// The members in the order in which they were added.
    pub closed spec fn members(&self) -> Seq<H> {
        self.hitables@
    }

    /// The group without members.
    pub fn new() -> (r: Self)
        ensures
            r.members() == Seq::<H>::empty(),
    {
        Group { hitables: Vec::new(), bounds: BoundingBox::new(Vec3::new(), Vec3::new()) }
    }

    /// Adds a member behind the members that are there. The box of the first member
    /// becomes the box of the group; over the box of a later member the box grows.
    pub fn add_hitable(&mut self, hitable: Box<H>)
        ensures
            final(self).members() == old(self).members().push(*hitable),
    {
        let mut taken = Group::new();
        core::mem::swap(&mut taken, self);
        proof {
            use_type_invariant(&taken);
        }
        let Group { mut hitables, mut bounds } = taken;
        if hitables.len() == 0 {
            bounds = hitable.get_bounds().copy();
        } else {
            let _expanded = bounds.expand(hitable.get_bounds());
        }
        hitables.push(*hitable);
        proof {
            assert(hitables@.drop_last() =~= old(self).members());
        }
        *self = Group { hitables, bounds };
    }

    /// A primitive wraps nothing: unwrapping hands back the group itself.
    pub fn unwrap(self: Box<Self>) -> (r: Box<Group<T, H>>)
        ensures
            r == self,
    {
        self
    }
}

impl<T: Float, H: Hitable<T>> Hitable<T> for Group<T, H> {
    open spec fn hit_spec(&self, ray: RayModel<T>, t_min: T, t_max: T) -> Option<HitModel<T>> {
        closest_hit(self.members(), ray, t_min, t_max)
    }

    open spec fn bounds_spec(&self) -> BoxModel<T> {
        group_bounds(self.members())
    }

    open spec fn primitive_spec(&self) -> bool {
        true
    }

    fn hit(&self, ray: &Ray<T>, t_min: T, t_max: T) -> (r: Option<Hit<T>>) {
        closest_hit_of(&self.hitables, ray, t_min, t_max)
    }

    fn get_bounds(&self) -> (r: &BoundingBox<T>) {
        proof {
            use_type_invariant(self);
        }
        &self.bounds
    }

    fn is_primitive(&self) -> (r: bool) {
        true
    }
}

/// A group of surfaces that are faithful to a ray is faithful to it.
pub proof fn lemma_group_faithful<T: Float, H: Hitable<T>>(
    group: Group<T, H>,
    ray: RayModel<T>,
    t_min: T,
)
    requires
        faithful_surfaces(group.members(), ray, t_min),
    ensures
        faithful_surface(group, ray, t_min),
{
    lemma_closest_hit_is_faithful(group, group.members(), ray, t_min);
}

} // verus!
