//! The octree over a fixed box: every node splits its box at the midpoint of each
//! axis into eight octants and keeps the actors that fit no single octant.
use std::rc::Rc;
use vstd::multiset::Multiset;
use vstd::prelude::*;
use crate::actor::Actor;
use crate::boundingbox::{box_contains, box_hit, canonical, lemma_box_len, BoundingBox, BoxModel};
use crate::float::{half, half_spec, Float};
use crate::hit::Hit;
use crate::hitable::Hitable;
use crate::material::Material;
use crate::ray::{Ray, RayModel};
use crate::nearest::{bound_after, latest};
use crate::tree::{actors_scan, found_view, scan_actors, Found, Tree};
use crate::vector::{plus, Vec3};

verus! {

broadcast use {vstd::seq::axiom_seq_index_decreases, vstd::std_specs::vec::axiom_vec_index_decreases};

/// How many levels below a node an insertion may descend at most. The bound is
/// there for the proof that insertion ends; no insertion comes near it. A descent
/// goes on only into an octant that is a proper part of the box it splits, and
/// the boxes of a scalar cannot be nested that often.
pub const MAX_DEPTH: usize = usize::MAX;

/// The mathematical content of an octree: the fixed box of its root, the eight
/// optional children in octant order, and the actors that the root keeps itself.
pub struct OctModel<T: Float, H: Hitable<T>, M: Material<T>> {
    pub bounds: BoxModel<T>,
    pub children: Seq<Option<Box<OctModel<T, H, M>>>>,
    pub actors: Seq<Rc<Actor<T, H, M>>>,
}

/// The node without children and without actors over a given box.
pub open spec fn fresh_node<T: Float, H: Hitable<T>, M: Material<T>>(bounds: BoxModel<T>) -> OctModel<
    T,
    H,
    M,
> {
    OctModel { bounds, children: Seq::new(8, |i: int| None), actors: Seq::empty() }
}

/// Half the extent of `b` along each axis.
pub open spec fn octant_size<T: Float>(b: BoxModel<T>) -> Seq<T> {
    seq![
        half_spec::<T>().mul_spec(b.hi[0].sub_spec(b.lo[0])),
        half_spec::<T>().mul_spec(b.hi[1].sub_spec(b.lo[1])),
        half_spec::<T>().mul_spec(b.hi[2].sub_spec(b.lo[2])),
    ]
}

/// How far the lower corner of octant `index` lies from the lower corner of `b`.
/// The lowest bit of `index` selects the upper half along Z, the next bit the upper
/// half along Y, the third bit the upper half along X.
pub open spec fn octant_offset<T: Float>(b: BoxModel<T>, index: int) -> Seq<T> {
    let size = octant_size(b);
    seq![
        size[0].mul_spec(T::from_usize_spec(((index / 4) % 2) as usize)),
        size[1].mul_spec(T::from_usize_spec(((index / 2) % 2) as usize)),
        size[2].mul_spec(T::from_usize_spec((index % 2) as usize)),
    ]
}

/// The box of octant `index` of `b`.
pub open spec fn octant_bounds<T: Float>(b: BoxModel<T>, index: int) -> BoxModel<T> {
    let low = plus(b.lo, octant_offset(b, index));
    canonical(low, plus(low, octant_size(b)))
}

/// The box of child `index` of a node: that of the child if it is there, else that
/// of the octant.
pub open spec fn child_bounds<T: Float, H: Hitable<T>, M: Material<T>>(
    node: OctModel<T, H, M>,
    index: int,
) -> BoxModel<T> {
    match node.children[index] {
        Some(child) => child.bounds,
        None => octant_bounds(node.bounds, index),
    }
}

/// Child `index` of a node: the child if it is there, else a fresh node over the
/// octant.
pub open spec fn child_or_fresh<T: Float, H: Hitable<T>, M: Material<T>>(
    node: OctModel<T, H, M>,
    index: int,
) -> OctModel<T, H, M> {
    match node.children[index] {
        Some(child) => *child,
        None => fresh_node(octant_bounds(node.bounds, index)),
    }
}

/// Child `index` of a node takes a box: the box of the child contains it, and the
/// box of the child is a proper part of the box of the node. Where the arithmetic
/// of the scalar can split a box no further, so that an octant is the whole box
/// again, the octant takes nothing.
pub open spec fn octant_takes<T: Float, H: Hitable<T>, M: Material<T>>(
    node: OctModel<T, H, M>,
    target: BoxModel<T>,
    index: int,
) -> bool {
    box_contains(child_bounds(node, index), target) && !box_contains(
        child_bounds(node, index),
        node.bounds,
    )
}

/// The first child from `start` on that takes `target`, if there is one.
pub open spec fn first_fit<T: Float, H: Hitable<T>, M: Material<T>>(
    node: OctModel<T, H, M>,
    target: BoxModel<T>,
    start: int,
) -> Option<int>
    decreases node.children.len() - start,
{
    if start < 0 || start >= node.children.len() {
        None
    } else if octant_takes(node, target, start) {
        Some(start)
    } else {
        first_fit(node, target, start + 1)
    }
}

/// The node after an actor whose box it contains has been inserted, descending at
/// most `levels` levels.
///
/// The actor goes to the first child that takes the actor's box, and is inserted
/// there in the same way. If there is no such child, the node keeps the actor
/// itself, behind the actors it kept before. (So would a node at which no level is
/// left; see `MAX_DEPTH`.)
pub open spec fn oct_inserted<T: Float, H: Hitable<T>, M: Material<T>>(
    node: OctModel<T, H, M>,
    actor: Rc<Actor<T, H, M>>,
    levels: nat,
) -> OctModel<T, H, M>
    decreases levels,
{
    match first_fit(node, actor.hitable.bounds_spec(), 0) {
        Some(index) if levels > 0 => OctModel {
            bounds: node.bounds,
            children: node.children.update(
                index,
                Some(Box::new(oct_inserted(child_or_fresh(node, index), actor, (levels - 1) as nat))),
            ),
            actors: node.actors,
        },
        _ => OctModel {
            bounds: node.bounds,
            children: node.children,
            actors: node.actors.push(actor),
        },
    }
}

/// The answer of an octree to a query.
///
/// A node whose box the ray misses answers with nothing. Otherwise the node scans
/// the actors it keeps and then asks its children in octant order, each with the
/// bound that the answers before it left.
pub open spec fn oct_hit<T: Float, H: Hitable<T>, M: Material<T>>(
    node: OctModel<T, H, M>,
    ray: RayModel<T>,
    t_min: T,
    t_max: T,
) -> Found<T, H, M>
    decreases node, node.children.len() + 1,
{
    if !box_hit(node.bounds, ray, t_min, t_max) {
        None
    } else {
        let own = actors_scan(node.actors, 0, ray, t_min, t_max, None);
        children_scan(node, 0, ray, t_min, bound_after(own, t_max), own)
    }
}

/// The part of a query that asks the children from position `start` on.
pub open spec fn children_scan<T: Float, H: Hitable<T>, M: Material<T>>(
    node: OctModel<T, H, M>,
    start: int,
    ray: RayModel<T>,
    t_min: T,
    bound: T,
    best: Found<T, H, M>,
) -> Found<T, H, M>
    decreases node, node.children.len() - start,
{
    if start < 0 || start >= node.children.len() {
        best
    } else {
        match node.children[start] {
            Some(child) => {
                let found = oct_hit(*child, ray, t_min, bound);
                children_scan(
                    node,
                    start + 1,
                    ray,
                    t_min,
                    bound_after(found, bound),
                    latest(best, found),
                )
            },
            None => children_scan(node, start + 1, ray, t_min, bound, best),
        }
    }
}

/// A node of the octree together with everything below it.
pub struct Octree<T: Float, H: Hitable<T>, M: Material<T>> {
    bounds: BoundingBox<T>,
    children: Vec<Option<Box<Octree<T, H, M>>>>,
    actors: Vec<Rc<Actor<T, H, M>>>,
}

impl<T: Float, H: Hitable<T>, M: Material<T>> View for Octree<T, H, M> {
    type V = OctModel<T, H, M>;

    closed spec fn view(&self) -> OctModel<T, H, M> {
        self.model()
    }
}

impl<T: Float, H: Hitable<T>, M: Material<T>> Octree<T, H, M> {
    /// The content of the node and of everything below it.
    spec fn model(&self) -> OctModel<T, H, M>
        decreases self,
    {
        OctModel {
            bounds: self.bounds@,
            children: Seq::new(
                self.children.len() as nat,
                |i: int|
                    if 0 <= i < self.children.len() {
                        match self.children[i] {
                            Some(child) => Some(Box::new(child.model())),
                            None => None,
                        }
                    } else {
                        None
                    },
            ),
            actors: self.actors@,
        }
    }

    /// The node without children and without actors over the box `bounds`. The box
    /// of a node never changes.
    pub fn new(bounds: BoundingBox<T>) -> (r: Self)
        ensures
            r@ == fresh_node::<T, H, M>(bounds@),
            oct_well_formed(r@, MAX_DEPTH as nat),
    {
        let mut children: Vec<Option<Box<Octree<T, H, M>>>> = Vec::new();
        let mut i: usize = 0;
        while i < 8
            invariant
                i <= 8,
                children.len() == i,
                forall|j: int| 0 <= j < i ==> children[j].is_none(),
            decreases 8 - i,
        {
            children.push(None);
            i = i + 1;
        }
        let actors = Vec::new();
        let r = Octree { bounds, children, actors };
        proof {
            assert(r@.children =~= fresh_node::<T, H, M>(bounds@).children);
        }
        r
    }

    pub fn get_bounds(&self) -> (r: &BoundingBox<T>)
        ensures
            r@ == self@.bounds,
    {
        &self.bounds
    }

    /// The child in octant `index`, if the node has one there.
    pub fn get_child(&self, index: usize) -> (r: Option<&Octree<T, H, M>>)
        ensures
            index >= self@.children.len() ==> r.is_none(),
            index < self@.children.len() ==> (match self@.children[index as int] {
                Some(child) => r matches Some(found) && found@ == *child,
                None => r.is_none(),
            }),
    {
        if index < self.children.len() {
            match &self.children[index] {
                Some(child) => Some(&**child),
                None => None,
            }
        } else {
            None
        }
    }

    /// The actors that the node keeps itself, in the order in which it took them.
    pub fn get_actors(&self) -> (r: &Vec<Rc<Actor<T, H, M>>>)
        ensures
            r@ == self@.actors,
    {
        &self.actors
    }

    /// The box of octant `child_index` of this node.
    pub fn get_child_bounds(&self, child_index: usize) -> (r: BoundingBox<T>)
        ensures
            r@ == octant_bounds(self@.bounds, child_index as int),
    {
        let k: usize = child_index % 2;
        let j: usize = (child_index / 2) % 2;
        let i: usize = (child_index / 4) % 2;
        let k = T::from_usize(k);
        let j = T::from_usize(j);
        let i = T::from_usize(i);
        let half = half::<T>();
        let (min_x, max_x) = self.get_bounds().get_axis_bounds(0);
        let (min_y, max_y) = self.get_bounds().get_axis_bounds(1);
        let (min_z, max_z) = self.get_bounds().get_axis_bounds(2);
        let len = [half.mul(max_x.sub(min_x)), half.mul(max_y.sub(min_y)), half.mul(max_z.sub(min_z))];
        let offset = Vec3::from_array([len[0].mul(i), len[1].mul(j), len[2].mul(k)]);
        let corner = Vec3::from_array([min_x, min_y, min_z]);
        proof {
            lemma_box_len(self.bounds);
            assert(corner@ =~= self@.bounds.lo);
            assert(len@ =~= octant_size(self@.bounds));
            assert(offset@ =~= octant_offset(self@.bounds, child_index as int));
        }
        let p0 = corner.add(&offset);
        let p1 = p0.add(&Vec3::from_array(len));
        BoundingBox::new(p0, p1)
    }
}

impl<T: Float, H: Hitable<T>, M: Material<T>> Octree<T, H, M> {
    /// Inserts an actor, descending at most `levels` levels below this node.
    fn insert(&mut self, actor: Rc<Actor<T, H, M>>, levels: usize) -> (accepted: bool)
        ensures
            accepted == box_contains(old(self)@.bounds, actor.hitable.bounds_spec()),
            accepted ==> final(self)@ == oct_inserted(old(self)@, actor, levels as nat),
            !accepted ==> final(self)@ == old(self)@,
        decreases levels,
    {
        // If this node can't fully contain the actor, do nothing
        if !self.bounds.contains(actor.hitable.get_bounds()) {
            return false;
        }
        let ghost target = actor.hitable.bounds_spec();
        if levels > 0 {
            // If one of the current or potential children of this node can fully
            // contain the actor, add it to that node
            let mut i: usize = 0;
            while i < self.children.len()
                invariant
                    i <= self.children.len(),
                    levels > 0,
                    *self == *old(self),
                    target == actor.hitable.bounds_spec(),
                    box_contains(old(self)@.bounds, target),
                    first_fit(self@, target, 0) == first_fit(self@, target, i as int),
                decreases self.children.len() - i,
            {
                let ghost before = self@;
                let ghost grown_child = oct_inserted(
                    child_or_fresh(before, i as int),
                    actor,
                    (levels - 1) as nat,
                );
                if self.children[i].is_none() {
                    let child_bounds = self.get_child_bounds(i);
                    if child_bounds.contains(actor.hitable.get_bounds()) && !child_bounds.contains(
                        &self.bounds,
                    ) {
                        let mut node = Octree::new(child_bounds);
                        let _accepted = node.insert(actor, levels - 1);
                        self.children[i] = Some(Box::new(node));
                        proof {
                            assert(self@.children =~= before.children.update(
                                i as int,
                                Some(Box::new(grown_child)),
                            ));
                        }
                        return true;
                    }
                } else {
                    let fits = match &self.children[i] {
                        Some(node) => node.get_bounds().contains(actor.hitable.get_bounds())
                            && !node.get_bounds().contains(&self.bounds),
                        None => false,
                    };
                    if fits {
                        match &mut self.children[i] {
                            Some(node) => {
                                let _accepted = node.insert(actor, levels - 1);
                            },
                            None => {},
                        }
                        proof {
                            assert(self@.children =~= before.children.update(
                                i as int,
                                Some(Box::new(grown_child)),
                            ));
                        }
                        return true;
                    }
                }
                i = i + 1;
            }
        }
        // If the actor is too large for any of the children, add it to this node.
        self.actors.push(actor);
        true
    }
}

impl<T: Float, H: Hitable<T>, M: Material<T>> Tree<T, H, M> for Octree<T, H, M> {
    open spec fn held(&self) -> Multiset<Rc<Actor<T, H, M>>> {
        oct_held(self@)
    }

    open spec fn hit_spec(&self, ray: RayModel<T>, t_min: T, t_max: T) -> Found<T, H, M> {
        oct_hit(self@, ray, t_min, t_max)
    }

    /// Inserts the actor if the box of this node contains the actor's box, and
    /// refuses it otherwise.
    fn add_actor(&mut self, actor: Rc<Actor<T, H, M>>) -> (accepted: bool)
        ensures
            accepted == box_contains(old(self)@.bounds, actor.hitable.bounds_spec()),
            accepted ==> final(self)@ == oct_inserted(old(self)@, actor, MAX_DEPTH as nat),
            !accepted ==> final(self)@ == old(self)@,
            final(self)@.bounds == old(self)@.bounds,
            accepted && settles_within(old(self)@, actor, MAX_DEPTH as nat)
                ==> kept_where_nothing_takes(old(self)@, actor, final(self)@),
            oct_well_formed(old(self)@, MAX_DEPTH as nat) ==> oct_well_formed(
                final(self)@,
                MAX_DEPTH as nat,
            ),
    {
        proof {
            lemma_oct_inserted_holds(old(self)@, actor, MAX_DEPTH as nat);
            if settles_within(old(self)@, actor, MAX_DEPTH as nat) {
                lemma_oct_inserted_where_nothing_takes(old(self)@, actor, MAX_DEPTH as nat);
            }
            if oct_well_formed(old(self)@, MAX_DEPTH as nat) && box_contains(
                old(self)@.bounds,
                actor.hitable.bounds_spec(),
            ) {
                lemma_oct_inserted_well_formed(old(self)@, actor, MAX_DEPTH as nat);
            }
        }
        self.insert(actor, MAX_DEPTH)
    }

    fn get_hit(&self, ray: &Ray<T>, t_min: T, t_max: T) -> (r: Option<
        (Rc<Actor<T, H, M>>, Hit<T>),
    >)
        decreases self,
    {
        if !self.get_bounds().hit(ray, t_min, t_max) {
            return None;
        }
        let mut bound = t_max;
        let mut result = scan_actors(&self.actors, ray, t_min, t_max);
        if let Some((_, hit)) = &result {
            bound = hit.t;
        }
        let mut i: usize = 0;
        while i < self.children.len()
            invariant
                i <= self.children.len(),
                oct_hit(self@, ray@, t_min, t_max) == children_scan(
                    self@,
                    i as int,
                    ray@,
                    t_min,
                    bound,
                    found_view(result),
                ),
            decreases self.children.len() - i,
        {
            if let Some(child) = &self.children[i] {
                if let Some((actor, hit)) = child.get_hit(ray, t_min, bound) {
                    bound = hit.t;
                    result = Some((actor, hit));
                }
            }
            i = i + 1;
        }
        result
    }
}

/// The actors that the children from position `start` on hold.
pub open spec fn children_held<T: Float, H: Hitable<T>, M: Material<T>>(
    children: Seq<Option<Box<OctModel<T, H, M>>>>,
    start: int,
) -> Multiset<Rc<Actor<T, H, M>>>
    decreases children, children.len() - start,
{
    if start < 0 || start >= children.len() {
        Multiset::empty()
    } else {
        match children[start] {
            Some(child) => oct_held(*child).add(children_held(children, start + 1)),
            None => children_held(children, start + 1),
        }
    }
}

/// The actors that a node keeps itself or holds in a child.
pub open spec fn oct_held<T: Float, H: Hitable<T>, M: Material<T>>(
    node: OctModel<T, H, M>,
) -> Multiset<Rc<Actor<T, H, M>>>
    decreases node, 0int,
{
    node.actors.to_multiset().add(children_held(node.children, 0))
}

/// What child `index` of a node holds; nothing if the child is not there.
pub open spec fn child_held<T: Float, H: Hitable<T>, M: Material<T>>(
    children: Seq<Option<Box<OctModel<T, H, M>>>>,
    index: int,
) -> Multiset<Rc<Actor<T, H, M>>> {
    match children[index] {
        Some(child) => oct_held(*child),
        None => Multiset::empty(),
    }
}

/// The first fit, if there is one, is the position of a child.
pub proof fn lemma_first_fit_in_range<T: Float, H: Hitable<T>, M: Material<T>>(
    node: OctModel<T, H, M>,
    target: BoxModel<T>,
    start: int,
)
    requires
        0 <= start,
    ensures
        first_fit(node, target, start) matches Some(index) ==> start <= index
            < node.children.len() && octant_takes(node, target, index),
    decreases node.children.len() - start,
{
    if start < node.children.len() && !octant_takes(node, target, start) {
        lemma_first_fit_in_range(node, target, start + 1);
    }
}

/// A fresh node holds nothing.
pub proof fn lemma_fresh_holds_nothing<T: Float, H: Hitable<T>, M: Material<T>>(
    bounds: BoxModel<T>,
    start: int,
)
    requires
        0 <= start <= 8,
    ensures
        children_held(fresh_node::<T, H, M>(bounds).children, start) == Multiset::<
            Rc<Actor<T, H, M>>,
        >::empty(),
        start == 0 ==> oct_held(fresh_node::<T, H, M>(bounds)) == Multiset::<
            Rc<Actor<T, H, M>>,
        >::empty(),
    decreases 8 - start,
{
    let node = fresh_node::<T, H, M>(bounds);
    if start < 8 {
        lemma_fresh_holds_nothing::<T, H, M>(bounds, start + 1);
    }
    if start == 0 {
        assert(node.actors.to_multiset() =~= Multiset::empty()) by {
            node.actors.to_multiset_ensures();
        }
        assert(oct_held(node) =~= Multiset::empty());
    }
}

/// Replacing one child by a node that holds one actor more adds that actor to
/// what the children hold together.
pub proof fn lemma_children_held_update<T: Float, H: Hitable<T>, M: Material<T>>(
    children: Seq<Option<Box<OctModel<T, H, M>>>>,
    index: int,
    child: OctModel<T, H, M>,
    actor: Rc<Actor<T, H, M>>,
    start: int,
)
    requires
        0 <= index < children.len(),
        0 <= start,
        oct_held(child) == child_held(children, index).insert(actor),
    ensures
        start <= index ==> children_held(children.update(index, Some(Box::new(child))), start)
            == children_held(children, start).insert(actor),
        start > index ==> children_held(children.update(index, Some(Box::new(child))), start)
            == children_held(children, start),
    decreases children.len() - start,
{
    let updated = children.update(index, Some(Box::new(child)));
    if start < children.len() {
        lemma_children_held_update(children, index, child, actor, start + 1);
        if start == index {
            assert(children_held(updated, start) =~= children_held(children, start).insert(actor));
        } else if start < index {
            assert(updated[start] == children[start]);
            assert(children_held(updated, start) =~= children_held(children, start).insert(actor));
        } else {
            assert(updated[start] == children[start]);
            assert(children_held(updated, start) =~= children_held(children, start));
        }
    }
}

/// Inserting an actor adds exactly that actor to what the node holds.
pub proof fn lemma_oct_inserted_holds<T: Float, H: Hitable<T>, M: Material<T>>(
    node: OctModel<T, H, M>,
    actor: Rc<Actor<T, H, M>>,
    levels: nat,
)
    ensures
        oct_held(oct_inserted(node, actor, levels)) == oct_held(node).insert(actor),
    decreases levels,
{
    let target = actor.hitable.bounds_spec();
    lemma_first_fit_in_range(node, target, 0);
    match first_fit(node, target, 0) {
        Some(index) if levels > 0 => {
            let below = child_or_fresh(node, index);
            let child = oct_inserted(below, actor, (levels - 1) as nat);
            lemma_oct_inserted_holds(below, actor, (levels - 1) as nat);
            if node.children[index].is_none() {
                lemma_fresh_holds_nothing::<T, H, M>(octant_bounds(node.bounds, index), 0);
            }
            assert(oct_held(below) == child_held(node.children, index));
            lemma_children_held_update(node.children, index, child, actor, 0);
            assert(oct_held(oct_inserted(node, actor, levels)) =~= oct_held(node).insert(actor));
        },
        _ => {
            node.actors.to_multiset_ensures();
            assert(oct_held(oct_inserted(node, actor, levels)) =~= oct_held(node).insert(actor));
        },
    }
}

/// The shape that insertion keeps: a node has eight places for children, the box
/// of a child is the box of its octant, the box of a node contains the box of every
/// actor that the node keeps, and all this holds of the children too.
pub open spec fn oct_well_formed<T: Float, H: Hitable<T>, M: Material<T>>(
    node: OctModel<T, H, M>,
    levels: nat,
) -> bool
    decreases levels,
{
    &&& node.children.len() == 8
    &&& forall|i: int|
        0 <= i < node.actors.len() ==> box_contains(
            node.bounds,
            (#[trigger] node.actors[i]).hitable.bounds_spec(),
        )
    &&& forall|i: int|
        0 <= i < 8 ==> (#[trigger] node.children[i] matches Some(child) ==> levels > 0
            && child.bounds == octant_bounds(node.bounds, i) && oct_well_formed(
            *child,
            (levels - 1) as nat,
        ))
}

/// A fresh node is well formed.
pub proof fn lemma_fresh_well_formed<T: Float, H: Hitable<T>, M: Material<T>>(
    bounds: BoxModel<T>,
    levels: nat,
)
    ensures
        oct_well_formed(fresh_node::<T, H, M>(bounds), levels),
{
}

/// Insertion keeps a node well formed and never changes its box: an actor only goes
/// where the box contains the actor's box, and no deeper than the levels allow.
pub proof fn lemma_oct_inserted_well_formed<T: Float, H: Hitable<T>, M: Material<T>>(
    node: OctModel<T, H, M>,
    actor: Rc<Actor<T, H, M>>,
    levels: nat,
)
    requires
        oct_well_formed(node, levels),
        box_contains(node.bounds, actor.hitable.bounds_spec()),
    ensures
        oct_well_formed(oct_inserted(node, actor, levels), levels),
        oct_inserted(node, actor, levels).bounds == node.bounds,
    decreases levels,
{
    let target = actor.hitable.bounds_spec();
    let after = oct_inserted(node, actor, levels);
    lemma_first_fit_in_range(node, target, 0);
    match first_fit(node, target, 0) {
        Some(index) if levels > 0 => {
            let below = child_or_fresh(node, index);
            assert(node.children[index] matches Some(child) ==> oct_well_formed(
                *child,
                (levels - 1) as nat,
            ));
            lemma_fresh_well_formed::<T, H, M>(
                octant_bounds(node.bounds, index),
                (levels - 1) as nat,
            );
            lemma_oct_inserted_well_formed(below, actor, (levels - 1) as nat);
            assert forall|i: int| 0 <= i < 8 implies (#[trigger] after.children[i] matches Some(
                child,
            ) ==> levels > 0 && child.bounds == octant_bounds(after.bounds, i) && oct_well_formed(
                *child,
                (levels - 1) as nat,
            )) by {
                if i != index {
                    assert(after.children[i] == node.children[i]);
                }
            }
        },
        _ => {
            assert forall|i: int| 0 <= i < after.actors.len() implies box_contains(
                after.bounds,
                (#[trigger] after.actors[i]).hitable.bounds_spec(),
            ) by {
                if i < node.actors.len() {
                    assert(after.actors[i] == node.actors[i]);
                }
            }
            assert forall|i: int| 0 <= i < 8 implies (#[trigger] after.children[i] matches Some(
                child,
            ) ==> levels > 0 && child.bounds == octant_bounds(after.bounds, i) && oct_well_formed(
                *child,
                (levels - 1) as nat,
            )) by {
                assert(after.children[i] == node.children[i]);
            }
        },
    }
}

/// An insertion settles within the given number of levels: on its way down it
/// comes, before the levels are used up, to a node none of whose children takes
/// the actor's box.
pub open spec fn settles_within<T: Float, H: Hitable<T>, M: Material<T>>(
    node: OctModel<T, H, M>,
    actor: Rc<Actor<T, H, M>>,
    levels: nat,
) -> bool
    decreases levels,
{
    match first_fit(node, actor.hitable.bounds_spec(), 0) {
        None => true,
        Some(index) => levels > 0 && settles_within(
            child_or_fresh(node, index),
            actor,
            (levels - 1) as nat,
        ),
    }
}

/// `after` is `before` with the actor kept where nothing below takes it.
///
/// No box has changed. If a child of the node takes the actor's box, the first
/// such child, made fresh over its octant if it was not there, has received the
/// actor in the same way, and nothing else has changed. If no child takes it, the
/// node keeps the actor behind the actors it kept before, and nothing else has
/// changed.
pub open spec fn kept_where_nothing_takes<T: Float, H: Hitable<T>, M: Material<T>>(
    before: OctModel<T, H, M>,
    actor: Rc<Actor<T, H, M>>,
    after: OctModel<T, H, M>,
) -> bool
    decreases after,
{
    &&& after.bounds == before.bounds
    &&& match first_fit(before, actor.hitable.bounds_spec(), 0) {
        None => after.children == before.children && after.actors == before.actors.push(actor),
        Some(index) => {
            &&& after.actors == before.actors
            &&& 0 <= index < after.children.len()
            &&& after.children == before.children.update(index, after.children[index])
            &&& after.children[index] matches Some(child) && kept_where_nothing_takes(
                child_or_fresh(before, index),
                actor,
                *child,
            )
        },
    }
}

/// An insertion that settles within its levels keeps the actor where nothing
/// below takes it: at a node none of whose children takes the actor's box, reached
/// through children each of which took it.
pub proof fn lemma_oct_inserted_where_nothing_takes<T: Float, H: Hitable<T>, M: Material<T>>(
    node: OctModel<T, H, M>,
    actor: Rc<Actor<T, H, M>>,
    levels: nat,
)
    requires
        settles_within(node, actor, levels),
    ensures
        kept_where_nothing_takes(node, actor, oct_inserted(node, actor, levels)),
    decreases levels,
{
    let target = actor.hitable.bounds_spec();
    let after = oct_inserted(node, actor, levels);
    lemma_first_fit_in_range(node, target, 0);
    match first_fit(node, target, 0) {
        Some(index) => {
            let below = child_or_fresh(node, index);
            lemma_oct_inserted_where_nothing_takes(below, actor, (levels - 1) as nat);
            assert(after.children[index] == Some(
                Box::new(oct_inserted(below, actor, (levels - 1) as nat)),
            ));
            assert(after.children =~= node.children.update(index, after.children[index]));
        },
        None => {},
    }
}

} // verus!
