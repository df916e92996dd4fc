//! Why the boxes of the trees hide nothing.
//!
//! Insertion keeps every node's box around the boxes of the actors below it. So a
//! tree hides no hit from a ray, provided that boxes in general do not: that a ray
//! which misses a box misses every surface whose own box lies inside it. That
//! proviso is geometry; here it is an assumption.
use std::rc::Rc;
use vstd::multiset::Multiset;
use vstd::prelude::*;
use crate::actor::Actor;
use crate::boundingbox::{
    axis_within, box_contains, box_hit, grown, lemma_grown_covers, not_inverted, BoxModel,
};
use crate::float::{is_number, lemma_numbers_total, Float};
use crate::hitable::Hitable;
use crate::material::Material;
use crate::ray::RayModel;
use crate::tree::binary::{binary_held, binary_inserted, depth, empty_tree, BinaryModel, NodeModel};
use crate::tree::equivalence::{
    binary_sound_boxes, lemma_children_held_contains, none_hit, oct_sound_boxes,
};
use crate::tree::oct::{
    child_held, child_or_fresh, first_fit, fresh_node, lemma_first_fit_in_range,
    lemma_fresh_holds_nothing, lemma_fresh_well_formed, lemma_oct_inserted_holds,
    lemma_oct_inserted_well_formed, oct_held, oct_inserted, oct_well_formed, octant_bounds,
    OctModel,
};
use crate::tree::actor_hit;

verus! {

broadcast use vstd::seq::axiom_seq_index_decreases;

/// A box of three axes whose bounds are numbers and that is not inverted.
pub open spec fn numeric_box<T: Float>(b: BoxModel<T>) -> bool {
    &&& b.lo.len() == 3
    &&& b.hi.len() == 3
    &&& forall|i: int| 0 <= i < 3 ==> is_number(#[trigger] b.lo[i])
    &&& forall|i: int| 0 <= i < 3 ==> is_number(#[trigger] b.hi[i])
    &&& not_inverted(b)
}

/// Boxes hide nothing from `ray`: a ray that misses a box of numbers hits no actor
/// among `held` whose own box the box contains.
pub open spec fn boxes_hide_nothing<T: Float, H: Hitable<T>, M: Material<T>>(
    held: Multiset<Rc<Actor<T, H, M>>>,
    ray: RayModel<T>,
    t_min: T,
) -> bool {
    forall|actor: Rc<Actor<T, H, M>>, outer: BoxModel<T>, bound: T|
        #![trigger box_hit(outer, ray, t_min, bound), actor_hit(actor, ray, t_min, bound)]
        held.contains(actor) && numeric_box(outer) && box_contains(
            outer,
            actor.hitable.bounds_spec(),
        ) && is_number(bound) && !box_hit(outer, ray, t_min, bound) ==> actor_hit(
            actor,
            ray,
            t_min,
            bound,
        ).is_none()
}

/// The box of every actor among `held` is a box of numbers.
pub open spec fn numeric_actors<T: Float, H: Hitable<T>, M: Material<T>>(
    held: Multiset<Rc<Actor<T, H, M>>>,
) -> bool {
    forall|actor: Rc<Actor<T, H, M>>|
        #[trigger] held.contains(actor) ==> numeric_box(actor.hitable.bounds_spec())
}

/// The box `outer` contains the box of every actor among `held`.
pub open spec fn covers<T: Float, H: Hitable<T>, M: Material<T>>(
    outer: BoxModel<T>,
    held: Multiset<Rc<Actor<T, H, M>>>,
) -> bool {
    forall|actor: Rc<Actor<T, H, M>>|
        #[trigger] held.contains(actor) ==> box_contains(outer, actor.hitable.bounds_spec())
}

/// Containment between boxes of numbers is transitive.
pub proof fn lemma_contains_transitive<T: Float>(a: BoxModel<T>, b: BoxModel<T>, c: BoxModel<T>)
    requires
        numeric_box(a),
        numeric_box(b),
        numeric_box(c),
        box_contains(a, b),
        box_contains(b, c),
    ensures
        box_contains(a, c),
{
    assert forall|i: int| 0 <= i < 3 implies #[trigger] axis_within(a, c, i) by {
        assert(axis_within(a, b, i));
        assert(axis_within(b, c, i));
        assert(is_number(a.lo[i]) && is_number(b.lo[i]) && is_number(c.lo[i]));
        assert(is_number(a.hi[i]) && is_number(b.hi[i]) && is_number(c.hi[i]));
        lemma_numbers_total(b.lo[i], a.lo[i]);
        lemma_numbers_total(c.lo[i], b.lo[i]);
        lemma_numbers_total(c.lo[i], a.lo[i]);
        T::order_laws(a.lo[i], b.lo[i], c.lo[i]);
        T::order_laws(c.lo[i], a.lo[i], c.lo[i]);
        lemma_numbers_total(a.hi[i], b.hi[i]);
        lemma_numbers_total(b.hi[i], c.hi[i]);
        lemma_numbers_total(a.hi[i], c.hi[i]);
        T::order_laws(c.hi[i], b.hi[i], a.hi[i]);
        T::order_laws(a.hi[i], c.hi[i], a.hi[i]);
    }
}

/// A box of numbers grown over a box of numbers is a box of numbers.
pub proof fn lemma_grown_numeric<T: Float>(a: BoxModel<T>, b: BoxModel<T>)
    requires
        numeric_box(a),
        numeric_box(b),
    ensures
        numeric_box(grown(a, b)),
        box_contains(grown(a, b), a),
        box_contains(grown(a, b), b),
{
    lemma_grown_covers(a, b);
    let g = grown(a, b);
    assert forall|i: int| 0 <= i < 3 implies is_number(#[trigger] g.lo[i]) by {
        assert(is_number(a.lo[i]) && is_number(b.lo[i]));
    }
    assert forall|i: int| 0 <= i < 3 implies is_number(#[trigger] g.hi[i]) by {
        assert(is_number(a.hi[i]) && is_number(b.hi[i]));
    }
}

/// The lower bound of the box `outer` on axis `i` is that of an actor among `held`.
pub open spec fn lower_attained<T: Float, H: Hitable<T>, M: Material<T>>(
    outer: BoxModel<T>,
    held: Multiset<Rc<Actor<T, H, M>>>,
    i: int,
) -> bool {
    exists|actor: Rc<Actor<T, H, M>>|
        #[trigger] held.contains(actor) && actor.hitable.bounds_spec().lo[i] == outer.lo[i]
}

/// The upper bound of the box `outer` on axis `i` is that of an actor among `held`.
pub open spec fn upper_attained<T: Float, H: Hitable<T>, M: Material<T>>(
    outer: BoxModel<T>,
    held: Multiset<Rc<Actor<T, H, M>>>,
    i: int,
) -> bool {
    exists|actor: Rc<Actor<T, H, M>>|
        #[trigger] held.contains(actor) && actor.hitable.bounds_spec().hi[i] == outer.hi[i]
}

/// Every bound of the box `outer` is the bound of an actor among `held`: the box is
/// no wider than the boxes of the actors make it.
pub open spec fn attained<T: Float, H: Hitable<T>, M: Material<T>>(
    outer: BoxModel<T>,
    held: Multiset<Rc<Actor<T, H, M>>>,
) -> bool {
    &&& forall|i: int| 0 <= i < 3 ==> #[trigger] lower_attained(outer, held, i)
    &&& forall|i: int| 0 <= i < 3 ==> #[trigger] upper_attained(outer, held, i)
}

/// Every node of a binary tree that holds an actor has a box of numbers that
/// contains the box of every actor below it.
pub open spec fn binary_covering<T: Float, H: Hitable<T>, M: Material<T>>(
    tree: BinaryModel<T, H, M>,
) -> bool
    decreases tree,
{
    match tree.node {
        NodeModel::Empty => true,
        NodeModel::Leaf(_) => numeric_box(tree.bounds) && covers(tree.bounds, binary_held(tree)),
        NodeModel::Internal(left, right) => {
            &&& numeric_box(tree.bounds)
            &&& covers(tree.bounds, binary_held(tree))
            &&& binary_covering(*left)
            &&& binary_covering(*right)
        },
    }
}

/// No node of a binary tree has a box wider than the actors below it make it: the
/// box of a leaf is the box of its actor, and every bound of the box of an internal
/// node is the bound of an actor below it.
pub open spec fn binary_tight<T: Float, H: Hitable<T>, M: Material<T>>(
    tree: BinaryModel<T, H, M>,
) -> bool
    decreases tree,
{
    match tree.node {
        NodeModel::Empty => true,
        NodeModel::Leaf(actor) => tree.bounds == actor.hitable.bounds_spec(),
        NodeModel::Internal(left, right) => {
            &&& attained(tree.bounds, binary_held(tree))
            &&& binary_tight(*left)
            &&& binary_tight(*right)
        },
    }
}

/// Insertion into a binary tree keeps every box no wider than the actors below it
/// make it. With `lemma_binary_inserted_covering`: the box of every node is the
/// union of the boxes of the actors below it.
pub proof fn lemma_binary_inserted_tight<T: Float, H: Hitable<T>, M: Material<T>>(
    tree: BinaryModel<T, H, M>,
    actor: Rc<Actor<T, H, M>>,
)
    requires
        binary_tight(tree),
    ensures
        binary_tight(binary_inserted(tree, actor)),
    decreases depth(tree),
{
    let target = actor.hitable.bounds_spec();
    let after = binary_inserted(tree, actor);
    crate::tree::binary::lemma_inserted_holds(tree, actor);
    match tree.node {
        NodeModel::Empty => {},
        NodeModel::Leaf(existing) => {
            lemma_binary_inserted_tight(empty_tree(), existing);
            lemma_binary_inserted_tight(empty_tree(), actor);
            assert(binary_held(after).contains(existing));
            assert(binary_held(after).contains(actor));
            assert forall|i: int| 0 <= i < 3 implies #[trigger] lower_attained(
                after.bounds,
                binary_held(after),
                i,
            ) by {
                if after.bounds.lo[i] == target.lo[i] {
                    assert(binary_held(after).contains(actor));
                } else {
                    assert(binary_held(after).contains(existing));
                }
            }
            assert forall|i: int| 0 <= i < 3 implies #[trigger] upper_attained(
                after.bounds,
                binary_held(after),
                i,
            ) by {
                if after.bounds.hi[i] == target.hi[i] {
                    assert(binary_held(after).contains(actor));
                } else {
                    assert(binary_held(after).contains(existing));
                }
            }
        },
        NodeModel::Internal(left, right) => {
            lemma_binary_inserted_tight(*left, actor);
            lemma_binary_inserted_tight(*right, actor);
            assert forall|i: int| 0 <= i < 3 implies #[trigger] lower_attained(
                after.bounds,
                binary_held(after),
                i,
            ) by {
                if after.bounds.lo[i] == target.lo[i] {
                    assert(binary_held(after).contains(actor));
                } else {
                    assert(lower_attained(tree.bounds, binary_held(tree), i));
                    let old_one = choose|other: Rc<Actor<T, H, M>>|
                        #[trigger] binary_held(tree).contains(other)
                            && other.hitable.bounds_spec().lo[i] == tree.bounds.lo[i];
                    assert(binary_held(after).contains(old_one));
                }
            }
            assert forall|i: int| 0 <= i < 3 implies #[trigger] upper_attained(
                after.bounds,
                binary_held(after),
                i,
            ) by {
                if after.bounds.hi[i] == target.hi[i] {
                    assert(binary_held(after).contains(actor));
                } else {
                    assert(upper_attained(tree.bounds, binary_held(tree), i));
                    let old_one = choose|other: Rc<Actor<T, H, M>>|
                        #[trigger] binary_held(tree).contains(other)
                            && other.hitable.bounds_spec().hi[i] == tree.bounds.hi[i];
                    assert(binary_held(after).contains(old_one));
                }
            }
        },
    }
}

/// Insertion into a binary tree keeps every box around the actors below it.
pub proof fn lemma_binary_inserted_covering<T: Float, H: Hitable<T>, M: Material<T>>(
    tree: BinaryModel<T, H, M>,
    actor: Rc<Actor<T, H, M>>,
)
    requires
        binary_covering(tree),
        numeric_actors(binary_held(tree)),
        numeric_box(actor.hitable.bounds_spec()),
    ensures
        binary_covering(binary_inserted(tree, actor)),
    decreases depth(tree),
{
    let target = actor.hitable.bounds_spec();
    let after = binary_inserted(tree, actor);
    crate::tree::binary::lemma_inserted_holds(tree, actor);
    match tree.node {
        NodeModel::Empty => {
            lemma_numeric_contains_itself(target);
        },
        NodeModel::Leaf(existing) => {
            lemma_grown_numeric(tree.bounds, target);
            assert(binary_held(tree).contains(existing));
            lemma_binary_inserted_covering(empty_tree(), existing);
            lemma_binary_inserted_covering(empty_tree(), actor);
            assert forall|other: Rc<Actor<T, H, M>>| #[trigger]
                binary_held(after).contains(other) implies box_contains(
                after.bounds,
                other.hitable.bounds_spec(),
            ) by {
                if other != actor {
                    assert(binary_held(tree).contains(other));
                    lemma_contains_transitive(after.bounds, tree.bounds, other.hitable.bounds_spec());
                }
            }
        },
        NodeModel::Internal(left, right) => {
            lemma_grown_numeric(tree.bounds, target);
            assert forall|other: Rc<Actor<T, H, M>>| #[trigger]
                binary_held(after).contains(other) implies box_contains(
                after.bounds,
                other.hitable.bounds_spec(),
            ) by {
                if other != actor {
                    assert(binary_held(tree).contains(other));
                    lemma_contains_transitive(after.bounds, tree.bounds, other.hitable.bounds_spec());
                }
            }
            assert forall|other: Rc<Actor<T, H, M>>| #[trigger]
                binary_held(*left).contains(other) implies numeric_box(
                other.hitable.bounds_spec(),
            ) by {
                assert(binary_held(tree).contains(other));
            }
            assert forall|other: Rc<Actor<T, H, M>>| #[trigger]
                binary_held(*right).contains(other) implies numeric_box(
                other.hitable.bounds_spec(),
            ) by {
                assert(binary_held(tree).contains(other));
            }
            lemma_binary_inserted_covering(*left, actor);
            lemma_binary_inserted_covering(*right, actor);
        },
    }
}

/// A box of numbers contains itself.
pub proof fn lemma_numeric_contains_itself<T: Float>(b: BoxModel<T>)
    ensures
        box_contains(b, b),
{
    assert forall|i: int| 0 <= i < 3 implies #[trigger] axis_within(b, b, i) by {
        crate::float::lemma_lt_irreflexive(b.lo[i]);
        crate::float::lemma_lt_irreflexive(b.hi[i]);
    }
}

/// A binary tree whose boxes are around the actors below them hides nothing, if
/// boxes hide nothing.
pub proof fn lemma_binary_covering_is_sound<T: Float, H: Hitable<T>, M: Material<T>>(
    tree: BinaryModel<T, H, M>,
    ray: RayModel<T>,
    t_min: T,
)
    requires
        binary_covering(tree),
        boxes_hide_nothing(binary_held(tree), ray, t_min),
    ensures
        binary_sound_boxes(tree, ray, t_min),
    decreases tree,
{
    let held = binary_held(tree);
    assert forall|bound: T|
        #![trigger box_hit(tree.bounds, ray, t_min, bound)]
        is_number(bound) && !box_hit(tree.bounds, ray, t_min, bound) implies none_hit(
        held,
        ray,
        t_min,
        bound,
    ) by {
        assert forall|actor: Rc<Actor<T, H, M>>| held.contains(actor) implies (
        #[trigger] actor_hit(actor, ray, t_min, bound)).is_none() by {
            assert(box_contains(tree.bounds, actor.hitable.bounds_spec()));
        }
    }
    match tree.node {
        NodeModel::Internal(left, right) => {
            assert(boxes_hide_nothing(binary_held(*left), ray, t_min)) by {
                assert forall|actor: Rc<Actor<T, H, M>>, outer: BoxModel<T>, bound: T|
                    #![trigger box_hit(outer, ray, t_min, bound), actor_hit(actor, ray, t_min, bound)]
                    binary_held(*left).contains(actor) && numeric_box(outer) && box_contains(
                        outer,
                        actor.hitable.bounds_spec(),
                    ) && is_number(bound) && !box_hit(outer, ray, t_min, bound) implies actor_hit(
                    actor,
                    ray,
                    t_min,
                    bound,
                ).is_none() by {
                    assert(held.contains(actor));
                }
            }
            assert(boxes_hide_nothing(binary_held(*right), ray, t_min)) by {
                assert forall|actor: Rc<Actor<T, H, M>>, outer: BoxModel<T>, bound: T|
                    #![trigger box_hit(outer, ray, t_min, bound), actor_hit(actor, ray, t_min, bound)]
                    binary_held(*right).contains(actor) && numeric_box(outer) && box_contains(
                        outer,
                        actor.hitable.bounds_spec(),
                    ) && is_number(bound) && !box_hit(outer, ray, t_min, bound) implies actor_hit(
                    actor,
                    ray,
                    t_min,
                    bound,
                ).is_none() by {
                    assert(held.contains(actor));
                }
            }
            lemma_binary_covering_is_sound(*left, ray, t_min);
            lemma_binary_covering_is_sound(*right, ray, t_min);
        },
        _ => {},
    }
}

/// The octants of a box, and their octants, down to the given number of levels, are
/// boxes of numbers.
pub open spec fn octants_numeric<T: Float>(b: BoxModel<T>, levels: nat) -> bool
    decreases levels,
{
    levels == 0 || forall|i: int|
        0 <= i < 8 ==> numeric_box(#[trigger] octant_bounds(b, i)) && octants_numeric(
            octant_bounds(b, i),
            (levels - 1) as nat,
        )
}

/// Every node of an octree has a box of numbers that contains the box of every
/// actor that the node keeps or holds in a child.
pub open spec fn oct_covering<T: Float, H: Hitable<T>, M: Material<T>>(
    node: OctModel<T, H, M>,
) -> bool
    decreases node,
{
    &&& numeric_box(node.bounds)
    &&& covers(node.bounds, oct_held(node))
    &&& forall|i: int|
        0 <= i < node.children.len() ==> (#[trigger] node.children[i] matches Some(child)
            ==> oct_covering(*child))
}

/// A fresh node over a box of numbers has its box around all it holds: nothing.
pub proof fn lemma_fresh_covering<T: Float, H: Hitable<T>, M: Material<T>>(bounds: BoxModel<T>)
    requires
        numeric_box(bounds),
    ensures
        oct_covering(fresh_node::<T, H, M>(bounds)),
{
    lemma_fresh_holds_nothing::<T, H, M>(bounds, 0);
}

/// Insertion into an octree keeps every box around the actors below it.
pub proof fn lemma_oct_inserted_covering<T: Float, H: Hitable<T>, M: Material<T>>(
    node: OctModel<T, H, M>,
    actor: Rc<Actor<T, H, M>>,
    levels: nat,
)
    requires
        oct_covering(node),
        oct_well_formed(node, levels),
        octants_numeric(node.bounds, levels),
        box_contains(node.bounds, actor.hitable.bounds_spec()),
    ensures
        oct_covering(oct_inserted(node, actor, levels)),
    decreases levels,
{
    let target = actor.hitable.bounds_spec();
    let after = oct_inserted(node, actor, levels);
    lemma_first_fit_in_range(node, target, 0);
    lemma_oct_inserted_holds(node, actor, levels);
    lemma_oct_inserted_well_formed(node, actor, levels);
    assert(covers(after.bounds, oct_held(after))) by {
        assert forall|other: Rc<Actor<T, H, M>>| #[trigger]
            oct_held(after).contains(other) implies box_contains(
            after.bounds,
            other.hitable.bounds_spec(),
        ) by {
            if other != actor {
                assert(oct_held(node).contains(other));
            }
        }
    }
    match first_fit(node, target, 0) {
        Some(index) if levels > 0 => {
            let below = child_or_fresh(node, index);
            assert(numeric_box(octant_bounds(node.bounds, index)) && octants_numeric(
                octant_bounds(node.bounds, index),
                (levels - 1) as nat,
            ));
            match node.children[index] {
                Some(child) => {
                    assert(oct_covering(*child));
                    assert(oct_well_formed(*child, (levels - 1) as nat));
                },
                None => {
                    lemma_fresh_covering::<T, H, M>(octant_bounds(node.bounds, index));
                    lemma_fresh_well_formed::<T, H, M>(
                        octant_bounds(node.bounds, index),
                        (levels - 1) as nat,
                    );
                },
            }
            lemma_oct_inserted_covering(below, actor, (levels - 1) as nat);
            assert forall|i: int| 0 <= i < after.children.len() implies (
            #[trigger] after.children[i] matches Some(child) ==> oct_covering(*child)) by {
                if i != index {
                    assert(after.children[i] == node.children[i]);
                }
            }
        },
        _ => {
            assert forall|i: int| 0 <= i < after.children.len() implies (
            #[trigger] after.children[i] matches Some(child) ==> oct_covering(*child)) by {
                assert(after.children[i] == node.children[i]);
            }
        },
    }
}

/// An octree whose boxes are around the actors below them hides nothing, if boxes
/// hide nothing.
pub proof fn lemma_oct_covering_is_sound<T: Float, H: Hitable<T>, M: Material<T>>(
    node: OctModel<T, H, M>,
    ray: RayModel<T>,
    t_min: T,
)
    requires
        oct_covering(node),
        boxes_hide_nothing(oct_held(node), ray, t_min),
    ensures
        oct_sound_boxes(node, ray, t_min),
    decreases node,
{
    let held = oct_held(node);
    assert forall|bound: T|
        #![trigger box_hit(node.bounds, ray, t_min, bound)]
        is_number(bound) && !box_hit(node.bounds, ray, t_min, bound) implies none_hit(
        held,
        ray,
        t_min,
        bound,
    ) by {
        assert forall|actor: Rc<Actor<T, H, M>>| held.contains(actor) implies (
        #[trigger] actor_hit(actor, ray, t_min, bound)).is_none() by {
            assert(box_contains(node.bounds, actor.hitable.bounds_spec()));
        }
    }
    assert forall|i: int| 0 <= i < node.children.len() implies (
    #[trigger] node.children[i] matches Some(child) ==> oct_sound_boxes(*child, ray, t_min)) by {
        if let Some(child) = node.children[i] {
            assert(boxes_hide_nothing(oct_held(*child), ray, t_min)) by {
                assert forall|actor: Rc<Actor<T, H, M>>, outer: BoxModel<T>, bound: T|
                    #![trigger box_hit(outer, ray, t_min, bound), actor_hit(actor, ray, t_min, bound)]
                    oct_held(*child).contains(actor) && numeric_box(outer) && box_contains(
                        outer,
                        actor.hitable.bounds_spec(),
                    ) && is_number(bound) && !box_hit(outer, ray, t_min, bound) implies actor_hit(
                    actor,
                    ray,
                    t_min,
                    bound,
                ).is_none() by {
                    lemma_children_held_contains(node.children, 0, actor);
                    assert(child_held(node.children, i).contains(actor));
                    assert(held.contains(actor));
                }
            }
            lemma_oct_covering_is_sound(*child, ray, t_min);
        }
    }
}

} // verus!
