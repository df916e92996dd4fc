//! The strategy of the index does not change what a scene answers.
use std::rc::Rc;
use vstd::multiset::Multiset;
use vstd::prelude::*;
use crate::actor::Actor;
use crate::boundingbox::BoxModel;
use crate::float::{is_number, Float};
use crate::hitable::Hitable;
use crate::material::Material;
use crate::ray::RayModel;
use crate::scene::{built_index, index_accepts, index_hit, index_offered, root_box, IndexModel};
use crate::tree::covering::{
    binary_covering, boxes_hide_nothing, lemma_binary_covering_is_sound,
    lemma_binary_inserted_covering, lemma_fresh_covering,
    lemma_oct_covering_is_sound, lemma_oct_inserted_covering, numeric_actors, numeric_box,
    oct_covering, octants_numeric,
};
use crate::tree::binary::{binary_held, lemma_inserted_holds};
use crate::tree::equivalence::{
    binary_responder, binary_sound_boxes, ActorResponder, faithful_actors, lemma_binary_resolves,
    lemma_linear_resolves, lemma_nearest_unique, lemma_oct_resolves, linear_responder,
    nearest_among, no_ties, oct_responder, oct_sound_boxes, resolves,
};
use crate::tree::oct::{
    lemma_fresh_holds_nothing, lemma_fresh_well_formed, lemma_oct_inserted_holds,
    lemma_oct_inserted_well_formed, oct_held, oct_well_formed, MAX_DEPTH,
};
use crate::tree::TreeType;

verus! {

/// The actors that an index holds.
pub open spec fn index_held<T: Float, H: Hitable<T>, M: Material<T>>(
    index: IndexModel<T, H, M>,
) -> Multiset<Rc<Actor<T, H, M>>> {
    match index {
        IndexModel::Linear(actors) => actors.to_multiset(),
        IndexModel::Binary(root) => binary_held(root),
        IndexModel::Oct(root) => oct_held(root),
    }
}

/// The boxes of an index hide nothing from `ray`. A flat list has no boxes.
pub open spec fn index_sound<T: Float, H: Hitable<T>, M: Material<T>>(
    index: IndexModel<T, H, M>,
    ray: RayModel<T>,
    t_min: T,
) -> bool {
    match index {
        IndexModel::Linear(_) => true,
        IndexModel::Binary(root) => binary_sound_boxes(root, ray, t_min),
        IndexModel::Oct(root) => oct_sound_boxes(root, ray, t_min),
    }
}

/// The answers of an index, as a responder.
pub open spec fn index_responder<T: Float, H: Hitable<T>, M: Material<T>>(
    index: IndexModel<T, H, M>,
    ray: RayModel<T>,
    t_min: T,
) -> ActorResponder<T, H, M> {
    |bound: T| index_hit(index, ray, t_min, bound)
}

/// While the index of the given strategy is built from the first `count` actors, it
/// refuses none of them.
pub open spec fn all_accepted<T: Float, H: Hitable<T>, M: Material<T>>(
    strategy: TreeType,
    world: BoxModel<T>,
    actors: Seq<Rc<Actor<T, H, M>>>,
    count: int,
) -> bool {
    forall|i: int|
        0 <= i < count ==> index_accepts(
            #[trigger] built_index(strategy, world, actors, i),
            actors[i],
        )
}

/// An index that accepts an actor holds, after the offer, that actor and what it
/// held before.
pub proof fn lemma_offered_holds<T: Float, H: Hitable<T>, M: Material<T>>(
    index: IndexModel<T, H, M>,
    actor: Rc<Actor<T, H, M>>,
)
    requires
        index_accepts(index, actor),
    ensures
        index_held(index_offered(index, actor)) == index_held(index).insert(actor),
{
    match index {
        IndexModel::Linear(actors) => {
            actors.to_multiset_ensures();
        },
        IndexModel::Binary(root) => {
            lemma_inserted_holds(root, actor);
        },
        IndexModel::Oct(root) => {
            lemma_oct_inserted_holds(root, actor, MAX_DEPTH as nat);
        },
    }
}

/// An index built from actors of which it refused none holds exactly those actors.
pub proof fn lemma_built_index_holds<T: Float, H: Hitable<T>, M: Material<T>>(
    strategy: TreeType,
    world: BoxModel<T>,
    actors: Seq<Rc<Actor<T, H, M>>>,
    count: int,
)
    requires
        0 <= count <= actors.len(),
        all_accepted(strategy, world, actors, count),
    ensures
        index_held(built_index(strategy, world, actors, count)) == actors.take(count).to_multiset(),
    decreases count,
{
    if count == 0 {
        assert(actors.take(0) =~= Seq::empty());
        actors.take(0).to_multiset_ensures();
        assert(actors.take(0).to_multiset() =~= Multiset::empty());
        match strategy {
            TreeType::Linear => {},
            TreeType::Binary => {},
            TreeType::Oct => {
                lemma_fresh_holds_nothing::<T, H, M>(crate::scene::root_box(world), 0);
            },
        }
    } else {
        lemma_built_index_holds(strategy, world, actors, count - 1);
        let before = built_index(strategy, world, actors, count - 1);
        assert(index_accepts(before, actors[count - 1]));
        lemma_offered_holds(before, actors[count - 1]);
        assert(actors.take(count) =~= actors.take(count - 1).push(actors[count - 1]));
        actors.take(count - 1).to_multiset_ensures();
    }
}

/// An index over faithful actors whose boxes hide nothing answers with a nearest
/// one of the answers of the actors it holds.
pub proof fn lemma_index_resolves<T: Float, H: Hitable<T>, M: Material<T>>(
    index: IndexModel<T, H, M>,
    ray: RayModel<T>,
    t_min: T,
)
    requires
        faithful_actors(index_held(index), ray, t_min),
        index_sound(index, ray, t_min),
    ensures
        resolves(index_responder(index, ray, t_min), index_held(index), ray, t_min),
{
    let g = index_responder(index, ray, t_min);
    match index {
        IndexModel::Linear(actors) => {
            lemma_linear_resolves(actors, ray, t_min);
            let f = linear_responder(actors, ray, t_min);
            assert forall|bound: T| is_number(bound) implies #[trigger] g(bound) == f(bound) by {}
            crate::tree::equivalence::lemma_resolves_agreeing(f, g, index_held(index), ray, t_min);
        },
        IndexModel::Binary(root) => {
            lemma_binary_resolves(root, ray, t_min);
            let f = binary_responder(root, ray, t_min);
            assert forall|bound: T| is_number(bound) implies #[trigger] g(bound) == f(bound) by {}
            crate::tree::equivalence::lemma_resolves_agreeing(f, g, index_held(index), ray, t_min);
        },
        IndexModel::Oct(root) => {
            lemma_oct_resolves(root, ray, t_min);
            let f = oct_responder(root, ray, t_min);
            assert forall|bound: T| is_number(bound) implies #[trigger] g(bound) == f(bound) by {}
            crate::tree::equivalence::lemma_resolves_agreeing(f, g, index_held(index), ray, t_min);
        },
    }
}

/// Index equivalence for a scene.
///
/// Built from the same actors over the same world, the indices of any two
/// strategies give the same answer to a query, provided that neither refuses an
/// actor, that the surfaces of the actors are faithful responders to the ray, that
/// the boxes of both indices hide nothing from the ray, and that no two actors are
/// hit at the same parameter.
pub proof fn lemma_strategies_agree<T: Float, H: Hitable<T>, M: Material<T>>(
    one: TreeType,
    other: TreeType,
    world: BoxModel<T>,
    actors: Seq<Rc<Actor<T, H, M>>>,
    ray: RayModel<T>,
    t_min: T,
    t_max: T,
)
    requires
        is_number(t_max),
        all_accepted(one, world, actors, actors.len() as int),
        all_accepted(other, world, actors, actors.len() as int),
        faithful_actors(actors.to_multiset(), ray, t_min),
        index_sound(built_index(one, world, actors, actors.len() as int), ray, t_min),
        index_sound(built_index(other, world, actors, actors.len() as int), ray, t_min),
        no_ties(actors.to_multiset(), ray, t_min, t_max),
    ensures
        index_hit(built_index(one, world, actors, actors.len() as int), ray, t_min, t_max)
            == index_hit(
            built_index(other, world, actors, actors.len() as int),
            ray,
            t_min,
            t_max,
        ),
{
    let count = actors.len() as int;
    let first = built_index(one, world, actors, count);
    let second = built_index(other, world, actors, count);
    assert(actors.take(count) =~= actors);
    lemma_built_index_holds(one, world, actors, count);
    lemma_built_index_holds(other, world, actors, count);
    lemma_index_resolves(first, ray, t_min);
    lemma_index_resolves(second, ray, t_min);
    let held = actors.to_multiset();
    let a = index_responder(first, ray, t_min)(t_max);
    let b = index_responder(second, ray, t_min)(t_max);
    assert(nearest_among(held, ray, t_min, t_max, a));
    assert(nearest_among(held, ray, t_min, t_max, b));
    lemma_nearest_unique(held, ray, t_min, t_max, a, b);
}

/// Every box of the index is a box of numbers around the actors below it. For an
/// octree this includes the boxes of the octants that it has not made yet.
pub open spec fn index_covering<T: Float, H: Hitable<T>, M: Material<T>>(
    index: IndexModel<T, H, M>,
) -> bool {
    match index {
        IndexModel::Linear(_) => true,
        IndexModel::Binary(root) => binary_covering(root),
        IndexModel::Oct(root) => {
            &&& oct_covering(root)
            &&& oct_well_formed(root, MAX_DEPTH as nat)
            &&& octants_numeric(root.bounds, MAX_DEPTH as nat)
        },
    }
}

/// What building an index of the given strategy relies on: for an octree the root
/// box and all its octants are boxes of numbers.
pub open spec fn sound_ground<T: Float>(strategy: TreeType, world: BoxModel<T>) -> bool {
    strategy == TreeType::Oct ==> numeric_box(root_box(world)) && octants_numeric(
        root_box(world),
        MAX_DEPTH as nat,
    )
}

/// An index built on sound ground from actors with boxes of numbers, of which it
/// refused none, has every box around the actors below it.
pub proof fn lemma_built_index_covering<T: Float, H: Hitable<T>, M: Material<T>>(
    strategy: TreeType,
    world: BoxModel<T>,
    actors: Seq<Rc<Actor<T, H, M>>>,
    count: int,
)
    requires
        0 <= count <= actors.len(),
        sound_ground(strategy, world),
        numeric_actors(actors.to_multiset()),
        all_accepted(strategy, world, actors, count),
    ensures
        index_covering(built_index(strategy, world, actors, count)),
    decreases count,
{
    if count == 0 {
        match strategy {
            TreeType::Linear => {},
            TreeType::Binary => {},
            TreeType::Oct => {
                lemma_fresh_covering::<T, H, M>(root_box(world));
                lemma_fresh_well_formed::<T, H, M>(root_box(world), MAX_DEPTH as nat);
            },
        }
    } else {
        lemma_built_index_covering(strategy, world, actors, count - 1);
        lemma_built_index_holds(strategy, world, actors, count - 1);
        let before = built_index(strategy, world, actors, count - 1);
        let actor = actors[count - 1];
        actors.to_multiset_ensures();
        assert(actors.contains(actor));
        assert(actors.to_multiset().count(actor) > 0);
        assert(actors.to_multiset().contains(actor));
        assert(index_accepts(before, actor));
        match before {
            IndexModel::Linear(_) => {},
            IndexModel::Binary(root) => {
                assert forall|other: Rc<Actor<T, H, M>>| #[trigger]
                    index_held(before).contains(other) implies numeric_box(
                    other.hitable.bounds_spec(),
                ) by {
                    let part = actors.take(count - 1);
                    part.to_multiset_ensures();
                    assert(part.to_multiset().count(other) > 0);
                    assert(part.contains(other));
                    let i = choose|i: int| 0 <= i < part.len() && part[i] == other;
                    assert(actors[i] == other);
                    assert(actors.contains(other));
                    assert(actors.to_multiset().count(other) > 0);
                    assert(actors.to_multiset().contains(other));
                }
                lemma_binary_inserted_covering(root, actor);
            },
            IndexModel::Oct(root) => {
                lemma_oct_inserted_covering(root, actor, MAX_DEPTH as nat);
                lemma_oct_inserted_well_formed(root, actor, MAX_DEPTH as nat);
            },
        }
    }
}

/// An index whose boxes are around the actors below them hides nothing, if boxes
/// hide nothing.
pub proof fn lemma_index_covering_is_sound<T: Float, H: Hitable<T>, M: Material<T>>(
    index: IndexModel<T, H, M>,
    ray: RayModel<T>,
    t_min: T,
)
    requires
        index_covering(index),
        boxes_hide_nothing(index_held(index), ray, t_min),
    ensures
        index_sound(index, ray, t_min),
{
    match index {
        IndexModel::Linear(_) => {},
        IndexModel::Binary(root) => {
            lemma_binary_covering_is_sound(root, ray, t_min);
        },
        IndexModel::Oct(root) => {
            lemma_oct_covering_is_sound(root, ray, t_min);
        },
    }
}

/// Index equivalence for a scene, on assumptions about geometry alone.
///
/// Built from the same actors over the same world, the indices of any two
/// strategies give the same answer to a query, provided that
///
/// - the boxes of the actors, and for an octree the root box and its octants, are
///   boxes of numbers, and neither index refuses an actor;
/// - the surfaces of the actors are faithful responders to the ray;
/// - boxes hide nothing from the ray;
/// - no two actors are hit at the same parameter.
pub proof fn lemma_scene_strategies_agree<T: Float, H: Hitable<T>, M: Material<T>>(
    one: TreeType,
    other: TreeType,
    world: BoxModel<T>,
    actors: Seq<Rc<Actor<T, H, M>>>,
    ray: RayModel<T>,
    t_min: T,
    t_max: T,
)
    requires
        is_number(t_max),
        sound_ground(one, world),
        sound_ground(other, world),
        numeric_actors(actors.to_multiset()),
        all_accepted(one, world, actors, actors.len() as int),
        all_accepted(other, world, actors, actors.len() as int),
        faithful_actors(actors.to_multiset(), ray, t_min),
        boxes_hide_nothing(actors.to_multiset(), ray, t_min),
        no_ties(actors.to_multiset(), ray, t_min, t_max),
    ensures
        index_hit(built_index(one, world, actors, actors.len() as int), ray, t_min, t_max)
            == index_hit(
            built_index(other, world, actors, actors.len() as int),
            ray,
            t_min,
            t_max,
        ),
{
    let count = actors.len() as int;
    assert(actors.take(count) =~= actors);
    lemma_built_index_holds(one, world, actors, count);
    lemma_built_index_holds(other, world, actors, count);
    lemma_built_index_covering(one, world, actors, count);
    lemma_built_index_covering(other, world, actors, count);
    lemma_index_covering_is_sound(built_index(one, world, actors, count), ray, t_min);
    lemma_index_covering_is_sound(built_index(other, world, actors, count), ray, t_min);
    lemma_strategies_agree(one, other, world, actors, ray, t_min, t_max);
}

} // verus!
