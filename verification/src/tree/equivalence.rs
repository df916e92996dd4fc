//! Why the three indices give the same answer.
//!
//! Each index is shown to answer a query with a nearest one of the answers that the
//! actors it holds would give by themselves. This rests on two assumptions about the
//! scene, which are geometry and not arithmetic of the index: the surfaces of
//! the actors are faithful responders, and a box that a ray misses hides no actor
//! that the ray hits. Where no two actors are hit at the same parameter, a nearest
//! answer is unique, and so indices that hold the same actors agree.
use std::rc::Rc;
use vstd::multiset::Multiset;
use vstd::prelude::*;
use crate::actor::Actor;
use crate::float::{is_number, lemma_numbers_total, Float};
use crate::hitable::primitive::sphere::{
    lemma_sphere_faithful, sphere_discriminant, sphere_far_root, sphere_near_root, Sphere,
};
use crate::hitable::transform::translation::{
    lemma_translation_faithful, untranslated_ray, Translation,
};
use crate::hitable::{faithful_surface, surface_keeps, surface_respects, Hitable};
use crate::material::Material;
use crate::ray::RayModel;
use crate::nearest::{
    bound_after, latest, all_faithful, faithful, keeps, lemma_scan_faithful, lemma_scan_nearest, lemma_scan_source, lemma_scan_step, respects, scan, scan_responder, Responder,
};
use crate::boundingbox::box_hit;
use crate::tree::binary::{binary_held, binary_hit, BinaryModel, NodeModel};
use crate::tree::oct::{child_held, children_held, children_scan, oct_held, oct_hit, OctModel};
use crate::tree::{actor_hit, actors_scan, Found};

verus! {

broadcast use vstd::seq::axiom_seq_index_decreases;

/// A responder that answers with an actor.
pub type ActorResponder<T, H, M> = Responder<T, Rc<Actor<T, H, M>>>;

/// The answers of one actor, as a responder.
pub open spec fn actor_responder<T: Float, H: Hitable<T>, M: Material<T>>(
    actor: Rc<Actor<T, H, M>>,
    ray: RayModel<T>,
    t_min: T,
) -> ActorResponder<T, H, M> {
    |bound: T| actor_hit(actor, ray, t_min, bound)
}

/// An actor with a faithful surface is a faithful responder.
pub proof fn lemma_faithful_surface_responds<T: Float, H: Hitable<T>, M: Material<T>>(
    actor: Rc<Actor<T, H, M>>,
    ray: RayModel<T>,
    t_min: T,
)
    requires
        faithful_surface(*actor.hitable, ray, t_min),
    ensures
        faithful(actor_responder(actor, ray, t_min)),
{
    let f = actor_responder(actor, ray, t_min);
    assert forall|b: T| is_number(b) implies #[trigger] respects(f, b) by {
        assert(surface_respects(*actor.hitable, ray, t_min, b));
    }
    assert forall|b: T, c: T| is_number(b) && is_number(c) implies #[trigger] keeps(f, b, c) by {
        assert(surface_keeps(*actor.hitable, ray, t_min, b, c));
    }
}

/// The responder that never has a hit.
pub open spec fn silent<T: Float, H: Hitable<T>, M: Material<T>>() -> ActorResponder<T, H, M> {
    |bound: T| None
}

/// The surface of every actor among `held` is a faithful responder to `ray`.
pub open spec fn faithful_actors<T: Float, H: Hitable<T>, M: Material<T>>(
    held: Multiset<Rc<Actor<T, H, M>>>,
    ray: RayModel<T>,
    t_min: T,
) -> bool {
    forall|actor: Rc<Actor<T, H, M>>|
        held.contains(actor) ==> faithful(#[trigger] actor_responder(actor, ray, t_min))
}

/// No actor among `held` is hit under `bound`.
pub open spec fn none_hit<T: Float, H: Hitable<T>, M: Material<T>>(
    held: Multiset<Rc<Actor<T, H, M>>>,
    ray: RayModel<T>,
    t_min: T,
    bound: T,
) -> bool {
    forall|actor: Rc<Actor<T, H, M>>|
        held.contains(actor) ==> (#[trigger] actor_hit(actor, ray, t_min, bound)).is_none()
}

/// No actor among `held` is hit under `bound` at a parameter strictly below `t`.
pub open spec fn none_nearer<T: Float, H: Hitable<T>, M: Material<T>>(
    held: Multiset<Rc<Actor<T, H, M>>>,
    ray: RayModel<T>,
    t_min: T,
    bound: T,
    t: T,
) -> bool {
    forall|actor: Rc<Actor<T, H, M>>|
        held.contains(actor) ==> (#[trigger] actor_hit(actor, ray, t_min, bound) matches Some(
            (_, hit),
        ) ==> !hit.t.lt_spec(t))
}

/// `found` is a nearest one of the answers that the actors among `held` give under
/// `bound`: it is the answer of one of them, and none of them is hit strictly nearer.
/// It is no answer only if none of them is hit.
pub open spec fn nearest_among<T: Float, H: Hitable<T>, M: Material<T>>(
    held: Multiset<Rc<Actor<T, H, M>>>,
    ray: RayModel<T>,
    t_min: T,
    bound: T,
    found: Found<T, H, M>,
) -> bool {
    match found {
        Some((actor, hit)) => {
            &&& held.contains(actor)
            &&& actor_hit(actor, ray, t_min, bound) == found
            &&& none_nearer(held, ray, t_min, bound, hit.t)
        },
        None => none_hit(held, ray, t_min, bound),
    }
}

/// Two actors among `held` that are hit under `bound` at parameters of which
/// neither is strictly below the other are the same actor.
pub open spec fn no_ties<T: Float, H: Hitable<T>, M: Material<T>>(
    held: Multiset<Rc<Actor<T, H, M>>>,
    ray: RayModel<T>,
    t_min: T,
    bound: T,
) -> bool {
    forall|one: Rc<Actor<T, H, M>>, other: Rc<Actor<T, H, M>>|
        #![trigger actor_hit(one, ray, t_min, bound), actor_hit(other, ray, t_min, bound)]
        held.contains(one) && held.contains(other) ==> (actor_hit(one, ray, t_min, bound) matches Some(
            (_, first),
        ) ==> (actor_hit(other, ray, t_min, bound) matches Some((_, second)) ==> first.t.lt_spec(
            second.t,
        ) || second.t.lt_spec(first.t) || one == other))
}

/// The responder is faithful and answers, under every bound that is a number, with a
/// nearest one of the answers of the actors among `held`.
pub open spec fn resolves<T: Float, H: Hitable<T>, M: Material<T>>(
    f: ActorResponder<T, H, M>,
    held: Multiset<Rc<Actor<T, H, M>>>,
    ray: RayModel<T>,
    t_min: T,
) -> bool {
    &&& faithful(f)
    &&& forall|bound: T| is_number(bound) ==> nearest_among(held, ray, t_min, bound, #[trigger] f(bound))
}

/// Where no two actors tie, a nearest answer is unique.
pub proof fn lemma_nearest_unique<T: Float, H: Hitable<T>, M: Material<T>>(
    held: Multiset<Rc<Actor<T, H, M>>>,
    ray: RayModel<T>,
    t_min: T,
    bound: T,
    one: Found<T, H, M>,
    other: Found<T, H, M>,
)
    requires
        nearest_among(held, ray, t_min, bound, one),
        nearest_among(held, ray, t_min, bound, other),
        no_ties(held, ray, t_min, bound),
    ensures
        one == other,
{
    match (one, other) {
        (Some((a, _)), Some((b, _))) => {
            assert(actor_hit(a, ray, t_min, bound) == one);
            assert(actor_hit(b, ray, t_min, bound) == other);
        },
        (Some((a, _)), None) => {
            assert(actor_hit(a, ray, t_min, bound).is_none());
        },
        (None, Some((b, _))) => {
            assert(actor_hit(b, ray, t_min, bound).is_none());
        },
        (None, None) => {},
    }
}

/// A responder that agrees, under every bound that is a number, with a responder
/// that resolves the actors among `held` resolves them too.
pub proof fn lemma_resolves_agreeing<T: Float, H: Hitable<T>, M: Material<T>>(
    f: ActorResponder<T, H, M>,
    g: ActorResponder<T, H, M>,
    held: Multiset<Rc<Actor<T, H, M>>>,
    ray: RayModel<T>,
    t_min: T,
)
    requires
        resolves(f, held, ray, t_min),
        forall|bound: T| is_number(bound) ==> #[trigger] g(bound) == f(bound),
    ensures
        resolves(g, held, ray, t_min),
{
    assert forall|b: T| is_number(b) implies #[trigger] respects(g, b) by {
        assert(respects(f, b));
        assert(g(b) == f(b));
    }
    assert forall|b: T, c: T| is_number(b) && is_number(c) implies #[trigger] keeps(g, b, c) by {
        assert(keeps(f, b, c));
        assert(g(b) == f(b));
        assert(g(c) == f(c));
    }
    assert forall|bound: T| is_number(bound) implies nearest_among(
        held,
        ray,
        t_min,
        bound,
        #[trigger] g(bound),
    ) by {
        assert(g(bound) == f(bound));
    }
}

/// The silent responder resolves the actors of an index that holds none.
pub proof fn lemma_silent_resolves<T: Float, H: Hitable<T>, M: Material<T>>(
    ray: RayModel<T>,
    t_min: T,
)
    ensures
        resolves(silent::<T, H, M>(), Multiset::empty(), ray, t_min),
{
    let f = silent::<T, H, M>();
    assert forall|b: T| is_number(b) implies #[trigger] respects(f, b) by {}
    assert forall|b: T, c: T| is_number(b) && is_number(c) implies #[trigger] keeps(f, b, c) by {}
}

/// A faithful actor resolves itself.
pub proof fn lemma_actor_resolves<T: Float, H: Hitable<T>, M: Material<T>>(
    actor: Rc<Actor<T, H, M>>,
    ray: RayModel<T>,
    t_min: T,
)
    requires
        faithful(actor_responder(actor, ray, t_min)),
    ensures
        resolves(actor_responder(actor, ray, t_min), Multiset::empty().insert(actor), ray, t_min),
{
    let f = actor_responder(actor, ray, t_min);
    let held = Multiset::empty().insert(actor);
    assert forall|bound: T| is_number(bound) implies nearest_among(
        held,
        ray,
        t_min,
        bound,
        #[trigger] f(bound),
    ) by {
        assert(respects(f, bound));
        assert forall|other: Rc<Actor<T, H, M>>| held.contains(other) implies other == actor by {}
        if let Some((_, hit)) = f(bound) {
            T::order_laws(hit.t, hit.t, hit.t);
        }
    }
}

/// A scan over responders each of which resolves its own actors resolves all of
/// their actors together.
pub proof fn lemma_scan_resolves<T: Float, H: Hitable<T>, M: Material<T>>(
    responders: Seq<ActorResponder<T, H, M>>,
    parts: Seq<Multiset<Rc<Actor<T, H, M>>>>,
    held: Multiset<Rc<Actor<T, H, M>>>,
    ray: RayModel<T>,
    t_min: T,
)
    requires
        parts.len() == responders.len(),
        forall|i: int|
            0 <= i < responders.len() ==> resolves(#[trigger] responders[i], parts[i], ray, t_min),
        forall|actor: Rc<Actor<T, H, M>>|
            #[trigger] held.contains(actor) <==> exists|i: int|
                0 <= i < parts.len() && (#[trigger] parts[i]).contains(actor),
    ensures
        resolves(scan_responder(responders, 0), held, ray, t_min),
{
    let whole = scan_responder(responders, 0);
    assert(all_faithful(responders)) by {
        assert forall|i: int| 0 <= i < responders.len() implies faithful(
            #[trigger] responders[i],
        ) by {
            assert(resolves(responders[i], parts[i], ray, t_min));
        }
    }
    lemma_scan_faithful(responders, 0);
    assert forall|bound: T| is_number(bound) implies nearest_among(
        held,
        ray,
        t_min,
        bound,
        #[trigger] whole(bound),
    ) by {
        match whole(bound) {
            Some((actor, hit)) => {
                let k = lemma_scan_source(responders, 0, bound);
                assert(resolves(responders[k], parts[k], ray, t_min));
                assert(nearest_among(parts[k], ray, t_min, bound, responders[k](bound)));
                assert(parts[k].contains(actor));
                assert(respects(responders[k], bound));
                assert forall|other: Rc<Actor<T, H, M>>| held.contains(other) implies (
                #[trigger] actor_hit(other, ray, t_min, bound) matches Some((_, h))
                    ==> !h.t.lt_spec(hit.t)) by {
                    if let Some((_, h)) = actor_hit(other, ray, t_min, bound) {
                        let j = choose|j: int| 0 <= j < parts.len() && (#[trigger] parts[j]).contains(other);
                        assert(resolves(responders[j], parts[j], ray, t_min));
                        assert(nearest_among(parts[j], ray, t_min, bound, responders[j](bound)));
                        assert(respects(responders[j], bound));
                        // the part of `other` has a hit that is no farther than that
                        // of `other`, and the scan's hit is no farther than that
                        match responders[j](bound) {
                            Some((_, part_hit)) => {
                                assert(none_nearer(parts[j], ray, t_min, bound, part_hit.t));
                                lemma_scan_nearest(responders, 0, bound, j);
                                if h.t.lt_spec(hit.t) {
                                    lemma_numbers_total(part_hit.t, hit.t);
                                    lemma_numbers_total(hit.t, part_hit.t);
                                    T::order_laws(h.t, hit.t, part_hit.t);
                                }
                            },
                            None => {
                                assert(none_hit(parts[j], ray, t_min, bound));
                            },
                        }
                    }
                }
            },
            None => {
                assert forall|other: Rc<Actor<T, H, M>>| held.contains(other) implies (
                #[trigger] actor_hit(other, ray, t_min, bound)).is_none() by {
                    let j = choose|j: int| 0 <= j < parts.len() && (#[trigger] parts[j]).contains(other);
                    assert(resolves(responders[j], parts[j], ray, t_min));
                    assert(nearest_among(parts[j], ray, t_min, bound, responders[j](bound)));
                    if responders[j](bound).is_some() {
                        lemma_scan_nearest(responders, 0, bound, j);
                    } else {
                        assert(none_hit(parts[j], ray, t_min, bound));
                    }
                }
            },
        }
    }
}

/// The responders of a list of actors, in the order of the list.
pub open spec fn actor_responders<T: Float, H: Hitable<T>, M: Material<T>>(
    actors: Seq<Rc<Actor<T, H, M>>>,
    ray: RayModel<T>,
    t_min: T,
) -> Seq<ActorResponder<T, H, M>> {
    Seq::new(actors.len(), |i: int| actor_responder(actors[i], ray, t_min))
}

/// The answers of a flat list, as a responder.
pub open spec fn linear_responder<T: Float, H: Hitable<T>, M: Material<T>>(
    actors: Seq<Rc<Actor<T, H, M>>>,
    ray: RayModel<T>,
    t_min: T,
) -> ActorResponder<T, H, M> {
    |bound: T| actors_scan(actors, 0, ray, t_min, bound, None)
}

/// The scan over a list of actors is the scan over their responders.
pub proof fn lemma_actors_scan_is_scan<T: Float, H: Hitable<T>, M: Material<T>>(
    actors: Seq<Rc<Actor<T, H, M>>>,
    start: int,
    ray: RayModel<T>,
    t_min: T,
    bound: T,
    best: Found<T, H, M>,
)
    ensures
        actors_scan(actors, start, ray, t_min, bound, best) == scan(
            actor_responders(actors, ray, t_min),
            start,
            bound,
            best,
        ),
    decreases actors.len() - start,
{
    if 0 <= start < actors.len() {
        let found = actor_hit(actors[start], ray, t_min, bound);
        assert(actor_responders(actors, ray, t_min)[start](bound) == found);
        lemma_actors_scan_is_scan(
            actors,
            start + 1,
            ray,
            t_min,
            bound_after(found, bound),
            latest(best, found),
        );
    }
}

/// A flat list of faithful actors answers with a nearest one of their answers.
pub proof fn lemma_linear_resolves<T: Float, H: Hitable<T>, M: Material<T>>(
    actors: Seq<Rc<Actor<T, H, M>>>,
    ray: RayModel<T>,
    t_min: T,
)
    requires
        faithful_actors(actors.to_multiset(), ray, t_min),
    ensures
        resolves(linear_responder(actors, ray, t_min), actors.to_multiset(), ray, t_min),
{
    let responders = actor_responders(actors, ray, t_min);
    let parts = Seq::new(actors.len(), |i: int| Multiset::empty().insert(actors[i]));
    let held = actors.to_multiset();
    actors.to_multiset_ensures();
    assert forall|i: int| 0 <= i < responders.len() implies resolves(
        #[trigger] responders[i],
        parts[i],
        ray,
        t_min,
    ) by {
        assert(actors.contains(actors[i]));
        assert(held.contains(actors[i]));
        lemma_actor_resolves(actors[i], ray, t_min);
    }
    assert forall|actor: Rc<Actor<T, H, M>>| #[trigger] held.contains(actor) <==> exists|i: int|
        0 <= i < parts.len() && (#[trigger] parts[i]).contains(actor) by {
        if held.contains(actor) {
            assert(actors.contains(actor));
            let i = choose|i: int| 0 <= i < actors.len() && actors[i] == actor;
            assert(parts[i].contains(actor));
        }
        if exists|i: int| 0 <= i < parts.len() && (#[trigger] parts[i]).contains(actor) {
            let i = choose|i: int| 0 <= i < parts.len() && (#[trigger] parts[i]).contains(actor);
            assert(actors[i] == actor);
            assert(actors.contains(actor));
        }
    }
    lemma_scan_resolves(responders, parts, held, ray, t_min);
    let f = scan_responder(responders, 0);
    let g = linear_responder(actors, ray, t_min);
    assert forall|bound: T| is_number(bound) implies #[trigger] g(bound) == f(bound) by {
        lemma_actors_scan_is_scan(actors, 0, ray, t_min, bound, None);
    }
    lemma_resolves_agreeing(f, g, held, ray, t_min);
}

/// The answers of a binary tree, as a responder.
pub open spec fn binary_responder<T: Float, H: Hitable<T>, M: Material<T>>(
    tree: BinaryModel<T, H, M>,
    ray: RayModel<T>,
    t_min: T,
) -> ActorResponder<T, H, M> {
    |bound: T| binary_hit(tree, ray, t_min, bound)
}

/// The boxes of a binary tree hide nothing from `ray`: where the ray misses the box
/// of a node, it hits no actor below that node.
pub open spec fn binary_sound_boxes<T: Float, H: Hitable<T>, M: Material<T>>(
    tree: BinaryModel<T, H, M>,
    ray: RayModel<T>,
    t_min: T,
) -> bool
    decreases tree,
{
    &&& forall|bound: T|
        #![trigger box_hit(tree.bounds, ray, t_min, bound)]
        is_number(bound) && !box_hit(tree.bounds, ray, t_min, bound) ==> none_hit(
            binary_held(tree),
            ray,
            t_min,
            bound,
        )
    &&& match tree.node {
        NodeModel::Internal(left, right) => binary_sound_boxes(*left, ray, t_min)
            && binary_sound_boxes(*right, ray, t_min),
        _ => true,
    }
}

/// A responder that is silent wherever no actor among `held` is hit, and agrees
/// elsewhere with a responder that resolves `held`, resolves `held`.
pub proof fn lemma_guarded_resolves<T: Float, H: Hitable<T>, M: Material<T>>(
    f: ActorResponder<T, H, M>,
    g: ActorResponder<T, H, M>,
    held: Multiset<Rc<Actor<T, H, M>>>,
    ray: RayModel<T>,
    t_min: T,
)
    requires
        resolves(f, held, ray, t_min),
        forall|bound: T|
            is_number(bound) ==> #[trigger] g(bound) == f(bound) || (g(bound).is_none() && none_hit(
                held,
                ray,
                t_min,
                bound,
            )),
    ensures
        resolves(g, held, ray, t_min),
{
    assert forall|bound: T| is_number(bound) implies #[trigger] g(bound) == f(bound) by {
        if g(bound) != f(bound) {
            assert(nearest_among(held, ray, t_min, bound, f(bound)));
            if let Some((actor, _)) = f(bound) {
                assert(actor_hit(actor, ray, t_min, bound).is_none());
            }
        }
    }
    lemma_resolves_agreeing(f, g, held, ray, t_min);
}

/// A binary tree over faithful actors whose boxes hide nothing answers with a
/// nearest one of the answers of the actors it holds.
pub proof fn lemma_binary_resolves<T: Float, H: Hitable<T>, M: Material<T>>(
    tree: BinaryModel<T, H, M>,
    ray: RayModel<T>,
    t_min: T,
)
    requires
        faithful_actors(binary_held(tree), ray, t_min),
        binary_sound_boxes(tree, ray, t_min),
    ensures
        resolves(binary_responder(tree, ray, t_min), binary_held(tree), ray, t_min),
    decreases tree,
{
    let g = binary_responder(tree, ray, t_min);
    let held = binary_held(tree);
    match tree.node {
        NodeModel::Empty => {
            lemma_silent_resolves::<T, H, M>(ray, t_min);
            assert forall|bound: T| is_number(bound) implies #[trigger] g(bound) == silent::<
                T,
                H,
                M,
            >()(bound) by {}
            lemma_resolves_agreeing(silent::<T, H, M>(), g, held, ray, t_min);
        },
        NodeModel::Leaf(actor) => {
            let f = actor_responder(actor, ray, t_min);
            assert(held.contains(actor));
            lemma_actor_resolves(actor, ray, t_min);
            assert forall|bound: T| is_number(bound) implies #[trigger] g(bound) == f(bound) || (g(
                bound,
            ).is_none() && none_hit(held, ray, t_min, bound)) by {
                if !box_hit(tree.bounds, ray, t_min, bound) {
                    assert(none_hit(held, ray, t_min, bound));
                }
            }
            lemma_guarded_resolves(f, g, held, ray, t_min);
        },
        NodeModel::Internal(left, right) => {
            let first = binary_responder(*left, ray, t_min);
            let second = binary_responder(*right, ray, t_min);
            let responders = seq![first, second];
            let parts = seq![binary_held(*left), binary_held(*right)];
            assert forall|actor: Rc<Actor<T, H, M>>| binary_held(*left).contains(actor) implies faithful(
                #[trigger] actor_responder(actor, ray, t_min),
            ) by {
                assert(held.contains(actor));
            }
            assert forall|actor: Rc<Actor<T, H, M>>| binary_held(*right).contains(actor) implies faithful(
                #[trigger] actor_responder(actor, ray, t_min),
            ) by {
                assert(held.contains(actor));
            }
            lemma_binary_resolves(*left, ray, t_min);
            lemma_binary_resolves(*right, ray, t_min);
            assert forall|i: int| 0 <= i < responders.len() implies resolves(
                #[trigger] responders[i],
                parts[i],
                ray,
                t_min,
            ) by {}
            assert forall|actor: Rc<Actor<T, H, M>>| #[trigger] held.contains(actor) <==> exists|
                i: int,
            |
                0 <= i < parts.len() && (#[trigger] parts[i]).contains(actor) by {
                if held.contains(actor) {
                    if binary_held(*left).contains(actor) {
                        assert(parts[0].contains(actor));
                    } else {
                        assert(parts[1].contains(actor));
                    }
                }
            }
            lemma_scan_resolves(responders, parts, held, ray, t_min);
            let f = scan_responder(responders, 0);
            assert forall|bound: T| is_number(bound) implies #[trigger] g(bound) == f(bound) || (g(
                bound,
            ).is_none() && none_hit(held, ray, t_min, bound)) by {
                if box_hit(tree.bounds, ray, t_min, bound) {
                    let one = first(bound);
                    lemma_scan_step(responders, 0, bound);
                    lemma_scan_step(responders, 1, bound_after(one, bound));
                    assert(responders[0](bound) == one);
                    assert(responders[1] == second);
                } else {
                    assert(none_hit(held, ray, t_min, bound));
                }
            }
            lemma_guarded_resolves(f, g, held, ray, t_min);
        },
    }
}

/// The answers of an octree, as a responder.
pub open spec fn oct_responder<T: Float, H: Hitable<T>, M: Material<T>>(
    node: OctModel<T, H, M>,
    ray: RayModel<T>,
    t_min: T,
) -> ActorResponder<T, H, M> {
    |bound: T| oct_hit(node, ray, t_min, bound)
}

/// The responders of the children of a node, in octant order. A child that is not
/// there is silent.
pub open spec fn child_responders<T: Float, H: Hitable<T>, M: Material<T>>(
    node: OctModel<T, H, M>,
    ray: RayModel<T>,
    t_min: T,
) -> Seq<ActorResponder<T, H, M>> {
    Seq::new(
        node.children.len(),
        |i: int|
            match node.children[i] {
                Some(child) => oct_responder(*child, ray, t_min),
                None => silent(),
            },
    )
}

/// The boxes of an octree hide nothing from `ray`: where the ray misses the box of
/// a node, it hits no actor that the node keeps or holds in a child.
pub open spec fn oct_sound_boxes<T: Float, H: Hitable<T>, M: Material<T>>(
    node: OctModel<T, H, M>,
    ray: RayModel<T>,
    t_min: T,
) -> bool
    decreases node,
{
    &&& forall|bound: T|
        #![trigger box_hit(node.bounds, ray, t_min, bound)]
        is_number(bound) && !box_hit(node.bounds, ray, t_min, bound) ==> none_hit(
            oct_held(node),
            ray,
            t_min,
            bound,
        )
    &&& forall|i: int|
        0 <= i < node.children.len() ==> (#[trigger] node.children[i] matches Some(child)
            ==> oct_sound_boxes(*child, ray, t_min))
}

/// The part of a query that asks the children is the scan over their responders.
pub proof fn lemma_children_scan_is_scan<T: Float, H: Hitable<T>, M: Material<T>>(
    node: OctModel<T, H, M>,
    start: int,
    ray: RayModel<T>,
    t_min: T,
    bound: T,
    best: Found<T, H, M>,
)
    ensures
        children_scan(node, start, ray, t_min, bound, best) == scan(
            child_responders(node, ray, t_min),
            start,
            bound,
            best,
        ),
    decreases node.children.len() - start,
{
    if 0 <= start < node.children.len() {
        let responders = child_responders(node, ray, t_min);
        match node.children[start] {
            Some(child) => {
                let found = oct_hit(*child, ray, t_min, bound);
                assert(responders[start](bound) == found);
                lemma_children_scan_is_scan(
                    node,
                    start + 1,
                    ray,
                    t_min,
                    bound_after(found, bound),
                    latest(best, found),
                );
            },
            None => {
                assert(responders[start](bound).is_none());
                lemma_children_scan_is_scan(node, start + 1, ray, t_min, bound, best);
            },
        }
    }
}

/// A scan over two lists behind each other is the scan over the second list, taken
/// up where the scan over the first list left off.
pub proof fn lemma_scan_concatenation<T: Float, H: Hitable<T>, M: Material<T>>(
    first: Seq<ActorResponder<T, H, M>>,
    second: Seq<ActorResponder<T, H, M>>,
    start: int,
    bound: T,
    best: Found<T, H, M>,
)
    requires
        0 <= start <= first.len(),
    ensures
        scan(first + second, start, bound_after(best, bound), best) == scan(
            second,
            0,
            bound_after(scan(first, start, bound_after(best, bound), best), bound),
            scan(first, start, bound_after(best, bound), best),
        ),
    decreases first.len() - start,
{
    let both = first + second;
    let current = bound_after(best, bound);
    if start < first.len() {
        let found = first[start](current);
        assert(both[start] == first[start]);
        assert(bound_after(found, current) == bound_after(latest(best, found), bound));
        lemma_scan_concatenation(first, second, start + 1, bound, latest(best, found));
    } else {
        lemma_scan_shifted(first, second, 0, current, best);
    }
}

/// Behind the first list, the scan over two lists is the scan over the second.
pub proof fn lemma_scan_shifted<T: Float, H: Hitable<T>, M: Material<T>>(
    first: Seq<ActorResponder<T, H, M>>,
    second: Seq<ActorResponder<T, H, M>>,
    start: int,
    bound: T,
    best: Found<T, H, M>,
)
    requires
        0 <= start,
    ensures
        scan(first + second, first.len() + start, bound, best) == scan(second, start, bound, best),
    decreases second.len() - start,
{
    let both = first + second;
    if start < second.len() {
        assert(both[first.len() + start] == second[start]);
        let found = second[start](bound);
        lemma_scan_shifted(first, second, start + 1, bound_after(found, bound), latest(best, found));
    }
}

/// An actor is held by the children from `start` on exactly if one of them holds it.
pub proof fn lemma_children_held_contains<T: Float, H: Hitable<T>, M: Material<T>>(
    children: Seq<Option<Box<OctModel<T, H, M>>>>,
    start: int,
    actor: Rc<Actor<T, H, M>>,
)
    requires
        0 <= start,
    ensures
        children_held(children, start).contains(actor) <==> exists|i: int|
            start <= i < children.len() && (#[trigger] child_held(children, i)).contains(actor),
    decreases children.len() - start,
{
    if start < children.len() {
        lemma_children_held_contains(children, start + 1, actor);
        if children_held(children, start).contains(actor) {
            if child_held(children, start).contains(actor) {
            } else {
                assert(children_held(children, start + 1).contains(actor));
                let i = choose|i: int|
                    start + 1 <= i < children.len() && (#[trigger] child_held(children, i)).contains(
                        actor,
                    );
                assert(start <= i < children.len() && child_held(children, i).contains(actor));
            }
        }
        if exists|i: int|
            start <= i < children.len() && (#[trigger] child_held(children, i)).contains(actor) {
            let i = choose|i: int|
                start <= i < children.len() && (#[trigger] child_held(children, i)).contains(actor);
            if i > start {
                assert(start + 1 <= i < children.len() && child_held(children, i).contains(actor));
                assert(children_held(children, start + 1).contains(actor));
            }
        }
    }
}

/// An octree over faithful actors whose boxes hide nothing answers with a nearest
/// one of the answers of the actors it holds.
pub proof fn lemma_oct_resolves<T: Float, H: Hitable<T>, M: Material<T>>(
    node: OctModel<T, H, M>,
    ray: RayModel<T>,
    t_min: T,
)
    requires
        faithful_actors(oct_held(node), ray, t_min),
        oct_sound_boxes(node, ray, t_min),
    ensures
        resolves(oct_responder(node, ray, t_min), oct_held(node), ray, t_min),
    decreases node,
{
    let g = oct_responder(node, ray, t_min);
    let held = oct_held(node);
    let own = actor_responders(node.actors, ray, t_min);
    let below = child_responders(node, ray, t_min);
    let responders = own + below;
    let own_parts = Seq::new(node.actors.len(), |i: int| Multiset::empty().insert(node.actors[i]));
    let below_parts = Seq::new(node.children.len(), |i: int| child_held(node.children, i));
    let parts = own_parts + below_parts;
    node.actors.to_multiset_ensures();
    assert forall|actor: Rc<Actor<T, H, M>>| #[trigger] held.contains(actor) <==> exists|i: int|
        0 <= i < parts.len() && (#[trigger] parts[i]).contains(actor) by {
        lemma_children_held_contains(node.children, 0, actor);
        if held.contains(actor) {
            if node.actors.to_multiset().contains(actor) {
                assert(node.actors.contains(actor));
                let i = choose|i: int| 0 <= i < node.actors.len() && node.actors[i] == actor;
                assert(parts[i] == own_parts[i]);
                assert(parts[i].contains(actor));
            } else {
                assert(children_held(node.children, 0).contains(actor));
                let i = choose|i: int|
                    0 <= i < node.children.len() && (#[trigger] child_held(node.children, i)).contains(
                        actor,
                    );
                assert(parts[node.actors.len() + i] == below_parts[i]);
                assert(parts[node.actors.len() + i].contains(actor));
            }
        }
        if exists|i: int| 0 <= i < parts.len() && (#[trigger] parts[i]).contains(actor) {
            let i = choose|i: int| 0 <= i < parts.len() && (#[trigger] parts[i]).contains(actor);
            if i < node.actors.len() {
                assert(parts[i] == own_parts[i]);
                assert(node.actors[i] == actor);
                assert(node.actors.contains(actor));
            } else {
                let j = i - node.actors.len();
                assert(parts[i] == below_parts[j]);
                assert(child_held(node.children, j).contains(actor));
            }
        }
    }
    assert forall|i: int| 0 <= i < responders.len() implies resolves(
        #[trigger] responders[i],
        parts[i],
        ray,
        t_min,
    ) by {
        if i < node.actors.len() {
            assert(responders[i] == own[i]);
            assert(parts[i] == own_parts[i]);
            assert(parts[i].contains(node.actors[i]));
            assert(held.contains(node.actors[i]));
            lemma_actor_resolves(node.actors[i], ray, t_min);
        } else {
            let j = i - node.actors.len();
            assert(responders[i] == below[j]);
            assert(parts[i] == below_parts[j]);
            match node.children[j] {
                Some(child) => {
                    assert forall|actor: Rc<Actor<T, H, M>>| oct_held(*child).contains(
                        actor,
                    ) implies faithful(#[trigger] actor_responder(actor, ray, t_min)) by {
                        assert(parts[i].contains(actor));
                        assert(held.contains(actor));
                    }
                    lemma_oct_resolves(*child, ray, t_min);
                },
                None => {
                    lemma_silent_resolves::<T, H, M>(ray, t_min);
                },
            }
        }
    }
    lemma_scan_resolves(responders, parts, held, ray, t_min);
    let f = scan_responder(responders, 0);
    assert forall|bound: T| is_number(bound) implies #[trigger] g(bound) == f(bound) || (g(
        bound,
    ).is_none() && none_hit(held, ray, t_min, bound)) by {
        if box_hit(node.bounds, ray, t_min, bound) {
            let kept = actors_scan(node.actors, 0, ray, t_min, bound, None);
            lemma_actors_scan_is_scan(node.actors, 0, ray, t_min, bound, None);
            lemma_children_scan_is_scan(node, 0, ray, t_min, bound_after(kept, bound), kept);
            lemma_scan_concatenation(own, below, 0, bound, None);
        } else {
            assert(none_hit(held, ray, t_min, bound));
        }
    }
    lemma_guarded_resolves(f, g, held, ray, t_min);
}

/// Index equivalence.
///
/// A flat list, a binary tree and an octree that hold the same actors give the same
/// answer to a query, provided that the surfaces of the actors are faithful
/// responders to the ray, that the boxes of the two trees hide nothing from the
/// ray, and that no two actors are hit at the same parameter.
pub proof fn lemma_indices_agree<T: Float, H: Hitable<T>, M: Material<T>>(
    actors: Seq<Rc<Actor<T, H, M>>>,
    binary: BinaryModel<T, H, M>,
    oct: OctModel<T, H, M>,
    ray: RayModel<T>,
    t_min: T,
    t_max: T,
)
    requires
        is_number(t_max),
        binary_held(binary) == actors.to_multiset(),
        oct_held(oct) == actors.to_multiset(),
        faithful_actors(actors.to_multiset(), ray, t_min),
        binary_sound_boxes(binary, ray, t_min),
        oct_sound_boxes(oct, ray, t_min),
        no_ties(actors.to_multiset(), ray, t_min, t_max),
    ensures
        binary_hit(binary, ray, t_min, t_max) == actors_scan(actors, 0, ray, t_min, t_max, None),
        oct_hit(oct, ray, t_min, t_max) == actors_scan(actors, 0, ray, t_min, t_max, None),
{
    let held = actors.to_multiset();
    lemma_linear_resolves(actors, ray, t_min);
    lemma_binary_resolves(binary, ray, t_min);
    lemma_oct_resolves(oct, ray, t_min);
    let by_list = linear_responder(actors, ray, t_min)(t_max);
    let by_binary = binary_responder(binary, ray, t_min)(t_max);
    let by_oct = oct_responder(oct, ray, t_min)(t_max);
    assert(nearest_among(held, ray, t_min, t_max, by_list));
    assert(nearest_among(held, ray, t_min, t_max, by_binary));
    assert(nearest_among(held, ray, t_min, t_max, by_oct));
    lemma_nearest_unique(held, ray, t_min, t_max, by_binary, by_list);
    lemma_nearest_unique(held, ray, t_min, t_max, by_oct, by_list);
}

/// The ray, moved into the frame of a translated sphere, either does not meet the
/// sphere or meets it at two roots that are numbers, the smaller not above the
/// larger.
pub open spec fn roots_in_order<T: Float>(
    surface: Translation<T, Sphere<T>>,
    ray: RayModel<T>,
) -> bool {
    let local = untranslated_ray(ray, surface.offset());
    let radius = surface.inner().radius();
    sphere_discriminant(local, radius).le_spec(T::zero_spec()) || {
        &&& is_number(sphere_near_root(local, radius))
        &&& is_number(sphere_far_root(local, radius))
        &&& sphere_near_root(local, radius).le_spec(sphere_far_root(local, radius))
    }
}

/// Actors that are translated spheres are faithful responders to every ray whose
/// roots on each of them are in order.
pub proof fn lemma_sphere_actors_faithful<T: Float, M: Material<T>>(
    held: Multiset<Rc<Actor<T, Translation<T, Sphere<T>>, M>>>,
    ray: RayModel<T>,
    t_min: T,
)
    requires
        forall|actor: Rc<Actor<T, Translation<T, Sphere<T>>, M>>|
            held.contains(actor) ==> #[trigger] roots_in_order(*actor.hitable, ray),
    ensures
        faithful_actors(held, ray, t_min),
{
    assert forall|actor: Rc<Actor<T, Translation<T, Sphere<T>>, M>>|
        held.contains(actor) implies faithful(#[trigger] actor_responder(actor, ray, t_min)) by {
        let surface = *actor.hitable;
        assert(roots_in_order(surface, ray));
        lemma_sphere_faithful(
            surface.inner(),
            untranslated_ray(ray, surface.offset()),
            t_min,
        );
        lemma_translation_faithful(surface, ray, t_min);
        lemma_faithful_surface_responds(actor, ray, t_min);
    }
}

} // verus!
