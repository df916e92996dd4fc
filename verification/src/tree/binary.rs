//! The binary bounding-volume tree, grown greedily one actor at a time.
use std::rc::Rc;
use vstd::multiset::Multiset;
use vstd::prelude::*;
use crate::actor::Actor;
use crate::boundingbox::{
    box_contains, box_hit, grown, lemma_contains_reflexive, volume, BoundingBox, BoxModel,
};
use crate::float::Float;
use crate::hit::Hit;
use crate::hitable::primitive::group::empty_bounds;
use crate::hitable::Hitable;
use crate::material::Material;
use crate::ray::{Ray, RayModel};
use crate::nearest::{bound_after, latest};
use crate::tree::covering::{
    binary_covering, binary_tight, lemma_binary_inserted_covering, lemma_binary_inserted_tight,
    numeric_actors, numeric_box,
};
use crate::tree::{actor_hit, share, Found, Tree};
use crate::vector::Vec3;

verus! {

/// What a node of the tree holds. A node is empty, or a leaf with one actor, or an
/// internal node with two children; nothing else can be written down.
pub enum NodeModel<T: Float, H: Hitable<T>, M: Material<T>> {
    Empty,
    Leaf(Rc<Actor<T, H, M>>),
    Internal(Box<BinaryModel<T, H, M>>, Box<BinaryModel<T, H, M>>),
}

/// The mathematical content of a tree: the box of its root and what the root holds.
pub struct BinaryModel<T: Float, H: Hitable<T>, M: Material<T>> {
    pub bounds: BoxModel<T>,
    pub node: NodeModel<T, H, M>,
}

/// The freshly allocated node: empty. It bounds nothing; the box at the origin
/// stands in until the first actor brings its own.
pub open spec fn empty_tree<T: Float, H: Hitable<T>, M: Material<T>>() -> BinaryModel<T, H, M> {
    BinaryModel { bounds: empty_bounds(), node: NodeModel::Empty }
}

/// The number of levels of a tree: none for an empty node, one for a leaf.
pub open spec fn depth<T: Float, H: Hitable<T>, M: Material<T>>(tree: BinaryModel<T, H, M>) -> nat
    decreases tree,
{
    match tree.node {
        NodeModel::Empty => 0,
        NodeModel::Leaf(_) => 1,
        NodeModel::Internal(left, right) => if depth(*left) < depth(*right) {
            depth(*right) + 1
        } else {
            depth(*left) + 1
        },
    }
}

/// The box of `tree` after an actor with the box `target` has been inserted below
/// it: the box of the actor for an empty node, else the box of the node grown over
/// the box of the actor. A node's box is the union of the boxes below it.
pub open spec fn bounds_with<T: Float, H: Hitable<T>, M: Material<T>>(
    tree: BinaryModel<T, H, M>,
    target: BoxModel<T>,
) -> BoxModel<T> {
    match tree.node {
        NodeModel::Empty => target,
        _ => grown(tree.bounds, target),
    }
}

/// The volume that the box of `tree` would have if it grew to cover `target`.
pub open spec fn volume_with<T: Float, H: Hitable<T>, M: Material<T>>(
    tree: BinaryModel<T, H, M>,
    target: BoxModel<T>,
) -> T {
    volume(grown(tree.bounds, target))
}

/// The tree after `actor` has been inserted.
///
/// Every node on the way down grows its box over the actor's box. An empty node
/// becomes a leaf with the box of the actor. A leaf becomes an internal node whose
/// first child holds the actor that was there and whose second child holds the new
/// one. An internal node hands
/// the actor to the first child if that child's box would then have strictly the
/// smaller volume, else to the second.
pub open spec fn binary_inserted<T: Float, H: Hitable<T>, M: Material<T>>(
    tree: BinaryModel<T, H, M>,
    actor: Rc<Actor<T, H, M>>,
) -> BinaryModel<T, H, M>
    decreases depth(tree),
{
    let target = actor.hitable.bounds_spec();
    let bounds = bounds_with(tree, target);
    match tree.node {
        NodeModel::Empty => BinaryModel { bounds, node: NodeModel::Leaf(actor) },
        NodeModel::Leaf(existing) => BinaryModel {
            bounds,
            node: NodeModel::Internal(
                Box::new(binary_inserted(empty_tree(), existing)),
                Box::new(binary_inserted(empty_tree(), actor)),
            ),
        },
        NodeModel::Internal(left, right) => if volume_with(*left, target).lt_spec(
            volume_with(*right, target),
        ) {
            BinaryModel {
                bounds,
                node: NodeModel::Internal(Box::new(binary_inserted(*left, actor)), right),
            }
        } else {
            BinaryModel {
                bounds,
                node: NodeModel::Internal(left, Box::new(binary_inserted(*right, actor))),
            }
        },
    }
}

/// The actors below a node.
pub open spec fn binary_held<T: Float, H: Hitable<T>, M: Material<T>>(
    tree: BinaryModel<T, H, M>,
) -> Multiset<Rc<Actor<T, H, M>>>
    decreases tree,
{
    match tree.node {
        NodeModel::Empty => Multiset::empty(),
        NodeModel::Leaf(actor) => Multiset::empty().insert(actor),
        NodeModel::Internal(left, right) => binary_held(*left).add(binary_held(*right)),
    }
}

/// The answer of a tree to a query.
///
/// A node whose box the ray misses answers with nothing. A leaf answers with the
/// hit of its actor. An internal node asks its first child, then its second child
/// with the bound that the first answer left, and keeps the later answer.
pub open spec fn binary_hit<T: Float, H: Hitable<T>, M: Material<T>>(
    tree: BinaryModel<T, H, M>,
    ray: RayModel<T>,
    t_min: T,
    t_max: T,
) -> Found<T, H, M>
    decreases tree,
{
    if !box_hit(tree.bounds, ray, t_min, t_max) {
        None
    } else {
        match tree.node {
            NodeModel::Empty => None,
            NodeModel::Leaf(actor) => actor_hit(actor, ray, t_min, t_max),
            NodeModel::Internal(left, right) => {
                let first = binary_hit(*left, ray, t_min, t_max);
                let second = binary_hit(*right, ray, t_min, bound_after(first, t_max));
                latest(first, second)
            },
        }
    }
}

enum BinaryNode<T: Float, H: Hitable<T>, M: Material<T>> {
    Empty,
    Leaf(Rc<Actor<T, H, M>>),
    Internal(Box<BinaryTree<T, H, M>>, Box<BinaryTree<T, H, M>>),
}

/// A node of the binary tree together with everything below it.
pub struct BinaryTree<T: Float, H: Hitable<T>, M: Material<T>> {
    bounds: BoundingBox<T>,
    node: BinaryNode<T, H, M>,
}

impl<T: Float, H: Hitable<T>, M: Material<T>> View for BinaryTree<T, H, M> {
    type V = BinaryModel<T, H, M>;

    closed spec fn view(&self) -> BinaryModel<T, H, M> {
        self.model()
    }
}

impl<T: Float, H: Hitable<T>, M: Material<T>> BinaryTree<T, H, M> {
    /// The content of the node and of everything below it.
    spec fn model(&self) -> BinaryModel<T, H, M>
        decreases self,
    {
        BinaryModel {
            bounds: self.bounds@,
            node: match self.node {
                BinaryNode::Empty => NodeModel::Empty,
                BinaryNode::Leaf(actor) => NodeModel::Leaf(actor),
                BinaryNode::Internal(left, right) => NodeModel::Internal(
                    Box::new(left.model()),
                    Box::new(right.model()),
                ),
            },
        }
    }

    /// The freshly allocated node.
    pub fn new() -> (r: Self)
        ensures
            r@ == empty_tree::<T, H, M>(),
            binary_tight(r@),
            binary_covering(r@),
    {
        let bounds = BoundingBox::new(Vec3::new(), Vec3::new());
        BinaryTree { bounds, node: BinaryNode::Empty }
    }

    pub fn get_bounds(&self) -> (r: &BoundingBox<T>)
        ensures
            r@ == self@.bounds,
    {
        &self.bounds
    }

    /// The actor that the node holds itself: that of a leaf, none otherwise.
    pub fn get_actor(&self) -> (r: Option<Rc<Actor<T, H, M>>>)
        ensures
            r == (match self@.node {
                NodeModel::Leaf(actor) => Some(actor),
                _ => None,
            }),
    {
        match &self.node {
            BinaryNode::Leaf(actor) => Some(share(actor)),
            _ => None,
        }
    }

    /// The first (`index` 0) or second (`index` 1) child of an internal node; none
    /// for another node or another index.
    pub fn get_child(&self, index: usize) -> (r: Option<&BinaryTree<T, H, M>>)
        ensures
            match self@.node {
                NodeModel::Internal(left, right) => if index == 0 {
                    r matches Some(child) && child@ == *left
                } else if index == 1 {
                    r matches Some(child) && child@ == *right
                } else {
                    r.is_none()
                },
                _ => r.is_none(),
            },
    {
        match &self.node {
            BinaryNode::Internal(left, right) => {
                if index == 0 {
                    Some(&**left)
                } else if index == 1 {
                    Some(&**right)
                } else {
                    None
                }
            },
            _ => None,
        }
    }
}

impl<T: Float, H: Hitable<T>, M: Material<T>> Tree<T, H, M> for BinaryTree<T, H, M> {
    open spec fn held(&self) -> Multiset<Rc<Actor<T, H, M>>> {
        binary_held(self@)
    }

    open spec fn hit_spec(&self, ray: RayModel<T>, t_min: T, t_max: T) -> Found<T, H, M> {
        binary_hit(self@, ray, t_min, t_max)
    }

    /// Inserts the actor. A binary tree accepts every actor.
    fn add_actor(&mut self, actor: Rc<Actor<T, H, M>>) -> (accepted: bool)
        ensures
            accepted,
            final(self)@ == binary_inserted(old(self)@, actor),
            box_contains(final(self)@.bounds, actor.hitable.bounds_spec()),
            !(old(self)@.node is Empty) ==> box_contains(final(self)@.bounds, old(self)@.bounds),
            binary_tight(old(self)@) ==> binary_tight(final(self)@),
            binary_covering(old(self)@) && numeric_actors(binary_held(old(self)@)) && numeric_box(
                actor.hitable.bounds_spec(),
            ) ==> binary_covering(final(self)@),
        decreases depth(old(self)@),
    {
        let fresh = match &self.node {
            BinaryNode::Empty => true,
            _ => false,
        };
        if fresh {
            // The first actor brings the box
            self.bounds = actor.hitable.get_bounds().copy();
            proof {
                lemma_contains_reflexive(self.bounds);
            }
        } else {
            // Expand the node bounds so the new actor is guaranteed to fit
            let _expanded = self.bounds.expand(actor.hitable.get_bounds());
        }
        match &mut self.node {
            BinaryNode::Empty => {
                self.node = BinaryNode::Leaf(actor);
            },
            BinaryNode::Leaf(current_actor) => {
                let mut left = Box::new(BinaryTree::new());
                let mut right = Box::new(BinaryTree::new());
                left.add_actor(share(current_actor));
                right.add_actor(actor);
                self.node = BinaryNode::Internal(left, right);
            },
            BinaryNode::Internal(left, right) => {
                let mut left_bounds = left.get_bounds().copy();
                let _grown = left_bounds.expand(actor.hitable.get_bounds());
                let mut right_bounds = right.get_bounds().copy();
                let _grown = right_bounds.expand(actor.hitable.get_bounds());
                if left_bounds.get_volume().lt(right_bounds.get_volume()) {
                    left.add_actor(actor);
                } else {
                    right.add_actor(actor);
                }
            },
        }
        proof {
            lemma_inserted_holds(old(self)@, actor);
            if binary_tight(old(self)@) {
                lemma_binary_inserted_tight(old(self)@, actor);
            }
            if binary_covering(old(self)@) && numeric_actors(binary_held(old(self)@))
                && numeric_box(actor.hitable.bounds_spec()) {
                lemma_binary_inserted_covering(old(self)@, actor);
            }
        }
        true
    }

    fn get_hit(&self, ray: &Ray<T>, t_min: T, t_max: T) -> (r: Option<
        (Rc<Actor<T, H, M>>, Hit<T>),
    >)
        decreases self,
    {
        if !self.get_bounds().hit(ray, t_min, t_max) {
            return None;
        }
        match &self.node {
            BinaryNode::Empty => None,
            BinaryNode::Leaf(actor) => {
                match actor.hitable.hit(ray, t_min, t_max) {
                    Some(hit) => Some((share(actor), hit)),
                    None => None,
                }
            },
            BinaryNode::Internal(left, right) => {
                let mut bound = t_max;
                let mut result = left.get_hit(ray, t_min, bound);
                if let Some((_, hit)) = &result {
                    bound = hit.t;
                }
                let second = right.get_hit(ray, t_min, bound);
                if second.is_some() {
                    result = second;
                }
                result
            },
        }
    }
}

/// Inserting an actor adds exactly that actor to what the tree holds.
pub proof fn lemma_inserted_holds<T: Float, H: Hitable<T>, M: Material<T>>(
    tree: BinaryModel<T, H, M>,
    actor: Rc<Actor<T, H, M>>,
)
    ensures
        binary_held(binary_inserted(tree, actor)) == binary_held(tree).insert(actor),
    decreases depth(tree),
{
    match tree.node {
        NodeModel::Empty => {},
        NodeModel::Leaf(existing) => {
            assert(binary_held(binary_inserted(empty_tree(), existing))
                =~= Multiset::empty().insert(existing));
            assert(binary_held(binary_inserted(empty_tree(), actor)) =~= Multiset::empty().insert(
                actor,
            ));
            assert(binary_held(binary_inserted(tree, actor)) =~= binary_held(tree).insert(actor));
        },
        NodeModel::Internal(left, right) => {
            lemma_inserted_holds(*left, actor);
            lemma_inserted_holds(*right, actor);
            assert(binary_held(binary_inserted(tree, actor)) =~= binary_held(tree).insert(actor));
        },
    }
}

} // verus!
