//! The scene: the actors, the index over them, and the colour seen along a ray.
use std::rc::Rc;
use vstd::prelude::*;
use crate::actor::Actor;
use crate::boundingbox::{
    axis_length, box_contains, cube_of, grown, padded, BoundingBox, BoxModel,
};
use crate::float::Float;
use crate::hit::Hit;
use crate::hitable::primitive::group::empty_bounds;
use crate::hitable::Hitable;
use crate::material::{Material, Scatter, ScatterModel};
use crate::ray::{Ray, RayModel};
use crate::tree::binary::{binary_hit, binary_inserted, empty_tree, BinaryModel, BinaryTree};
use crate::tree::linear::LinearTree;
use crate::tree::oct::{fresh_node, oct_hit, oct_inserted, OctModel, Octree, MAX_DEPTH};
use crate::tree::{actors_scan, found_view, share, Found, Tree, TreeType};
use crate::vector::{times, Vec3};

pub mod strategies;

verus! {

/// The lower end of the interval in which a ray is traced: `1 / 1000000000`. It
/// keeps a scattered ray from hitting the surface it leaves.
pub open spec fn near_limit<T: Float>() -> T {
    T::one_spec().div_spec(T::from_usize_spec(1000000000))
}

/// The upper end of the interval in which a ray is traced: `100000 * 100000`.
pub open spec fn far_limit<T: Float>() -> T {
    T::from_usize_spec(100000).mul_spec(T::from_usize_spec(100000))
}

/// The share of the root cube's side by which an octree's root box is padded on
/// every axis: `1 / 10`.
pub open spec fn padding_share<T: Float>() -> T {
    T::one_spec().div_spec(T::from_usize_spec(10))
}

/// The fixed box of an octree over a world with the box `world`: the cube around
/// the world, padded on every axis by a tenth of the cube's side.
pub open spec fn root_box<T: Float>(world: BoxModel<T>) -> BoxModel<T> {
    let cube = cube_of(world);
    let pad = axis_length(cube, 0).mul_spec(padding_share::<T>());
    padded(padded(padded(cube, pad, 0), pad, 1), pad, 2)
}

/// The box of a world that had the box `bounds` over `count` actors, after an actor
/// with the box `added` has joined: the box of the first actor, and from then on
/// the old box grown over the new one. The world is the union of the boxes of its
/// actors.
pub open spec fn world_with<T: Float>(count: nat, bounds: BoxModel<T>, added: BoxModel<T>) -> BoxModel<
    T,
> {
    if count == 0 {
        added
    } else {
        grown(bounds, added)
    }
}

/// The mathematical content of the index of a scene.
pub enum IndexModel<T: Float, H: Hitable<T>, M: Material<T>> {
    Linear(Seq<Rc<Actor<T, H, M>>>),
    Binary(BinaryModel<T, H, M>),
    Oct(OctModel<T, H, M>),
}

/// The index of the given strategy that holds nothing.
pub open spec fn empty_index<T: Float, H: Hitable<T>, M: Material<T>>(
    strategy: TreeType,
    world: BoxModel<T>,
) -> IndexModel<T, H, M> {
    match strategy {
        TreeType::Linear => IndexModel::Linear(Seq::empty()),
        TreeType::Binary => IndexModel::Binary(empty_tree()),
        TreeType::Oct => IndexModel::Oct(fresh_node(root_box(world))),
    }
}

/// Does the index accept the actor? Only an octree can refuse: it does when its
/// root box does not contain the actor's box.
pub open spec fn index_accepts<T: Float, H: Hitable<T>, M: Material<T>>(
    index: IndexModel<T, H, M>,
    actor: Rc<Actor<T, H, M>>,
) -> bool {
    match index {
        IndexModel::Oct(root) => box_contains(root.bounds, actor.hitable.bounds_spec()),
        _ => true,
    }
}

/// The index after the actor has been offered to it. An index that refuses the
/// actor is unchanged.
pub open spec fn index_offered<T: Float, H: Hitable<T>, M: Material<T>>(
    index: IndexModel<T, H, M>,
    actor: Rc<Actor<T, H, M>>,
) -> IndexModel<T, H, M> {
    match index {
        IndexModel::Linear(actors) => IndexModel::Linear(actors.push(actor)),
        IndexModel::Binary(root) => IndexModel::Binary(binary_inserted(root, actor)),
        IndexModel::Oct(root) => if index_accepts(index, actor) {
            IndexModel::Oct(oct_inserted(root, actor, MAX_DEPTH as nat))
        } else {
            index
        },
    }
}

/// The index that results from offering the first `count` of `actors`, in order,
/// to the empty index of the given strategy.
pub open spec fn built_index<T: Float, H: Hitable<T>, M: Material<T>>(
    strategy: TreeType,
    world: BoxModel<T>,
    actors: Seq<Rc<Actor<T, H, M>>>,
    count: int,
) -> IndexModel<T, H, M>
    decreases count,
{
    if count <= 0 {
        empty_index(strategy, world)
    } else {
        index_offered(built_index(strategy, world, actors, count - 1), actors[count - 1])
    }
}

/// The answer of an index to a query.
pub open spec fn index_hit<T: Float, H: Hitable<T>, M: Material<T>>(
    index: IndexModel<T, H, M>,
    ray: RayModel<T>,
    t_min: T,
    t_max: T,
) -> Found<T, H, M> {
    match index {
        IndexModel::Linear(actors) => actors_scan(actors, 0, ray, t_min, t_max, None),
        IndexModel::Binary(root) => binary_hit(root, ray, t_min, t_max),
        IndexModel::Oct(root) => oct_hit(root, ray, t_min, t_max),
    }
}

/// `color` is a colour that may be seen along `ray` after `reflection` scattering
/// events of at most `max_reflection`.
///
/// A ray that hits nothing between `near_limit` and `far_limit` shows the
/// background. A ray that hits an actor shows what `may_shade` allows for an
/// outcome that the actor's material may give.
pub open spec fn may_see<T: Float, H: Hitable<T>, M: Material<T>>(
    index: IndexModel<T, H, M>,
    background: Seq<T>,
    ray: RayModel<T>,
    reflection: nat,
    max_reflection: nat,
    color: Seq<T>,
) -> bool
    decreases max_reflection - reflection, 1nat,
{
    match index_hit(index, ray, near_limit::<T>(), far_limit::<T>()) {
        None => color == background,
        Some((actor, hit)) => exists|outcome: ScatterModel<T>|
            #[trigger] actor.material.may_scatter(ray, hit, outcome) && may_shade(
                index,
                background,
                outcome,
                reflection,
                max_reflection,
                color,
            ),
    }
}

/// `color` is a colour that a scattering event with the given outcome may have.
///
/// If no ray was scattered, or if `reflection` has reached `max_reflection`, the
/// colour is the attenuation alone: the recursion is cut off and nothing is
/// gathered beyond the budget. Otherwise it is the attenuation times, colour by
/// colour, a colour that may be seen along the scattered ray after one event more.
pub open spec fn may_shade<T: Float, H: Hitable<T>, M: Material<T>>(
    index: IndexModel<T, H, M>,
    background: Seq<T>,
    outcome: ScatterModel<T>,
    reflection: nat,
    max_reflection: nat,
    color: Seq<T>,
) -> bool
    decreases max_reflection - reflection, 0nat,
{
    if outcome.scattered.is_some() && reflection < max_reflection {
        exists|gathered: Seq<T>|
            may_see(
                index,
                background,
                outcome.scattered.unwrap(),
                reflection + 1,
                max_reflection,
                gathered,
            ) && color == #[trigger] times(outcome.attenuation, gathered)
    } else {
        color == outcome.attenuation
    }
}

/// Once the budget of scattering events is used up, nothing is gathered: the
/// colour of a ray that hits an actor is the attenuation alone of an outcome that
/// the actor's material may give, even if that outcome scatters the ray on.
pub proof fn lemma_budget_cuts_recursion<T: Float, H: Hitable<T>, M: Material<T>>(
    index: IndexModel<T, H, M>,
    background: Seq<T>,
    ray: RayModel<T>,
    reflection: nat,
    max_reflection: nat,
    color: Seq<T>,
)
    requires
        may_see(index, background, ray, reflection, max_reflection, color),
        reflection >= max_reflection,
    ensures
        match index_hit(index, ray, near_limit::<T>(), far_limit::<T>()) {
            None => color == background,
            Some((actor, hit)) => exists|outcome: ScatterModel<T>|
                #[trigger] actor.material.may_scatter(ray, hit, outcome) && color
                    == outcome.attenuation,
        },
{
    if let Some((actor, hit)) = index_hit(index, ray, near_limit::<T>(), far_limit::<T>()) {
        let outcome = choose|outcome: ScatterModel<T>|
            #[trigger] actor.material.may_scatter(ray, hit, outcome) && may_shade(
                index,
                background,
                outcome,
                reflection,
                max_reflection,
                color,
            );
        assert(actor.material.may_scatter(ray, hit, outcome) && color == outcome.attenuation);
    }
}

enum SceneTree<T: Float, H: Hitable<T>, M: Material<T>> {
    Linear(LinearTree<T, H, M>),
    Binary(BinaryTree<T, H, M>),
    Oct(Octree<T, H, M>),
}

impl<T: Float, H: Hitable<T>, M: Material<T>> SceneTree<T, H, M> {
    spec fn model(&self) -> IndexModel<T, H, M> {
        match self {
            SceneTree::Linear(tree) => IndexModel::Linear(tree.actors@),
            SceneTree::Binary(tree) => IndexModel::Binary(tree@),
            SceneTree::Oct(tree) => IndexModel::Oct(tree@),
        }
    }

    fn add_actor(&mut self, actor: Rc<Actor<T, H, M>>) -> (accepted: bool)
        ensures
            accepted == index_accepts(old(self).model(), actor),
            final(self).model() == index_offered(old(self).model(), actor),
    {
        match self {
            SceneTree::Linear(tree) => tree.add_actor(actor),
            SceneTree::Binary(tree) => tree.add_actor(actor),
            SceneTree::Oct(tree) => tree.add_actor(actor),
        }
    }

    fn get_hit(&self, ray: &Ray<T>, t_min: T, t_max: T) -> (r: Option<
        (Rc<Actor<T, H, M>>, Hit<T>),
    >)
        ensures
            found_view(r) == index_hit(self.model(), ray@, t_min, t_max),
    {
        match self {
            SceneTree::Linear(tree) => tree.get_hit(ray, t_min, t_max),
            SceneTree::Binary(tree) => tree.get_hit(ray, t_min, t_max),
            SceneTree::Oct(tree) => tree.get_hit(ray, t_min, t_max),
        }
    }
}

/// A set of actors, one index over them, the box of the world and the colour of
/// the background.
pub struct Scene<T: Float, H: Hitable<T>, M: Material<T>> {
    actors: Vec<Rc<Actor<T, H, M>>>,
    background: Vec3<T>,
    bounds: BoundingBox<T>,
    tree: SceneTree<T, H, M>,
    tree_type: TreeType,
}

impl<T: Float, H: Hitable<T>, M: Material<T>> Scene<T, H, M> {
    /// The actors in the order in which they were added.
    pub closed spec fn actors(&self) -> Seq<Rc<Actor<T, H, M>>> {
        self.actors@
    }

    /// The colour of a ray that hits nothing.
    pub closed spec fn background(&self) -> Seq<T> {
        self.background@
    }

    /// The box of the world: the union of the boxes of the actors. A world without
    /// actors has no box; the box at the origin stands in for it.
    pub closed spec fn bounds(&self) -> BoxModel<T> {
        self.bounds@
    }

    /// The strategy of the index.
    pub closed spec fn tree_type(&self) -> TreeType {
        self.tree_type
    }

    /// The index.
    pub closed spec fn index(&self) -> IndexModel<T, H, M> {
        self.tree.model()
    }

    /// The scene without actors, with a black background and a flat list as index.
    pub fn new() -> (r: Self)
        ensures
            r.actors() == Seq::<Rc<Actor<T, H, M>>>::empty(),
            r.background() == seq![T::zero_spec(), T::zero_spec(), T::zero_spec()],
            r.bounds() == empty_bounds::<T>(),
            r.tree_type() == TreeType::Linear,
            r.index() == IndexModel::<T, H, M>::Linear(Seq::empty()),
    {
        Scene {
            actors: Vec::new(),
            background: Vec3::new(),
            bounds: BoundingBox::new(Vec3::new(), Vec3::new()),
            tree: SceneTree::Linear(LinearTree::new()),
            tree_type: TreeType::Linear,
        }
    }

    /// The box of the world.
    pub fn get_bounds(&self) -> (r: &BoundingBox<T>)
        ensures
            r@ == self.bounds(),
    {
        &self.bounds
    }

    pub fn set_background(&mut self, background: Vec3<T>)
        ensures
            final(self).background() == background@,
            final(self).actors() == old(self).actors(),
            final(self).bounds() == old(self).bounds(),
            final(self).tree_type() == old(self).tree_type(),
            final(self).index() == old(self).index(),
    {
        self.background = background;
    }

    /// Adds an actor: the world becomes the union of its old box and the box of the
    /// actor, and the index is offered the actor. If the index refuses, a fresh index
    /// of the same strategy is built from all actors over the world as it is then.
    pub fn add_actor(&mut self, actor: Actor<T, H, M>)
        ensures
            final(self).actors() == old(self).actors().push(Rc::new(actor)),
            final(self).bounds() == world_with(
                old(self).actors().len(),
                old(self).bounds(),
                actor.hitable.bounds_spec(),
            ),
            box_contains(final(self).bounds(), actor.hitable.bounds_spec()),
            final(self).background() == old(self).background(),
            final(self).tree_type() == old(self).tree_type(),
            final(self).index() == (if index_accepts(old(self).index(), Rc::new(actor)) {
                index_offered(old(self).index(), Rc::new(actor))
            } else {
                built_index(
                    final(self).tree_type(),
                    final(self).bounds(),
                    final(self).actors(),
                    final(self).actors().len() as int,
                )
            }),
    {
        if self.actors.len() == 0 {
            self.bounds = actor.hitable.get_bounds().copy();
            proof {
                crate::boundingbox::lemma_contains_reflexive(self.bounds);
            }
        } else {
            let _expanded = self.bounds.expand(actor.hitable.get_bounds());
        }
        let actor = Rc::new(actor);
        self.actors.push(share(&actor));
        let success = self.tree.add_actor(actor);
        if !success {
            self.rebuild_tree();
        }
    }

    /// An estimate of the colour that arrives along `ray`, after `reflection`
    /// scattering events of at most `max_reflection`.
    ///
    /// The estimate is one of the colours that `may_see` allows. In particular, a
    /// ray that hits nothing has the colour of the background.
    pub fn get_color(&self, ray: &Ray<T>, reflection: usize, max_reflection: usize) -> (r: Vec3<T>)
        ensures
            may_see(
                self.index(),
                self.background(),
                ray@,
                reflection as nat,
                max_reflection as nat,
                r@,
            ),
            index_hit(self.index(), ray@, near_limit::<T>(), far_limit::<T>()).is_none() ==> r@
                == self.background(),
        decreases max_reflection - reflection, 1int,
    {
        let near = T::one().div(T::from_usize(1000000000));
        let far = T::from_usize(100000).mul(T::from_usize(100000));
        let current_hit = self.tree.get_hit(ray, near, far);
        match current_hit {
            Some((actor, hit)) => {
                let scatter = actor.material.scatter(ray, &hit);
                let ghost outcome = scatter@;
                let color = self.shade(scatter, reflection, max_reflection);
                proof {
                    let found = index_hit(
                        self.index(),
                        ray@,
                        near_limit::<T>(),
                        far_limit::<T>(),
                    );
                    assert(found.unwrap().0 == actor);
                    assert(found.unwrap().1 == hit@);
                    assert(exists|o: ScatterModel<T>|
                        #[trigger] actor.material.may_scatter(ray@, hit@, o) && may_shade(
                            self.index(),
                            self.background(),
                            o,
                            reflection as nat,
                            max_reflection as nat,
                            color@,
                        ));
                }
                color
            },
            None => self.background.copy(),
        }
    }

    /// The colour of a scattering event: one of the colours that `may_shade` allows.
    ///
    /// If no ray was scattered, or if `reflection` has reached `max_reflection`, the
    /// colour is the attenuation alone: nothing is gathered beyond the budget.
    /// Otherwise it is the attenuation times, colour by colour, an estimate of the
    /// colour that arrives along the scattered ray.
    pub fn shade(&self, scatter: Scatter<T>, reflection: usize, max_reflection: usize) -> (r: Vec3<T>)
        ensures
            may_shade(
                self.index(),
                self.background(),
                scatter@,
                reflection as nat,
                max_reflection as nat,
                r@,
            ),
            scatter.scattered.is_none() || reflection >= max_reflection ==> r@
                == scatter.attenuation@,
        decreases max_reflection - reflection, 0int,
    {
        let attenuation = scatter.attenuation.copy();
        match scatter.scattered {
            Some(ray_out) => {
                if reflection < max_reflection {
                    let gathered = self.get_color(&ray_out, reflection + 1, max_reflection);
                    let color = attenuation.mul_vec(&gathered);
                    proof {
                        assert(scatter@.scattered.unwrap() == ray_out@);
                        assert(may_see(
                            self.index(),
                            self.background(),
                            scatter@.scattered.unwrap(),
                            (reflection as nat) + 1,
                            max_reflection as nat,
                            gathered@,
                        ));
                        assert(color@ == times(scatter@.attenuation, gathered@));
                    }
                    color
                } else {
                    attenuation
                }
            },
            None => attenuation,
        }
    }

    /// Replaces the index by a fresh index of the given strategy, built from all
    /// actors over the world as it is now.
    pub fn set_tree_type(&mut self, tree_type: TreeType)
        ensures
            final(self).tree_type() == tree_type,
            final(self).actors() == old(self).actors(),
            final(self).bounds() == old(self).bounds(),
            final(self).background() == old(self).background(),
            final(self).index() == built_index(
                tree_type,
                old(self).bounds(),
                old(self).actors(),
                old(self).actors().len() as int,
            ),
    {
        self.tree_type = tree_type;
        self.rebuild_tree();
    }

    fn rebuild_tree(&mut self)
        ensures
            final(self).tree_type() == old(self).tree_type(),
            final(self).actors() == old(self).actors(),
            final(self).bounds() == old(self).bounds(),
            final(self).background() == old(self).background(),
            final(self).index() == built_index(
                old(self).tree_type(),
                old(self).bounds(),
                old(self).actors(),
                old(self).actors().len() as int,
            ),
    {
        let mut tree = match self.tree_type {
            TreeType::Linear => SceneTree::Linear(LinearTree::new()),
            TreeType::Binary => SceneTree::Binary(BinaryTree::new()),
            TreeType::Oct => {
                let mut tree_bounds = self.bounds.copy();
                tree_bounds.make_cube();
                let length = tree_bounds.get_axis_length(0);
                let pad = length.mul(T::one().div(T::from_usize(10)));
                let mut i: usize = 0;
                while i < 3
                    invariant
                        i <= 3,
                        i == 0 ==> tree_bounds@ == cube_of(self.bounds@),
                        i == 1 ==> tree_bounds@ == padded(cube_of(self.bounds@), pad, 0),
                        i == 2 ==> tree_bounds@ == padded(
                            padded(cube_of(self.bounds@), pad, 0),
                            pad,
                            1,
                        ),
                        i == 3 ==> tree_bounds@ == padded(
                            padded(padded(cube_of(self.bounds@), pad, 0), pad, 1),
                            pad,
                            2,
                        ),
                    decreases 3 - i,
                {
                    tree_bounds.pad_axis(pad, i);
                    i = i + 1;
                }
                SceneTree::Oct(Octree::new(tree_bounds))
            },
        };
        let mut i: usize = 0;
        while i < self.actors.len()
            invariant
                i <= self.actors.len(),
                *self == *old(self),
                tree.model() == built_index(self.tree_type, self.bounds@, self.actors@, i as int),
            decreases self.actors.len() - i,
        {
            let actor = share(&self.actors[i]);
            let _accepted = tree.add_actor(actor);
            i = i + 1;
        }
        self.tree = tree;
    }
}

} // verus!
