use std::cell::Cell;
use std::rc::Rc;

use ray_tracer::actor::Actor;
use ray_tracer::boundingbox::{BoundingBox, BoxModel};
use ray_tracer::float::{Float, Number};
use ray_tracer::hit::{Hit, HitModel};
use ray_tracer::hitable::primitive::Sphere;
use ray_tracer::hitable::transform::Translation;
use ray_tracer::hitable::Hitable;
use ray_tracer::material::plain::PlainMaterial;
use ray_tracer::material::{Material, Scatter, ScatterModel};
use ray_tracer::ray::{Ray, RayModel};
use ray_tracer::scene::Scene;
use ray_tracer::texture::uniform::UniformTexture;
use ray_tracer::texture::Texture;
use ray_tracer::tree::binary::BinaryTree;
use ray_tracer::tree::linear::LinearTree;
use ray_tracer::tree::oct::Octree;
use ray_tracer::tree::{Tree, TreeType};
use ray_tracer::vector::Vec3;

/// Double precision IEEE 754 numbers as the scalar of the library.
#[derive(Clone, Copy, Debug, PartialEq, PartialOrd)]
struct F(f64);

impl Number for F {
    fn sqrt_spec(self) -> Self {
        F(self.0.sqrt())
    }

    fn tan_spec(self) -> Self {
        F(self.0.tan())
    }

    fn sqrt(&self) -> Self {
        F(self.0.sqrt())
    }

    fn tan(&self) -> Self {
        F(self.0.tan())
    }
}

impl Float for F {
    fn zero_spec() -> Self {
        F(0.0)
    }

    fn one_spec() -> Self {
        F(1.0)
    }

    fn from_usize_spec(n: usize) -> Self {
        F(n as f64)
    }

    fn add_spec(self, rhs: Self) -> Self {
        F(self.0 + rhs.0)
    }

    fn sub_spec(self, rhs: Self) -> Self {
        F(self.0 - rhs.0)
    }

    fn mul_spec(self, rhs: Self) -> Self {
        F(self.0 * rhs.0)
    }

    fn div_spec(self, rhs: Self) -> Self {
        F(self.0 / rhs.0)
    }

    fn neg_spec(self) -> Self {
        F(-self.0)
    }

    fn floor_spec(self) -> Self {
        F(self.0.floor())
    }

    fn to_i32_spec(self) -> Option<i32> {
        self.to_i32()
    }

    fn lt_spec(self, rhs: Self) -> bool {
        self.0 < rhs.0
    }

    fn le_spec(self, rhs: Self) -> bool {
        self.0 <= rhs.0
    }

    fn order_laws(_a: Self, _b: Self, _c: Self) {}

    fn zero() -> Self {
        F(0.0)
    }

    fn one() -> Self {
        F(1.0)
    }

    fn from_usize(n: usize) -> Self {
        F(n as f64)
    }

    fn add(self, rhs: Self) -> Self {
        F(self.0 + rhs.0)
    }

    fn sub(self, rhs: Self) -> Self {
        F(self.0 - rhs.0)
    }

    fn mul(self, rhs: Self) -> Self {
        F(self.0 * rhs.0)
    }

    fn div(self, rhs: Self) -> Self {
        F(self.0 / rhs.0)
    }

    fn neg(self) -> Self {
        F(-self.0)
    }

    fn floor(self) -> Self {
        F(self.0.floor())
    }

    fn to_i32(self) -> Option<i32> {
        // a float within this range truncates to a 32-bit integer
        if self.0 >= -2147483648.0 && self.0 < 2147483648.0 {
            Some(self.0 as i32)
        } else {
            None
        }
    }

    fn lt(self, rhs: Self) -> bool {
        self.0 < rhs.0
    }

    fn le(self, rhs: Self) -> bool {
        self.0 <= rhs.0
    }

    fn gt(self, rhs: Self) -> bool {
        self.0 > rhs.0
    }

    fn ge(self, rhs: Self) -> bool {
        self.0 >= rhs.0
    }
}

fn f3(a: [f64; 3]) -> [F; 3] {
    [F(a[0]), F(a[1]), F(a[2])]
}

fn vec3(a: [f64; 3]) -> Vec3<F> {
    Vec3::from_array(f3(a))
}

type Ball = Translation<F, Sphere<F>>;
type Glow = PlainMaterial<F, UniformTexture<F>>;

fn ball(centre: [f64; 3], radius: f64) -> Box<Ball> {
    Box::new(Translation::new(Box::new(Sphere::new(F(radius))), vec3(centre)))
}

fn glow(color: [f64; 3]) -> Box<Glow> {
    Box::new(PlainMaterial::new(Box::new(UniformTexture::new(vec3(color)))))
}

/// A surface that counts how often it is tested.
struct Counted {
    inner: Ball,
    tests: Rc<Cell<usize>>,
}

impl Hitable<F> for Counted {
    fn hit_spec(&self, _ray: RayModel<F>, _t_min: F, _t_max: F) -> Option<HitModel<F>> {
        unreachable!()
    }

    fn bounds_spec(&self) -> BoxModel<F> {
        unreachable!()
    }

    fn primitive_spec(&self) -> bool {
        false
    }

    fn hit(&self, ray: &Ray<F>, t_min: F, t_max: F) -> Option<Hit<F>> {
        self.tests.set(self.tests.get() + 1);
        self.inner.hit(ray, t_min, t_max)
    }

    fn get_bounds(&self) -> &BoundingBox<F> {
        self.inner.get_bounds()
    }

    fn is_primitive(&self) -> bool {
        false
    }
}

/// A material that always scatters straight on and halves the light.
struct Haze;

impl Material<F> for Haze {
    fn may_scatter(&self, _incident: RayModel<F>, _hit: HitModel<F>, _outcome: ScatterModel<F>) -> bool {
        unreachable!()
    }

    fn scatter(&self, incident: &Ray<F>, hit: &Hit<F>) -> Scatter<F> {
        Scatter {
            attenuation: vec3([0.5, 0.25, 0.125]),
            scattered: Some(Ray::from_vec(hit.point.copy(), incident.get_direction().copy())),
        }
    }
}

/// A small linear congruential generator: the scenes are the same in every run.
struct Lcg(u64);

impl Lcg {
    fn next(&mut self) -> f64 {
        self.0 = self.0.wrapping_mul(6364136223846793005).wrapping_add(1442695040888963407);
        ((self.0 >> 11) as f64) / ((1u64 << 53) as f64)
    }
}

/// One sphere in each cell of an `n` by `n` by `n` grid over `[-20, 20]` on every axis;
/// the spheres do not touch.
fn grid(n: usize, seed: u64) -> Vec<([f64; 3], f64)> {
    let mut rng = Lcg(seed);
    let mut spheres = Vec::new();
    let cell = 40.0 / n as f64;
    for i in 0..n {
        for j in 0..n {
            for k in 0..n {
                let radius = (0.05 + 0.2 * rng.next()) * cell;
                let mut centre = [0.0; 3];
                for (axis, index) in [i, j, k].into_iter().enumerate() {
                    let slack = cell - 2.0 * radius;
                    centre[axis] = -20.0 + cell * index as f64 + radius + slack * rng.next();
                }
                spheres.push((centre, radius));
            }
        }
    }
    spheres
}

fn rays(count: usize, seed: u64) -> Vec<Ray<F>> {
    let mut rng = Lcg(seed);
    let mut rays = Vec::new();
    for _ in 0..count {
        let origin = [-30.0, -25.0 + 50.0 * rng.next(), -25.0 + 50.0 * rng.next()];
        let target = [20.0, -20.0 + 40.0 * rng.next(), -20.0 + 40.0 * rng.next()];
        let direction =
            [target[0] - origin[0], target[1] - origin[1], target[2] - origin[2]];
        rays.push(Ray::from_array(f3(origin), f3(direction)));
    }
    rays
}

fn world_root() -> BoundingBox<F> {
    BoundingBox::new(vec3([-22.0, -22.0, -22.0]), vec3([22.0, 22.0, 22.0]))
}

#[test]
fn child_bounds() {
    let p0 = vec3([0., 0., 0.]);
    let p1 = vec3([4., 6., 8.]);
    let bounds = BoundingBox::new(p0, p1);
    let node = Octree::<F, Ball, Glow>::new(bounds);

    let mut children_bounds = Vec::<BoundingBox<F>>::new();

    // Ensure children are contained in the parent node
    for i in 0..8 {
        let child_bounds = node.get_child_bounds(i);
        assert!(node.get_bounds().contains(&child_bounds));
        children_bounds.push(child_bounds);
    }

    // Ensure there is no overlap across children
    for i in 0..7 {
        for j in i + 1..8 {
            assert!(!children_bounds[i].overlaps(&children_bounds[j]));
        }
    }

    // Ensure children and parent span the same volume
    let mut children_volume = F(0.0);
    for i in 0..8 {
        children_volume = children_volume.add(children_bounds[i].get_volume());
    }
    assert_eq!(node.get_bounds().get_volume(), children_volume);
}

#[test]
fn octants_are_numbered_by_axis_bits() {
    let node = Octree::<F, Ball, Glow>::new(BoundingBox::new(
        vec3([0.0, 0.0, 0.0]),
        vec3([4.0, 6.0, 8.0]),
    ));
    let expected = [
        ([0.0, 0.0, 0.0], [2.0, 3.0, 4.0]),
        ([0.0, 0.0, 4.0], [2.0, 3.0, 8.0]),
        ([0.0, 3.0, 0.0], [2.0, 6.0, 4.0]),
        ([0.0, 3.0, 4.0], [2.0, 6.0, 8.0]),
        ([2.0, 0.0, 0.0], [4.0, 3.0, 4.0]),
        ([2.0, 0.0, 4.0], [4.0, 3.0, 8.0]),
        ([2.0, 3.0, 0.0], [4.0, 6.0, 4.0]),
        ([2.0, 3.0, 4.0], [4.0, 6.0, 8.0]),
    ];
    for (i, (low, high)) in expected.into_iter().enumerate() {
        let octant = node.get_child_bounds(i);
        assert_eq!(octant.get_p0().get_data(), f3(low));
        assert_eq!(octant.get_p1().get_data(), f3(high));
    }
}

#[test]
fn linear_index_scans_every_actor() {
    let mut tree = LinearTree::new();
    let near = Rc::new(Actor::new(ball([-4.0, 0.0, 0.0], 1.0), glow([1.0, 0.0, 0.0])));
    let far = Rc::new(Actor::new(ball([8.0, 0.0, 0.0], 1.0), glow([0.0, 1.0, 0.0])));
    assert!(tree.add_actor(Rc::clone(&far)));
    assert!(tree.add_actor(Rc::clone(&near)));
    assert_eq!(tree.actors.len(), 2);
    let ray = Ray::from_array(f3([-20.0, 0.0, 0.0]), f3([1.0, 0.0, 0.0]));
    match tree.get_hit(&ray, F(0.0), F(100.0)) {
        Some((actor, hit)) => {
            assert!(Rc::ptr_eq(&actor, &near));
            assert_eq!(hit.t, F(15.0));
            assert_eq!(hit.point.get_data(), f3([-5.0, 0.0, 0.0]));
        }
        None => assert!(false),
    }
    let ray = Ray::from_array(f3([-20.0, 5.0, 0.0]), f3([1.0, 0.0, 0.0]));
    assert!(tree.get_hit(&ray, F(0.0), F(100.0)).is_none());
}

#[test]
fn binary_index_grows_its_box_and_finds_the_nearest() {
    let mut tree = BinaryTree::new();
    assert_eq!(tree.get_bounds().get_p0().get_data(), f3([0.0, 0.0, 0.0]));
    assert_eq!(tree.get_bounds().get_p1().get_data(), f3([0.0, 0.0, 0.0]));
    let ray = Ray::from_array(f3([-20.0, 0.0, 0.0]), f3([1.0, 0.0, 0.0]));
    assert!(tree.get_hit(&ray, F(0.0), F(100.0)).is_none());

    let mut actors = Vec::new();
    for x in [8.0, -4.0, 2.0, -10.0, 14.0] {
        let actor = Rc::new(Actor::new(ball([x, 0.0, 0.0], 1.0), glow([1.0, 1.0, 1.0])));
        assert!(tree.add_actor(Rc::clone(&actor)));
        actors.push(actor);
    }
    assert_eq!(tree.get_bounds().get_p0().get_data(), f3([-11.0, -1.0, -1.0]));
    assert_eq!(tree.get_bounds().get_p1().get_data(), f3([15.0, 1.0, 1.0]));
    match tree.get_hit(&ray, F(0.0), F(100.0)) {
        Some((actor, hit)) => {
            assert!(Rc::ptr_eq(&actor, &actors[3]));
            assert_eq!(hit.t, F(9.0));
        }
        None => assert!(false),
    }
    match tree.get_hit(&ray, F(12.0), F(100.0)) {
        Some((actor, hit)) => {
            assert!(Rc::ptr_eq(&actor, &actors[1]));
            assert_eq!(hit.t, F(15.0));
        }
        None => assert!(false),
    }
}

#[test]
fn octree_refuses_what_its_box_does_not_contain() {
    let mut tree = Octree::new(BoundingBox::new(vec3([-8.0, -8.0, -8.0]), vec3([8.0, 8.0, 8.0])));
    let inside = Rc::new(Actor::new(ball([4.0, 4.0, 4.0], 1.0), glow([1.0, 1.0, 1.0])));
    let centre = Rc::new(Actor::new(ball([0.0, 0.0, 0.0], 1.0), glow([1.0, 1.0, 1.0])));
    let outside = Rc::new(Actor::new(ball([8.0, 0.0, 0.0], 1.0), glow([1.0, 1.0, 1.0])));
    assert!(tree.add_actor(Rc::clone(&inside)));
    assert!(tree.add_actor(Rc::clone(&centre)));
    assert!(!tree.add_actor(Rc::clone(&outside)));
    assert_eq!(tree.get_bounds().get_p0().get_data(), f3([-8.0, -8.0, -8.0]));
    assert_eq!(tree.get_bounds().get_p1().get_data(), f3([8.0, 8.0, 8.0]));

    // the refused actor is not found, the others are
    let ray = Ray::from_array(f3([20.0, 0.0, 0.0]), f3([-1.0, 0.0, 0.0]));
    match tree.get_hit(&ray, F(0.0), F(100.0)) {
        Some((actor, hit)) => {
            assert!(Rc::ptr_eq(&actor, &centre));
            assert_eq!(hit.t, F(19.0));
        }
        None => assert!(false),
    }
    let ray = Ray::from_array(f3([4.0, 4.0, 20.0]), f3([0.0, 0.0, -1.0]));
    match tree.get_hit(&ray, F(0.0), F(100.0)) {
        Some((actor, hit)) => {
            assert!(Rc::ptr_eq(&actor, &inside));
            assert_eq!(hit.t, F(15.0));
        }
        None => assert!(false),
    }
}

#[test]
fn octree_keeps_a_point_sized_actor() {
    // a sphere without extent fits an octant at every level
    let mut tree = Octree::new(BoundingBox::new(vec3([-8.0, -8.0, -8.0]), vec3([8.0, 8.0, 8.0])));
    let speck = Rc::new(Actor::new(ball([1.0, 1.0, 1.0], 0.0), glow([1.0, 1.0, 1.0])));
    assert!(tree.add_actor(Rc::clone(&speck)));
    let ray = Ray::from_array(f3([1.0, 1.0, 20.0]), f3([0.0, 0.0, -1.0]));
    assert!(tree.get_hit(&ray, F(0.0), F(100.0)).is_none());
}

#[test]
fn indices_agree_on_a_grid_of_spheres() {
    let spheres = grid(5, 7);
    let mut linear = LinearTree::new();
    let mut binary = BinaryTree::new();
    let mut oct = Octree::new(world_root());
    for (centre, radius) in &spheres {
        let actor = Rc::new(Actor::new(ball(*centre, *radius), glow([1.0, 1.0, 1.0])));
        assert!(linear.add_actor(Rc::clone(&actor)));
        assert!(binary.add_actor(Rc::clone(&actor)));
        assert!(oct.add_actor(Rc::clone(&actor)));
    }
    let mut hits = 0;
    for ray in rays(400, 11) {
        let expected = linear.get_hit(&ray, F(0.0), F(1000.0));
        for found in [binary.get_hit(&ray, F(0.0), F(1000.0)), oct.get_hit(&ray, F(0.0), F(1000.0))] {
            match (&expected, &found) {
                (Some((a, h)), Some((b, g))) => {
                    assert!(Rc::ptr_eq(a, b));
                    assert_eq!(h.t.0.to_bits(), g.t.0.to_bits());
                    assert_eq!(h.point.get_data(), g.point.get_data());
                    assert_eq!(h.normal.get_data(), g.normal.get_data());
                }
                (None, None) => {}
                _ => assert!(false),
            }
        }
        if expected.is_some() {
            hits += 1;
        }
    }
    assert!(hits > 50);
    assert!(hits < 400);
}

#[test]
fn trees_test_fewer_surfaces_than_the_list() {
    let spheres = grid(6, 3);
    let tests = Rc::new(Cell::new(0));
    let mut linear = LinearTree::new();
    let mut binary = BinaryTree::new();
    let mut oct = Octree::new(world_root());
    for (centre, radius) in &spheres {
        let surface = Counted { inner: *ball(*centre, *radius), tests: Rc::clone(&tests) };
        let actor = Rc::new(Actor::new(Box::new(surface), glow([1.0, 1.0, 1.0])));
        linear.add_actor(Rc::clone(&actor));
        binary.add_actor(Rc::clone(&actor));
        oct.add_actor(Rc::clone(&actor));
    }
    // rays that pass the cluster at a distance
    let mut off_centre = Vec::new();
    for i in 0..50 {
        let y = 30.0 + i as f64;
        off_centre.push(Ray::from_array(f3([-40.0, y, 0.5]), f3([1.0, 0.0, 0.0])));
    }
    off_centre.extend(rays(50, 5));

    let mut cost = [0usize; 3];
    for ray in &off_centre {
        tests.set(0);
        linear.get_hit(ray, F(0.0), F(1000.0));
        cost[0] += tests.get();
        tests.set(0);
        binary.get_hit(ray, F(0.0), F(1000.0));
        cost[1] += tests.get();
        tests.set(0);
        oct.get_hit(ray, F(0.0), F(1000.0));
        cost[2] += tests.get();
    }
    assert_eq!(cost[0], spheres.len() * off_centre.len());
    assert!(cost[1] < cost[0]);
    assert!(cost[2] < cost[0]);
}

#[test]
fn scene_colour_is_the_same_under_every_index() {
    let spheres = grid(4, 21);
    let mut scene = Scene::new();
    scene.set_background(vec3([0.5, 0.75, 1.0]));
    for (n, (centre, radius)) in spheres.iter().enumerate() {
        let color = [n as f64, 1.0, 0.0];
        scene.add_actor(Actor::new(ball(*centre, *radius), glow(color)));
    }
    let batch = rays(200, 99);
    let mut reference = Vec::new();
    for ray in &batch {
        reference.push(scene.get_color(ray, 0, 8));
    }
    let mut seen_actor = false;
    let mut seen_background = false;
    for strategy in [TreeType::Binary, TreeType::Oct, TreeType::Linear] {
        scene.set_tree_type(strategy);
        for (ray, expected) in batch.iter().zip(&reference) {
            let color = scene.get_color(ray, 0, 8);
            assert_eq!(color.get_data(), expected.get_data());
            if color.get_data() == f3([0.5, 0.75, 1.0]) {
                seen_background = true;
            } else {
                seen_actor = true;
            }
        }
    }
    assert!(seen_actor && seen_background);
}

#[test]
fn scene_rebuilds_an_octree_that_refuses() {
    let mut scene = Scene::new();
    scene.set_background(vec3([0.0, 0.0, 0.25]));
    scene.add_actor(Actor::new(ball([0.0, 0.0, 0.0], 1.0), glow([1.0, 0.0, 0.0])));
    scene.set_tree_type(TreeType::Oct);
    // far outside the root box of the octree that was just built
    scene.add_actor(Actor::new(ball([50.0, 0.0, 0.0], 1.0), glow([0.0, 1.0, 0.0])));
    let ray = Ray::from_array(f3([50.0, 0.0, 20.0]), f3([0.0, 0.0, -1.0]));
    assert_eq!(scene.get_color(&ray, 0, 8).get_data(), f3([0.0, 1.0, 0.0]));
    let ray = Ray::from_array(f3([0.0, 0.0, 20.0]), f3([0.0, 0.0, -1.0]));
    assert_eq!(scene.get_color(&ray, 0, 8).get_data(), f3([1.0, 0.0, 0.0]));
    let ray = Ray::from_array(f3([25.0, 0.0, 20.0]), f3([0.0, 0.0, -1.0]));
    assert_eq!(scene.get_color(&ray, 0, 8).get_data(), f3([0.0, 0.0, 0.25]));
}

#[test]
fn empty_scene_shows_the_background() {
    let mut scene = Scene::<F, Ball, Glow>::new();
    let ray = Ray::from_array(f3([0.0, 0.0, 20.0]), f3([0.0, 0.0, -1.0]));
    assert_eq!(scene.get_color(&ray, 0, 8).get_data(), f3([0.0, 0.0, 0.0]));
    scene.set_background(vec3([0.2, 0.2, 0.7]));
    for strategy in [TreeType::Linear, TreeType::Binary, TreeType::Oct] {
        scene.set_tree_type(strategy);
        assert_eq!(scene.get_color(&ray, 0, 8).get_data(), f3([0.2, 0.2, 0.7]));
    }
}

#[test]
fn depth_budget_truncates_the_recursion() {
    // two hazy spheres behind each other, the background behind them
    let mut scene = Scene::new();
    scene.set_background(vec3([1.0, 1.0, 1.0]));
    scene.add_actor(Actor::new(ball([0.0, 0.0, 0.0], 1.0), Box::new(Haze)));
    scene.add_actor(Actor::new(ball([0.0, 0.0, -10.0], 1.0), Box::new(Haze)));
    let ray = Ray::from_array(f3([0.0, 0.0, 20.0]), f3([0.0, 0.0, -1.0]));

    // no budget: the attenuation of the first event alone
    assert_eq!(scene.get_color(&ray, 0, 0).get_data(), f3([0.5, 0.25, 0.125]));
    assert_eq!(scene.get_color(&ray, 3, 3).get_data(), f3([0.5, 0.25, 0.125]));
    assert_eq!(scene.get_color(&ray, 5, 3).get_data(), f3([0.5, 0.25, 0.125]));
    // one event more with every unit of budget
    assert_eq!(scene.get_color(&ray, 0, 1).get_data(), f3([0.25, 0.0625, 0.015625]));
    assert_eq!(scene.get_color(&ray, 0, 2).get_data(), f3([0.125, 0.015625, 0.001953125]));
    // the ray passes each sphere twice, then reaches the background
    let through = f3([0.0625, 0.00390625, 0.000244140625]);
    assert_eq!(scene.get_color(&ray, 0, 4).get_data(), through);
    assert_eq!(scene.get_color(&ray, 0, 8).get_data(), through);
}

#[test]
fn shade_returns_the_attenuation_when_nothing_is_gathered() {
    let mut scene = Scene::<F, Ball, Glow>::new();
    scene.set_background(vec3([0.5, 0.5, 0.5]));
    let onward = || Some(Ray::from_array(f3([0.0, 0.0, 0.0]), f3([0.0, 0.0, 1.0])));
    let absorbed = Scatter { attenuation: vec3([0.25, 0.5, 1.0]), scattered: None };
    assert_eq!(scene.shade(absorbed, 0, 8).get_data(), f3([0.25, 0.5, 1.0]));
    let exhausted = Scatter { attenuation: vec3([0.25, 0.5, 1.0]), scattered: onward() };
    assert_eq!(scene.shade(exhausted, 8, 8).get_data(), f3([0.25, 0.5, 1.0]));
    let gathered = Scatter { attenuation: vec3([0.25, 0.5, 1.0]), scattered: onward() };
    assert_eq!(scene.shade(gathered, 0, 8).get_data(), f3([0.125, 0.25, 0.5]));
}

#[test]
fn plain_material_never_scatters() {
    let material = glow([2.0, 1.0, 0.5]);
    let texture = UniformTexture::new(vec3([2.0, 1.0, 0.5]));
    let point = vec3([3.0, 4.0, 5.0]);
    assert_eq!(texture.get_color(F(0.25), F(0.75), &point).get_data(), f3([2.0, 1.0, 0.5]));
    let hit = Hit { point, normal: vec3([0.0, 0.0, 1.0]), t: F(1.0) };
    let incident = Ray::from_array(f3([3.0, 4.0, 6.0]), f3([0.0, 0.0, -1.0]));
    let scatter = material.scatter(&incident, &hit);
    assert_eq!(scatter.attenuation.get_data(), f3([2.0, 1.0, 0.5]));
    assert!(scatter.scattered.is_none());
}

#[test]
fn binary_node_box_is_the_union_of_what_is_below() {
    let mut tree = BinaryTree::new();
    assert!(tree.get_actor().is_none());
    assert!(tree.get_child(0).is_none());
    let first = Rc::new(Actor::new(ball([5.0, 0.0, 0.0], 1.0), glow([1.0, 1.0, 1.0])));
    tree.add_actor(Rc::clone(&first));
    // the first actor brings the box: the origin is not part of it
    assert_eq!(tree.get_bounds().get_p0().get_data(), f3([4.0, -1.0, -1.0]));
    assert_eq!(tree.get_bounds().get_p1().get_data(), f3([6.0, 1.0, 1.0]));
    match tree.get_actor() {
        Some(actor) => assert!(Rc::ptr_eq(&actor, &first)),
        None => assert!(false),
    }

    let second = Rc::new(Actor::new(ball([9.0, 2.0, 0.0], 1.0), glow([1.0, 1.0, 1.0])));
    tree.add_actor(Rc::clone(&second));
    assert_eq!(tree.get_bounds().get_p0().get_data(), f3([4.0, -1.0, -1.0]));
    assert_eq!(tree.get_bounds().get_p1().get_data(), f3([10.0, 3.0, 1.0]));
    assert!(tree.get_actor().is_none());
    assert!(tree.get_child(2).is_none());
    match (tree.get_child(0), tree.get_child(1)) {
        (Some(left), Some(right)) => {
            assert_eq!(left.get_bounds().get_p0().get_data(), f3([4.0, -1.0, -1.0]));
            assert_eq!(left.get_bounds().get_p1().get_data(), f3([6.0, 1.0, 1.0]));
            assert_eq!(right.get_bounds().get_p0().get_data(), f3([8.0, 1.0, -1.0]));
            assert_eq!(right.get_bounds().get_p1().get_data(), f3([10.0, 3.0, 1.0]));
            assert!(Rc::ptr_eq(&left.get_actor().unwrap(), &first));
            assert!(Rc::ptr_eq(&right.get_actor().unwrap(), &second));
        }
        _ => assert!(false),
    }
    // a ray between the origin and the first actor misses the tree
    let ray = Ray::from_array(f3([2.0, 0.0, 20.0]), f3([0.0, 0.0, -1.0]));
    assert!(!tree.get_bounds().hit(&ray, F(0.0), F(100.0)));
    assert!(tree.get_hit(&ray, F(0.0), F(100.0)).is_none());
}

#[test]
fn world_is_the_union_of_the_actor_boxes() {
    let mut scene = Scene::<F, Ball, Glow>::new();
    scene.add_actor(Actor::new(ball([5.0, 0.0, 0.0], 1.0), glow([1.0, 1.0, 1.0])));
    assert_eq!(scene.get_bounds().get_p0().get_data(), f3([4.0, -1.0, -1.0]));
    assert_eq!(scene.get_bounds().get_p1().get_data(), f3([6.0, 1.0, 1.0]));
    scene.add_actor(Actor::new(ball([9.0, 2.0, 0.0], 1.0), glow([1.0, 1.0, 1.0])));
    assert_eq!(scene.get_bounds().get_p0().get_data(), f3([4.0, -1.0, -1.0]));
    assert_eq!(scene.get_bounds().get_p1().get_data(), f3([10.0, 3.0, 1.0]));
    // an octree over this world finds both actors
    scene.set_tree_type(TreeType::Oct);
    let ray = Ray::from_array(f3([9.0, 2.0, 20.0]), f3([0.0, 0.0, -1.0]));
    assert_eq!(scene.get_color(&ray, 0, 8).get_data(), f3([1.0, 1.0, 1.0]));
}

/// How many levels below `node` the actor is kept, if it is kept by exactly one node.
fn keeper_depth(node: &Octree<F, Ball, Glow>, actor: &Rc<Actor<F, Ball, Glow>>) -> Option<usize> {
    let mut found = None;
    if node.get_actors().iter().any(|kept| Rc::ptr_eq(kept, actor)) {
        found = Some(0);
    }
    for index in 0..8 {
        if let Some(child) = node.get_child(index) {
            if let Some(depth) = keeper_depth(child, actor) {
                assert!(found.is_none());
                found = Some(depth + 1);
            }
        }
    }
    found
}

#[test]
fn octree_descends_as_far_as_an_octant_takes_the_actor() {
    let mut tree = Octree::new(BoundingBox::new(vec3([0.0, 0.0, 0.0]), vec3([1.0, 1.0, 1.0])));
    // a sphere of radius 2^-71 that touches the three planes through the origin
    let radius = (2.0f64).powi(-71);
    let tiny = Rc::new(Actor::new(ball([radius, radius, radius], radius), glow([1.0, 1.0, 1.0])));
    assert!(tree.add_actor(Rc::clone(&tiny)));
    // its box has the side 2^-70: it fits the octants of seventy levels and no more
    assert_eq!(keeper_depth(&tree, &tiny), Some(70));
    assert!(tree.get_actors().is_empty());

    // a sphere that straddles the middle of the root is kept by the root
    let wide = Rc::new(Actor::new(ball([0.5, 0.5, 0.5], 0.25), glow([1.0, 1.0, 1.0])));
    assert!(tree.add_actor(Rc::clone(&wide)));
    assert_eq!(keeper_depth(&tree, &wide), Some(0));
    // one that fits an octant of the first level but none of the second
    let medium = Rc::new(Actor::new(ball([0.75, 0.75, 0.75], 0.125), glow([1.0, 1.0, 1.0])));
    assert!(tree.add_actor(Rc::clone(&medium)));
    assert_eq!(keeper_depth(&tree, &medium), Some(1));
    match tree.get_child(7) {
        Some(child) => {
            assert_eq!(child.get_bounds().get_p0().get_data(), f3([0.5, 0.5, 0.5]));
            assert_eq!(child.get_bounds().get_p1().get_data(), f3([1.0, 1.0, 1.0]));
            assert!(Rc::ptr_eq(&child.get_actors()[0], &medium));
        }
        None => assert!(false),
    }
    assert!(tree.get_child(8).is_none());
    // the boxes of the nodes have not moved
    assert_eq!(tree.get_bounds().get_p0().get_data(), f3([0.0, 0.0, 0.0]));
    assert_eq!(tree.get_bounds().get_p1().get_data(), f3([1.0, 1.0, 1.0]));
}

#[test]
fn octree_insertion_ends_for_an_actor_without_extent() {
    let mut tree = Octree::new(BoundingBox::new(vec3([0.0, 0.0, 0.0]), vec3([1.0, 1.0, 1.0])));
    // at the corner of the root every level has an octant around the point
    let speck = Rc::new(Actor::new(ball([0.0, 0.0, 0.0], 0.0), glow([1.0, 1.0, 1.0])));
    assert!(tree.add_actor(Rc::clone(&speck)));
    let depth = keeper_depth(&tree, &speck);
    assert!(depth.is_some());
    assert!(depth.unwrap() > 64);
}
