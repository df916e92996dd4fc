use ray_tracer::actor::Actor;
use ray_tracer::camera::perspective::PerspectiveCamera;
use ray_tracer::float::{Float, Number};
use ray_tracer::hitable::primitive::Sphere;
use ray_tracer::hitable::transform::Translation;
use ray_tracer::material::plain::PlainMaterial;
use ray_tracer::renderer::{Image, Renderer, Sampler};
use ray_tracer::scene::Scene;
use ray_tracer::texture::uniform::UniformTexture;
use ray_tracer::tree::TreeType;
use ray_tracer::vector::Vec3;

/// Double precision IEEE 754 numbers as the scalar of the library.
#[derive(Clone, Copy, Debug, PartialEq, PartialOrd)]
struct F(f64);

impl Number for F {
    fn sqrt_spec(self) -> Self {
        F(self.0.sqrt())
    }

    fn tan_spec(self) -> Self {
        F(self.0.tan())
    }

    fn sqrt(&self) -> Self {
        F(self.0.sqrt())
    }

    fn tan(&self) -> Self {
        F(self.0.tan())
    }
}

impl Float for F {
    fn zero_spec() -> Self {
        F(0.0)
    }

    fn one_spec() -> Self {
        F(1.0)
    }

    fn from_usize_spec(n: usize) -> Self {
        F(n as f64)
    }

    fn add_spec(self, rhs: Self) -> Self {
        F(self.0 + rhs.0)
    }

    fn sub_spec(self, rhs: Self) -> Self {
        F(self.0 - rhs.0)
    }

    fn mul_spec(self, rhs: Self) -> Self {
        F(self.0 * rhs.0)
    }

    fn div_spec(self, rhs: Self) -> Self {
        F(self.0 / rhs.0)
    }

    fn neg_spec(self) -> Self {
        F(-self.0)
    }

    fn floor_spec(self) -> Self {
        F(self.0.floor())
    }

    fn to_i32_spec(self) -> Option<i32> {
        self.to_i32()
    }

    fn lt_spec(self, rhs: Self) -> bool {
        self.0 < rhs.0
    }

    fn le_spec(self, rhs: Self) -> bool {
        self.0 <= rhs.0
    }

    fn order_laws(_a: Self, _b: Self, _c: Self) {}

    fn zero() -> Self {
        F(0.0)
    }

    fn one() -> Self {
        F(1.0)
    }

    fn from_usize(n: usize) -> Self {
        F(n as f64)
    }

    fn add(self, rhs: Self) -> Self {
        F(self.0 + rhs.0)
    }

    fn sub(self, rhs: Self) -> Self {
        F(self.0 - rhs.0)
    }

    fn mul(self, rhs: Self) -> Self {
        F(self.0 * rhs.0)
    }

    fn div(self, rhs: Self) -> Self {
        F(self.0 / rhs.0)
    }

    fn neg(self) -> Self {
        F(-self.0)
    }

    fn floor(self) -> Self {
        F(self.0.floor())
    }

    fn to_i32(self) -> Option<i32> {
        // a float within this range truncates to a 32-bit integer
        if self.0 >= -2147483648.0 && self.0 < 2147483648.0 {
            Some(self.0 as i32)
        } else {
            None
        }
    }

    fn lt(self, rhs: Self) -> bool {
        self.0 < rhs.0
    }

    fn le(self, rhs: Self) -> bool {
        self.0 <= rhs.0
    }

    fn gt(self, rhs: Self) -> bool {
        self.0 > rhs.0
    }

    fn ge(self, rhs: Self) -> bool {
        self.0 >= rhs.0
    }
}

fn f3(a: [f64; 3]) -> [F; 3] {
    [F(a[0]), F(a[1]), F(a[2])]
}

fn vec3(a: [f64; 3]) -> Vec3<F> {
    Vec3::from_array(f3(a))
}

/// A sampler that always hands out the same number and the centre of the lens.
struct Fixed(f64);

impl Sampler<F> for Fixed {
    fn unit(&mut self) -> F {
        F(self.0)
    }

    fn lens(&mut self) -> Vec3<F> {
        Vec3::new()
    }
}

type Ball = Translation<F, Sphere<F>>;
type Glow = PlainMaterial<F, UniformTexture<F>>;

fn scene() -> Scene<F, Ball, Glow> {
    let mut scene = Scene::new();
    scene.set_background(vec3([0.25, 0.5, 0.75]));
    let surface = Translation::new(Box::new(Sphere::new(F(1.0))), vec3([0.0, 0.0, -5.0]));
    let material = PlainMaterial::new(Box::new(UniformTexture::new(vec3([1.0, 2.0, 4.0]))));
    scene.add_actor(Actor::new(Box::new(surface), Box::new(material)));
    scene
}

#[test]
fn new_image_is_black() {
    let image = Image::<F>::new(3, 2);
    assert_eq!(image.width, 3);
    assert_eq!(image.height, 2);
    assert_eq!(image.data, vec![F(0.0); 18]);
    let image = Image::<F>::new(0, 7);
    assert!(image.data.is_empty());
}

#[test]
fn set_pixel_writes_three_scalars() {
    let mut image = Image::<F>::new(3, 2);
    image.set_pixel(2, 1, &vec3([1.0, 2.0, 3.0]));
    image.set_pixel(0, 0, &vec3([4.0, 5.0, 6.0]));
    let mut expected = vec![F(0.0); 18];
    expected[15] = F(1.0);
    expected[16] = F(2.0);
    expected[17] = F(3.0);
    expected[0] = F(4.0);
    expected[1] = F(5.0);
    expected[2] = F(6.0);
    assert_eq!(image.data, expected);
}

#[test]
fn render_shows_the_sphere_in_the_middle() {
    let mut scene = scene();
    let camera = PerspectiveCamera::<F>::new();
    for strategy in [TreeType::Linear, TreeType::Binary, TreeType::Oct] {
        scene.set_tree_type(strategy);
        for sampling in [0, 1, 4] {
            let renderer = Renderer::new(4, 4, sampling, 8, false);
            let image = renderer.render(&scene, &camera, &mut Fixed(0.5));
            assert_eq!(image.width, 4);
            assert_eq!(image.height, 4);
            assert_eq!(image.data.len(), 48);
            for j in 0..4 {
                for i in 0..4 {
                    let at = 3 * (j * 4 + i);
                    let pixel = [image.data[at], image.data[at + 1], image.data[at + 2]];
                    if i == 2 && j == 2 {
                        assert_eq!(pixel, f3([1.0, 2.0, 4.0]));
                    } else {
                        assert_eq!(pixel, f3([0.25, 0.5, 0.75]));
                    }
                }
            }
        }
    }
}

#[test]
fn render_pixel_is_the_mean_of_its_samples() {
    let scene = scene();
    let camera = PerspectiveCamera::<F>::new();
    let renderer = Renderer::new(4, 4, 3, 8, true);
    // with the sample zero the jittered rays are the rays without jitter
    let color = renderer.render_pixel(2, 2, &scene, &camera, &mut Fixed(0.0));
    assert_eq!(color.get_data(), f3([1.0, 2.0, 4.0]));
    let color = renderer.render_pixel(0, 3, &scene, &camera, &mut Fixed(0.0));
    assert_eq!(color.get_data(), f3([0.25, 0.5, 0.75]));
}
