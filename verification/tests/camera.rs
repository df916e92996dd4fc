use ray_tracer::camera::perspective::PerspectiveCamera;
use ray_tracer::camera::Camera;
use ray_tracer::float::{Float, Number};
use ray_tracer::vector::Vec3;

/// Double precision IEEE 754 numbers as the scalar of the library.
#[derive(Clone, Copy, Debug, PartialEq, PartialOrd)]
struct F(f64);

impl Number for F {
    fn sqrt_spec(self) -> Self {
        F(self.0.sqrt())
    }

    fn tan_spec(self) -> Self {
        F(self.0.tan())
    }

    fn sqrt(&self) -> Self {
        F(self.0.sqrt())
    }

    fn tan(&self) -> Self {
        F(self.0.tan())
    }
}

impl Float for F {
    fn zero_spec() -> Self {
        F(0.0)
    }

    fn one_spec() -> Self {
        F(1.0)
    }

    fn from_usize_spec(n: usize) -> Self {
        F(n as f64)
    }

    fn add_spec(self, rhs: Self) -> Self {
        F(self.0 + rhs.0)
    }

    fn sub_spec(self, rhs: Self) -> Self {
        F(self.0 - rhs.0)
    }

    fn mul_spec(self, rhs: Self) -> Self {
        F(self.0 * rhs.0)
    }

    fn div_spec(self, rhs: Self) -> Self {
        F(self.0 / rhs.0)
    }

    fn neg_spec(self) -> Self {
        F(-self.0)
    }

    fn floor_spec(self) -> Self {
        F(self.0.floor())
    }

    fn to_i32_spec(self) -> Option<i32> {
        self.to_i32()
    }

    fn lt_spec(self, rhs: Self) -> bool {
        self.0 < rhs.0
    }

    fn le_spec(self, rhs: Self) -> bool {
        self.0 <= rhs.0
    }

    fn order_laws(_a: Self, _b: Self, _c: Self) {}

    fn zero() -> Self {
        F(0.0)
    }

    fn one() -> Self {
        F(1.0)
    }

    fn from_usize(n: usize) -> Self {
        F(n as f64)
    }

    fn add(self, rhs: Self) -> Self {
        F(self.0 + rhs.0)
    }

    fn sub(self, rhs: Self) -> Self {
        F(self.0 - rhs.0)
    }

    fn mul(self, rhs: Self) -> Self {
        F(self.0 * rhs.0)
    }

    fn div(self, rhs: Self) -> Self {
        F(self.0 / rhs.0)
    }

    fn neg(self) -> Self {
        F(-self.0)
    }

    fn floor(self) -> Self {
        F(self.0.floor())
    }

    fn to_i32(self) -> Option<i32> {
        // a float within this range truncates to a 32-bit integer
        if self.0 >= -2147483648.0 && self.0 < 2147483648.0 {
            Some(self.0 as i32)
        } else {
            None
        }
    }

    fn lt(self, rhs: Self) -> bool {
        self.0 < rhs.0
    }

    fn le(self, rhs: Self) -> bool {
        self.0 <= rhs.0
    }

    fn gt(self, rhs: Self) -> bool {
        self.0 > rhs.0
    }

    fn ge(self, rhs: Self) -> bool {
        self.0 >= rhs.0
    }
}

fn f3(a: [f64; 3]) -> [F; 3] {
    [F(a[0]), F(a[1]), F(a[2])]
}

fn vec3(a: [f64; 3]) -> Vec3<F> {
    Vec3::from_array(f3(a))
}

fn check_camera(camera: &PerspectiveCamera<F>) {
    assert_eq!(camera.get_u().norm(), F::one());
    assert_eq!(camera.get_v().norm(), F::one());
    assert_eq!(camera.get_w().norm(), F::one());
    assert_eq!(camera.get_u().dot(camera.get_v()), F::zero());
    assert_eq!(camera.get_u().dot(camera.get_w()), F::zero());
    assert_eq!(camera.get_v().dot(camera.get_w()), F::zero());
}

#[test]
fn perspective_init() {
    let camera = PerspectiveCamera::<F>::new();
    check_camera(&camera);
}

#[test]
fn perspective_set() {
    let mut camera = PerspectiveCamera::<F>::new();
    let position = f3([-2.0, 0.0, 0.0]);
    camera.set_position(&position);
    assert_eq!(camera.get_position().get_data(), position);
    check_camera(&camera);

    let direction = f3([2.0, 0.0, 0.0]);
    camera.set_direction(&direction);
    assert_eq!(camera.get_direction().get_data(), direction);
    check_camera(&camera);

    let up = f3([2.0, 4.0, 0.0]);
    camera.set_up(&up);
    assert_eq!(camera.get_up().get_data(), up);
    check_camera(&camera);

    assert_eq!(camera.get_w().get_data(), f3([1.0, 0.0, 0.0]));
    assert_eq!(camera.get_u().get_data(), f3([0.0, 0.0, 1.0]));
    assert_eq!(camera.get_v().get_data(), f3([0.0, -1.0, 0.0]));
}

#[test]
fn rays() {
    let mut camera = PerspectiveCamera::<F>::new();
    camera.set_fov(F(0.5 * std::f64::consts::PI));
    camera.set_aspect(F(2.0));
    camera.set_position(&f3([0., 0., -10.]));

    let lens = Vec3::new();
    let ray = camera.get_ray(F(0.0), F(1.0), &lens);
    assert_eq!(ray.get_origin().get_data(), camera.get_position().get_data());
    let ray = camera.get_ray(F(0.0), F(-1.0), &lens);
    assert_eq!(ray.get_origin().get_data(), camera.get_position().get_data());
    let ray = camera.get_ray(F(1.0), F(0.0), &lens);
    assert_eq!(ray.get_origin().get_data(), camera.get_position().get_data());
    let _ray = camera.get_ray(F(-1.0), F(0.0), &lens);
}

#[test]
fn new_camera_looks_down_the_negative_z_axis() {
    let camera = PerspectiveCamera::<F>::new();
    assert_eq!(camera.get_position().get_data(), f3([0.0, 0.0, 0.0]));
    assert_eq!(camera.get_direction().get_data(), f3([0.0, 0.0, -1.0]));
    assert_eq!(camera.get_lookat().get_data(), f3([0.0, 0.0, -1.0]));
    assert_eq!(camera.get_up().get_data(), f3([0.0, 1.0, 0.0]));
    assert_eq!(camera.get_w().get_data(), f3([0.0, 0.0, -1.0]));
    assert_eq!(camera.get_u().get_data(), f3([1.0, 0.0, 0.0]));
    assert_eq!(camera.get_v().get_data(), f3([0.0, -1.0, 0.0]));
    assert_eq!(camera.get_aperture(), F(0.0));
    assert_eq!(camera.get_focus(), F(1.0));
    assert_eq!(camera.get_aspect(), F(1.0));
    assert_eq!(camera.get_fov(), F(0.5 * 3.1415));
}

#[test]
fn look_at_turns_the_camera() {
    let mut camera = PerspectiveCamera::<F>::new();
    camera.set_position(&f3([0.0, 0.0, 5.0]));
    camera.set_lookat(&f3([3.0, 0.0, 5.0]));
    assert_eq!(camera.get_w().get_data(), f3([1.0, 0.0, 0.0]));
    assert_eq!(camera.get_u().get_data(), f3([0.0, 0.0, 1.0]));
    camera.set_focus(F(2.0));
    assert_eq!(camera.get_focus(), F(2.0));
    // the centre of the image lies in front of the camera
    let ray = camera.get_ray(F(0.0), F(0.0), &Vec3::new());
    assert_eq!(ray.get_origin().get_data(), f3([0.0, 0.0, 5.0]));
    assert_eq!(ray.get_direction().get_data(), f3([1.0, 0.0, 0.0]));
}

#[test]
fn aperture_moves_the_origin_of_the_ray() {
    let mut camera = PerspectiveCamera::<F>::new();
    camera.set_aperture(F(0.5));
    assert_eq!(camera.get_aperture(), F(0.5));
    let lens = vec3([1.0, 0.0, 0.0]);
    let ray = camera.get_ray(F(0.0), F(0.0), &lens);
    assert_eq!(ray.get_origin().get_data(), f3([0.25, 0.0, 0.0]));
    // the ray still aims at the centre of the image
    let direction = ray.get_direction().get_data();
    assert!(direction[0] < F(0.0));
    assert_eq!(direction[1], F(0.0));
    assert!(direction[2] < F(0.0));
    assert_eq!(direction[0].div(direction[2]), F(0.25));
}
