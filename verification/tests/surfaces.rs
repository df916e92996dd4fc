use ray_tracer::constants::Axis;
use ray_tracer::float::{Float, Number};
use ray_tracer::hit::Hit;
use ray_tracer::hitable::primitive::{Cube, Group, Rectangle, Sphere};
use ray_tracer::hitable::transform::Translation;
use ray_tracer::hitable::Hitable;
use ray_tracer::ray::Ray;
use ray_tracer::vector::Vec3;

/// Double precision IEEE 754 numbers as the scalar of the library.
#[derive(Clone, Copy, Debug, PartialEq, PartialOrd)]
struct F(f64);

impl Number for F {
    fn sqrt_spec(self) -> Self {
        F(self.0.sqrt())
    }

    fn tan_spec(self) -> Self {
        F(self.0.tan())
    }

    fn sqrt(&self) -> Self {
        F(self.0.sqrt())
    }

    fn tan(&self) -> Self {
        F(self.0.tan())
    }
}

impl Float for F {
    fn zero_spec() -> Self {
        F(0.0)
    }

    fn one_spec() -> Self {
        F(1.0)
    }

    fn from_usize_spec(n: usize) -> Self {
        F(n as f64)
    }

    fn add_spec(self, rhs: Self) -> Self {
        F(self.0 + rhs.0)
    }

    fn sub_spec(self, rhs: Self) -> Self {
        F(self.0 - rhs.0)
    }

    fn mul_spec(self, rhs: Self) -> Self {
        F(self.0 * rhs.0)
    }

    fn div_spec(self, rhs: Self) -> Self {
        F(self.0 / rhs.0)
    }

    fn neg_spec(self) -> Self {
        F(-self.0)
    }

    fn floor_spec(self) -> Self {
        F(self.0.floor())
    }

    fn to_i32_spec(self) -> Option<i32> {
        self.to_i32()
    }

    fn lt_spec(self, rhs: Self) -> bool {
        self.0 < rhs.0
    }

    fn le_spec(self, rhs: Self) -> bool {
        self.0 <= rhs.0
    }

    fn order_laws(_a: Self, _b: Self, _c: Self) {}

    fn zero() -> Self {
        F(0.0)
    }

    fn one() -> Self {
        F(1.0)
    }

    fn from_usize(n: usize) -> Self {
        F(n as f64)
    }

    fn add(self, rhs: Self) -> Self {
        F(self.0 + rhs.0)
    }

    fn sub(self, rhs: Self) -> Self {
        F(self.0 - rhs.0)
    }

    fn mul(self, rhs: Self) -> Self {
        F(self.0 * rhs.0)
    }

    fn div(self, rhs: Self) -> Self {
        F(self.0 / rhs.0)
    }

    fn neg(self) -> Self {
        F(-self.0)
    }

    fn floor(self) -> Self {
        F(self.0.floor())
    }

    fn to_i32(self) -> Option<i32> {
        // a float within this range truncates to a 32-bit integer
        if self.0 >= -2147483648.0 && self.0 < 2147483648.0 {
            Some(self.0 as i32)
        } else {
            None
        }
    }

    fn lt(self, rhs: Self) -> bool {
        self.0 < rhs.0
    }

    fn le(self, rhs: Self) -> bool {
        self.0 <= rhs.0
    }

    fn gt(self, rhs: Self) -> bool {
        self.0 > rhs.0
    }

    fn ge(self, rhs: Self) -> bool {
        self.0 >= rhs.0
    }
}

fn f3(a: [f64; 3]) -> [F; 3] {
    [F(a[0]), F(a[1]), F(a[2])]
}

fn vec3(a: [f64; 3]) -> Vec3<F> {
    Vec3::from_array(f3(a))
}

fn ray(origin: [f64; 3], direction: [f64; 3]) -> Ray<F> {
    Ray::from_array(f3(origin), f3(direction))
}

fn expect_hit(hit: Option<Hit<F>>, point: [f64; 3], normal: [f64; 3], t: f64) {
    match hit {
        Some(hit) => {
            assert_eq!(hit.point.get_data(), f3(point));
            assert_eq!(hit.normal.get_data(), f3(normal));
            assert_eq!(hit.t, F(t));
        }
        None => {
            assert!(false);
        }
    }
}

#[test]
fn sphere_init() {
    let sphere = Sphere::<F>::new(F(1.0));
    assert_eq!(sphere.get_radius(), F(1.0));

    let radius = F(5.5);
    let sphere = Sphere::<F>::new(radius);
    assert_eq!(sphere.get_radius(), F(5.5));
}

#[test]
fn sphere_set() {
    let mut sphere = Sphere::<F>::new(F(1.0));
    let radius = F(5.5);
    sphere.set_radius(radius);
    assert_eq!(sphere.get_radius(), F(5.5));
}

#[test]
fn sphere_hit() {
    let radius = F(2.0);
    let sphere = Sphere::<F>::new(radius);

    let origin = f3([-8.0, 0.0, 0.0]);
    let direction = f3([2.0, 0.0, 0.0]);
    let ray = Ray::from_array(origin, direction);
    let hit = sphere.hit(&ray, F(0.0), F(100.0));
    match hit {
        Some(hit) => {
            assert_eq!(hit.point.get_data(), f3([-2.0, 0.0, 0.0]));
            assert_eq!(hit.normal.get_data(), f3([-1.0, 0.0, 0.0]));
            assert_eq!(hit.t, F(3.0));
        }
        None => {
            assert!(false);
        }
    }

    let origin = f3([-8.0, 2.1, 0.0]);
    let direction = f3([2.0, 0.0, 0.0]);
    let ray = Ray::from_array(origin, direction);
    let hit = sphere.hit(&ray, F(0.0), F(100.0));
    match hit {
        Some(_hit) => {
            assert!(false);
        }
        None => {}
    }

    let origin = f3([-8.0, 0.0, 0.0]);
    let direction = f3([0.0, 2.0, 0.0]);
    let ray = Ray::from_array(origin, direction);
    let hit = sphere.hit(&ray, F(0.0), F(100.0));
    match hit {
        Some(_hit) => {
            assert!(false);
        }
        None => {}
    }
}

#[test]
fn sphere_bounds() {
    let radius = F(2.5);
    let sphere = Sphere::<F>::new(radius);
    let bounds = sphere.get_bounds();
    assert_eq!(bounds.get_p0().get_data(), f3([-2.5, -2.5, -2.5]));
    assert_eq!(bounds.get_p1().get_data(), f3([2.5, 2.5, 2.5]));
}

#[test]
fn sphere_bounds_follow_the_radius() {
    let mut sphere = Sphere::<F>::new(F(1.0));
    sphere.set_radius(F(4.0));
    assert_eq!(sphere.get_bounds().get_p0().get_data(), f3([-4.0, -4.0, -4.0]));
    assert_eq!(sphere.get_bounds().get_p1().get_data(), f3([4.0, 4.0, 4.0]));
    assert!(sphere.is_primitive());
    let sphere = Box::new(sphere).unwrap();
    assert_eq!(sphere.get_radius(), F(4.0));
}

#[test]
fn sphere_prefers_the_near_root_inside_the_interval() {
    let sphere = Sphere::<F>::new(F(2.0));
    let r = ray([-8.0, 0.0, 0.0], [2.0, 0.0, 0.0]);
    // both roots inside: the nearer one
    expect_hit(sphere.hit(&r, F(0.0), F(100.0)), [-2.0, 0.0, 0.0], [-1.0, 0.0, 0.0], 3.0);
    // the nearer root lies before the interval: the farther one
    expect_hit(sphere.hit(&r, F(3.5), F(100.0)), [2.0, 0.0, 0.0], [1.0, 0.0, 0.0], 5.0);
    // the lower end belongs to the interval, the upper end does not
    expect_hit(sphere.hit(&r, F(3.0), F(100.0)), [-2.0, 0.0, 0.0], [-1.0, 0.0, 0.0], 3.0);
    assert!(sphere.hit(&r, F(0.0), F(3.0)).is_none());
    assert!(sphere.hit(&r, F(3.5), F(5.0)).is_none());
    // neither root inside
    assert!(sphere.hit(&r, F(5.5), F(100.0)).is_none());
}

#[test]
fn sphere_degenerate_rays_miss() {
    let sphere = Sphere::<F>::new(F(2.0));
    // a tangent ray has a zero discriminant
    assert!(sphere.hit(&ray([-8.0, 2.0, 0.0], [2.0, 0.0, 0.0]), F(0.0), F(100.0)).is_none());
    // a ray without direction
    assert!(sphere.hit(&ray([-8.0, 0.0, 0.0], [0.0, 0.0, 0.0]), F(0.0), F(100.0)).is_none());
    assert!(sphere.hit(&ray([0.0, 0.0, 0.0], [0.0, 0.0, 0.0]), F(0.0), F(100.0)).is_none());
}

#[test]
fn rectangle_init() {
    let width = F(2.0);
    let width_axis = Axis::X;

    let height = F(4.0);
    let height_axis = Axis::Y;

    let rectangle = Rectangle::<F>::new(width, width_axis, height, height_axis);
    let normal = rectangle.get_normal();
    assert_eq!(normal.get_data(), f3([0.0, 0.0, 1.0]));

    let width = F(3.0);
    let width_axis = Axis::X;

    let height = F(5.0);
    let height_axis = Axis::Z;

    let rectangle = Rectangle::<F>::new(width, width_axis, height, height_axis);
    let normal = rectangle.get_normal();
    assert_eq!(normal.get_data(), f3([0.0, -1.0, 0.0]));

    let width = F(2.0);
    let width_axis = Axis::Y;

    let height = F(4.0);
    let height_axis = Axis::Z;

    let rectangle = Rectangle::<F>::new(width, width_axis, height, height_axis);
    let normal = rectangle.get_normal();
    assert_eq!(normal.get_data(), f3([1.0, 0.0, 0.0]));
}

#[test]
fn rectangle_hit() {
    let width = F(2.0);
    let width_axis = Axis::X;
    let height = F(4.0);
    let height_axis = Axis::Y;
    let rectangle = Rectangle::<F>::new(width, width_axis, height, height_axis);

    let origin = f3([0.0, 0.0, 8.0]);
    let direction = f3([0.0, 0.0, -2.0]);
    let ray = Ray::from_array(origin, direction);
    let hit = rectangle.hit(&ray, F(0.0), F(100.0));

    match hit {
        Some(hit) => {
            assert_eq!(hit.point.get_data(), f3([0.0, 0.0, 0.0]));
            assert_eq!(hit.normal.get_data(), f3([0.0, 0.0, 1.0]));
            assert_eq!(hit.t, F(4.0));
        }
        None => {
            assert!(false);
        }
    }

    let origin = f3([0.5, 1.5, -8.0]);
    let direction = f3([0.0, 0.0, 2.0]);
    let ray = Ray::from_array(origin, direction);
    let hit = rectangle.hit(&ray, F(0.0), F(100.0));

    match hit {
        Some(hit) => {
            assert_eq!(hit.point.get_data(), f3([0.5, 1.5, 0.0]));
            assert_eq!(hit.normal.get_data(), f3([0.0, 0.0, 1.0]));
            assert_eq!(hit.t, F(4.0));
        }
        None => {
            assert!(false);
        }
    }

    let origin = f3([1.0001, 2.0001, 8.0]);
    let direction = f3([0.0, 0.0, -2.0]);
    let ray = Ray::from_array(origin, direction);

    if let Some(_hit) = rectangle.hit(&ray, F(0.0), F(100.0)) {
        assert!(false);
    };
}

#[test]
fn rectangle_bounds() {
    let width = F(2.0);
    let width_axis = Axis::X;

    let height = F(4.0);
    let height_axis = Axis::Y;

    let rectangle = Rectangle::<F>::new(width, width_axis, height, height_axis);
    let bounds = rectangle.get_bounds();
    assert_eq!(bounds.get_p0().get_data(), f3([-1.0, -2.0, 0.0]));
    assert_eq!(bounds.get_p1().get_data(), f3([1.0, 2.0, 0.0]));

    let width = F(3.0);
    let width_axis = Axis::X;

    let height = F(5.0);
    let height_axis = Axis::Z;

    let rectangle = Rectangle::<F>::new(width, width_axis, height, height_axis);
    let bounds = rectangle.get_bounds();
    assert_eq!(bounds.get_p0().get_data(), f3([-1.5, 0.0, -2.5]));
    assert_eq!(bounds.get_p1().get_data(), f3([1.5, 0.0, 2.5]));

    let width = F(2.0);
    let width_axis = Axis::Y;

    let height = F(4.0);
    let height_axis = Axis::Z;

    let rectangle = Rectangle::<F>::new(width, width_axis, height, height_axis);
    let bounds = rectangle.get_bounds();
    assert_eq!(bounds.get_p0().get_data(), f3([0.0, -1.0, -2.0]));
    assert_eq!(bounds.get_p1().get_data(), f3([0.0, 1.0, 2.0]));
}

#[test]
fn rectangle_normal_follows_the_right_hand_rule() {
    let cases = [
        (Axis::X, Axis::Y, [0.0, 0.0, 1.0]),
        (Axis::Y, Axis::X, [0.0, 0.0, -1.0]),
        (Axis::Y, Axis::Z, [1.0, 0.0, 0.0]),
        (Axis::Z, Axis::Y, [-1.0, 0.0, 0.0]),
        (Axis::Z, Axis::X, [0.0, 1.0, 0.0]),
        (Axis::X, Axis::Z, [0.0, -1.0, 0.0]),
    ];
    for (width_axis, height_axis, normal) in cases {
        let rectangle = Rectangle::<F>::new(F(2.0), width_axis, F(4.0), height_axis);
        assert_eq!(rectangle.get_normal().get_data(), f3(normal));
        assert!(rectangle.is_primitive());
    }
}

#[test]
fn rectangle_interval_is_open_below_and_closed_above() {
    let rectangle = Rectangle::<F>::new(F(2.0), Axis::X, F(4.0), Axis::Y);
    let r = ray([0.0, 0.0, 8.0], [0.0, 0.0, -2.0]);
    expect_hit(rectangle.hit(&r, F(0.0), F(4.0)), [0.0, 0.0, 0.0], [0.0, 0.0, 1.0], 4.0);
    assert!(rectangle.hit(&r, F(4.0), F(100.0)).is_none());
    assert!(rectangle.hit(&r, F(0.0), F(3.5)).is_none());
    // the edge belongs to the rectangle
    let r = ray([1.0, 2.0, 8.0], [0.0, 0.0, -2.0]);
    expect_hit(rectangle.hit(&r, F(0.0), F(100.0)), [1.0, 2.0, 0.0], [0.0, 0.0, 1.0], 4.0);
    let r = ray([1.5, 0.0, 8.0], [0.0, 0.0, -2.0]);
    assert!(rectangle.hit(&r, F(0.0), F(100.0)).is_none());
    let r = ray([0.0, -2.5, 8.0], [0.0, 0.0, -2.0]);
    assert!(rectangle.hit(&r, F(0.0), F(100.0)).is_none());
    // a ray parallel to the plane of the rectangle never crosses it
    let r = ray([8.0, 0.0, 1.0], [-2.0, 0.0, 0.0]);
    assert!(rectangle.hit(&r, F(0.0), F(100.0)).is_none());
    let r = ray([8.0, 0.0, -1.0], [-2.0, 0.0, 0.0]);
    assert!(rectangle.hit(&r, F(0.0), F(100.0)).is_none());
}

#[test]
fn cube_init() {
    let length = F(2.0);
    let width = F(2.0);
    let height = F(4.0);
    let _cube = Cube::<F>::new(length, width, height);
}

#[test]
fn cube_hit() {
    let length = F(2.0);
    let width = F(4.0);
    let height = F(6.0);
    let cube = Cube::<F>::new(length, width, height);

    // Hit YZ faces
    let origin = f3([-8.0, 0.0, 0.0]);
    let direction = f3([2.0, 0.0, 0.0]);
    let ray = Ray::from_array(origin, direction);
    let hit = cube.hit(&ray, F(0.0), F(100.0));

    match hit {
        Some(hit) => {
            assert_eq!(hit.point.get_data(), f3([-1.0, 0.0, 0.0]));
            assert_eq!(hit.normal.get_data(), f3([-1.0, 0.0, 0.0]));
            assert_eq!(hit.t, F(3.5));
        }
        None => {
            assert!(false);
        }
    }

    let origin = f3([8.0, 0.0, 0.0]);
    let direction = f3([-2.0, 0.0, 0.0]);
    let ray = Ray::from_array(origin, direction);
    let hit = cube.hit(&ray, F(0.0), F(100.0));

    match hit {
        Some(hit) => {
            assert_eq!(hit.point.get_data(), f3([1.0, 0.0, 0.0]));
            assert_eq!(hit.normal.get_data(), f3([1.0, 0.0, 0.0]));
            assert_eq!(hit.t, F(3.5));
        }
        None => {
            assert!(false);
        }
    }

    // Hit XZ faces
    let origin = f3([0.0, -8.0, 0.0]);
    let direction = f3([0.0, 2.0, 0.0]);
    let ray = Ray::from_array(origin, direction);
    let hit = cube.hit(&ray, F(0.0), F(100.0));

    match hit {
        Some(hit) => {
            assert_eq!(hit.point.get_data(), f3([0.0, -2.0, 0.0]));
            assert_eq!(hit.normal.get_data(), f3([0.0, -1.0, 0.0]));
            assert_eq!(hit.t, F(3.0));
        }
        None => {
            assert!(false);
        }
    }

    let origin = f3([0.0, 8.0, 0.0]);
    let direction = f3([0.0, -2.0, 0.0]);
    let ray = Ray::from_array(origin, direction);
    let hit = cube.hit(&ray, F(0.0), F(100.0));

    match hit {
        Some(hit) => {
            assert_eq!(hit.point.get_data(), f3([0.0, 2.0, 0.0]));
            assert_eq!(hit.normal.get_data(), f3([0.0, 1.0, 0.0]));
            assert_eq!(hit.t, F(3.0));
        }
        None => {
            assert!(false);
        }
    }

    // Hit XY faces
    let origin = f3([0.0, 0.0, 8.0]);
    let direction = f3([0.0, 0.0, -2.0]);
    let ray = Ray::from_array(origin, direction);
    let hit = cube.hit(&ray, F(0.0), F(100.0));

    match hit {
        Some(hit) => {
            assert_eq!(hit.point.get_data(), f3([0.0, 0.0, 3.0]));
            assert_eq!(hit.normal.get_data(), f3([0.0, 0.0, 1.0]));
            assert_eq!(hit.t, F(2.5));
        }
        None => {
            assert!(false);
        }
    }

    let origin = f3([0.0, 0.0, -8.0]);
    let direction = f3([0.0, 0.0, 2.0]);
    let ray = Ray::from_array(origin, direction);
    let hit = cube.hit(&ray, F(0.0), F(100.0));

    match hit {
        Some(hit) => {
            assert_eq!(hit.point.get_data(), f3([0.0, 0.0, -3.0]));
            assert_eq!(hit.normal.get_data(), f3([0.0, 0.0, -1.0]));
            assert_eq!(hit.t, F(2.5));
        }
        None => {
            assert!(false);
        }
    }

    // Hit nothing
    let origin = f3([-8.0, 0.0, 0.0]);
    let direction = f3([-2.0, 0.0, 0.0]);
    let ray = Ray::from_array(origin, direction);
    let hit = cube.hit(&ray, F(0.0), F(100.0));

    if let Some(_hit) = hit {
        assert!(false);
    }

    let origin = f3([-8.0, 2.001, 3.001]);
    let direction = f3([2.0, 0.0, 0.0]);
    let ray = Ray::from_array(origin, direction);
    let hit = cube.hit(&ray, F(0.0), F(100.0));

    if let Some(_hit) = hit {
        assert!(false);
    }
}

#[test]
fn cube_bounds() {
    let length = F(2.0);
    let width = F(4.0);
    let height = F(6.0);
    let cube = Cube::<F>::new(length, width, height);
    let bounds = cube.get_bounds();
    assert_eq!(bounds.get_p0().get_data(), f3([-1.0, -2.0, -3.0]));
    assert_eq!(bounds.get_p1().get_data(), f3([1.0, 2.0, 3.0]));
}

#[test]
fn translation_init() {
    let hitable = Box::new(Sphere::new(F(2.0)));
    assert!(hitable.is_primitive());

    let translation = vec3([1.0, 2.0, 3.0]);
    let hitable = Translation::new(hitable, translation);
    assert!(!hitable.is_primitive());
}

#[test]
fn translation_bounds() {
    let hitable = Box::new(Sphere::new(F(2.0)));
    {
        let bounds = hitable.get_bounds();
        assert_eq!(bounds.get_p0().get_data(), &f3([-2.0, -2.0, -2.0]));
        assert_eq!(bounds.get_p1().get_data(), &f3([2.0, 2.0, 2.0]));
    }

    let translation = vec3([1.0, 2.0, 3.0]);
    let hitable = Translation::new(hitable, translation);
    {
        let bounds = hitable.get_bounds();
        assert_eq!(bounds.get_p0().get_data(), &f3([-1.0, 0.0, 1.0]));
        assert_eq!(bounds.get_p1().get_data(), &f3([3.0, 4.0, 5.0]));
    }
}

#[test]
fn translation_hit() {
    let origin = f3([3.0, 0.0, 10.0]);
    let direction = f3([0.0, 0.0, -1.0]);
    let ray = Ray::from_array(origin, direction);

    let hitable = Box::new(Sphere::new(F(2.0)));

    if let Some(_) = hitable.hit(&ray, F(0.0), F(1000.0)) {
        assert!(false);
    }

    let translation = vec3([3.0, 0.0, 2.0]);
    let hitable = Translation::new(hitable, translation);

    match hitable.hit(&ray, F(0.0), F(1000.0)) {
        Some(hit) => {
            assert_eq!(hit.point.get_data(), &f3([3.0, 0.0, 4.0]));
            assert_eq!(hit.normal.get_data(), &f3([0.0, 0.0, 1.0]));
            assert_eq!(hit.t, F(6.0));
        }
        None => {
            assert!(false);
        }
    };
}

#[test]
fn unwrap() {
    let hitable = Box::new(Sphere::new(F(2.0)));

    let translation = vec3([1.0, 2.0, 3.0]);
    let hitable = Box::new(Translation::new(hitable, translation));

    let translation = vec3([-1.0, -2.0, -3.0]);
    let hitable = Box::new(Translation::new(hitable, translation));

    {
        let bounds = hitable.get_bounds();
        assert_eq!(bounds.get_p0().get_data(), &f3([-2.0, -2.0, -2.0]));
        assert_eq!(bounds.get_p1().get_data(), &f3([2.0, 2.0, 2.0]));
    }

    assert!(!hitable.is_primitive());
    let hitable = hitable.unwrap();
    assert!(!hitable.is_primitive());
    let hitable = hitable.unwrap();
    assert!(hitable.is_primitive());
    assert_eq!(hitable.get_radius(), F(2.0));
}

#[test]
fn translation_round_trip() {
    let offsets = [[3.0, 0.0, 2.0], [-1.5, 4.0, 0.25], [0.0, 0.0, 0.0]];
    let rays = [
        ([3.0, 0.0, 10.0], [0.0, 0.0, -1.0]),
        ([-8.0, 0.5, 0.25], [2.0, 0.0, 0.0]),
        ([-9.5, 4.5, 0.5], [2.0, 0.0, 0.0]),
        ([1.0, 1.0, 1.0], [0.0, 1.0, 0.0]),
    ];
    for offset in offsets {
        let moved = Translation::new(Box::new(Sphere::new(F(2.0))), vec3(offset));
        let plain = Sphere::new(F(2.0));
        for (origin, direction) in rays {
            let world = ray(origin, direction);
            let local = Ray::from_vec(&vec3(origin) - &vec3(offset), vec3(direction));
            match (moved.hit(&world, F(0.0), F(1000.0)), plain.hit(&local, F(0.0), F(1000.0))) {
                (Some(a), Some(b)) => {
                    assert_eq!(a.point.get_data(), (&b.point + &vec3(offset)).get_data());
                    assert_eq!(a.normal.get_data(), b.normal.get_data());
                    assert_eq!(a.t, b.t);
                }
                (None, None) => {}
                _ => {
                    assert!(false);
                }
            }
        }
    }
}

#[test]
fn compute_bounds_moves_both_corners() {
    let sphere = Sphere::new(F(1.0));
    let moved = Translation::<F, Sphere<F>>::compute_bounds(
        sphere.get_bounds(),
        &vec3([10.0, -10.0, 0.5]),
    );
    assert_eq!(moved.get_p0().get_data(), f3([9.0, -11.0, -0.5]));
    assert_eq!(moved.get_p1().get_data(), f3([11.0, -9.0, 1.5]));
}

#[test]
fn group_returns_the_nearest_member() {
    let mut group = Group::new();
    assert_eq!(group.get_bounds().get_p0().get_data(), f3([0.0, 0.0, 0.0]));
    assert_eq!(group.get_bounds().get_p1().get_data(), f3([0.0, 0.0, 0.0]));
    let r = ray([-20.0, 0.0, 0.0], [1.0, 0.0, 0.0]);
    assert!(group.hit(&r, F(0.0), F(100.0)).is_none());

    // added far to near, so that every member replaces the hit before it
    for x in [8.0, 2.0, -4.0] {
        let member = Translation::new(Box::new(Sphere::new(F(1.0))), vec3([x, 0.0, 0.0]));
        group.add_hitable(Box::new(member));
    }
    assert_eq!(group.get_bounds().get_p0().get_data(), f3([-5.0, -1.0, -1.0]));
    assert_eq!(group.get_bounds().get_p1().get_data(), f3([9.0, 1.0, 1.0]));
    expect_hit(group.hit(&r, F(0.0), F(100.0)), [-5.0, 0.0, 0.0], [-1.0, 0.0, 0.0], 15.0);
    // a bound that excludes the nearest member leaves none, since every hit lies behind it
    assert!(group.hit(&r, F(0.0), F(15.0)).is_none());
    // a lower end behind the first member finds the second
    expect_hit(group.hit(&r, F(17.5), F(100.0)), [1.0, 0.0, 0.0], [-1.0, 0.0, 0.0], 21.0);
    assert!(group.is_primitive());

    // near to far gives the same hit
    let mut group = Group::new();
    for x in [-4.0, 2.0, 8.0] {
        let member = Translation::new(Box::new(Sphere::new(F(1.0))), vec3([x, 0.0, 0.0]));
        group.add_hitable(Box::new(member));
    }
    expect_hit(group.hit(&r, F(0.0), F(100.0)), [-5.0, 0.0, 0.0], [-1.0, 0.0, 0.0], 15.0);
}

#[test]
fn cube_faces_point_outward() {
    let cube = Cube::<F>::new(F(2.0), F(4.0), F(6.0));
    assert!(cube.is_primitive());
    // from inside, the ray leaves through the face in front of it
    expect_hit(cube.hit(&ray([0.0, 0.0, 0.0], [1.0, 0.0, 0.0]), F(0.0), F(100.0)),
        [1.0, 0.0, 0.0], [1.0, 0.0, 0.0], 1.0);
    expect_hit(cube.hit(&ray([0.0, 0.0, 0.0], [0.0, 0.0, -1.0]), F(0.0), F(100.0)),
        [0.0, 0.0, -3.0], [0.0, 0.0, -1.0], 3.0);
}

#[test]
fn rectangle_misses_a_ray_in_its_plane() {
    let rectangle = Rectangle::<F>::new(F(2.0), Axis::X, F(4.0), Axis::Y);
    // the parameter of the crossing is no number
    let r = ray([0.0, 0.0, 0.0], [1.0, 0.0, 0.0]);
    assert!(rectangle.hit(&r, F(0.0), F(100.0)).is_none());
    let r = ray([8.0, 0.0, 0.0], [-2.0, 0.0, 0.0]);
    assert!(rectangle.hit(&r, F(0.0), F(100.0)).is_none());
    let r = ray([0.5, -1.0, 0.0], [0.0, 1.0, 0.0]);
    assert!(rectangle.hit(&r, F(-100.0), F(100.0)).is_none());
    // a ray without direction that starts off the plane
    let r = ray([0.0, 0.0, 1.0], [0.0, 0.0, 0.0]);
    assert!(rectangle.hit(&r, F(0.0), F(100.0)).is_none());
    // so a cube is missed by a ray that runs in the plane of a face
    let cube = Cube::<F>::new(F(2.0), F(4.0), F(6.0));
    let r = ray([-8.0, 5.0, 3.0], [1.0, 0.0, 0.0]);
    assert!(cube.hit(&r, F(0.0), F(100.0)).is_none());
}

#[test]
fn group_box_is_the_union_of_its_members() {
    let mut group = Group::new();
    group.add_hitable(Box::new(Translation::new(Box::new(Sphere::new(F(1.0))), vec3([5.0, 0.0, 0.0]))));
    assert_eq!(group.get_bounds().get_p0().get_data(), f3([4.0, -1.0, -1.0]));
    assert_eq!(group.get_bounds().get_p1().get_data(), f3([6.0, 1.0, 1.0]));
    expect_hit(
        group.hit(&ray([5.0, 0.0, 20.0], [0.0, 0.0, -1.0]), F(0.0), F(100.0)),
        [5.0, 0.0, 1.0],
        [0.0, 0.0, 1.0],
        19.0,
    );
    group.add_hitable(Box::new(Translation::new(Box::new(Sphere::new(F(0.5))), vec3([5.0, 3.0, 0.0]))));
    assert_eq!(group.get_bounds().get_p0().get_data(), f3([4.0, -1.0, -1.0]));
    assert_eq!(group.get_bounds().get_p1().get_data(), f3([6.0, 3.5, 1.0]));
}
