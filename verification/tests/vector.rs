use ray_tracer::float::{Float, Number};
use ray_tracer::vector::Vec3;

/// Double precision IEEE 754 numbers as the scalar of the library.
#[derive(Clone, Copy, Debug, PartialEq, PartialOrd)]
struct F(f64);

impl Number for F {
    fn sqrt_spec(self) -> Self {
        F(self.0.sqrt())
    }

    fn tan_spec(self) -> Self {
        F(self.0.tan())
    }

    fn sqrt(&self) -> Self {
        F(self.0.sqrt())
    }

    fn tan(&self) -> Self {
        F(self.0.tan())
    }
}

impl Float for F {
    fn zero_spec() -> Self {
        F(0.0)
    }

    fn one_spec() -> Self {
        F(1.0)
    }

    fn from_usize_spec(n: usize) -> Self {
        F(n as f64)
    }

    fn add_spec(self, rhs: Self) -> Self {
        F(self.0 + rhs.0)
    }

    fn sub_spec(self, rhs: Self) -> Self {
        F(self.0 - rhs.0)
    }

    fn mul_spec(self, rhs: Self) -> Self {
        F(self.0 * rhs.0)
    }

    fn div_spec(self, rhs: Self) -> Self {
        F(self.0 / rhs.0)
    }

    fn neg_spec(self) -> Self {
        F(-self.0)
    }

    fn floor_spec(self) -> Self {
        F(self.0.floor())
    }

    fn to_i32_spec(self) -> Option<i32> {
        self.to_i32()
    }

    fn lt_spec(self, rhs: Self) -> bool {
        self.0 < rhs.0
    }

    fn le_spec(self, rhs: Self) -> bool {
        self.0 <= rhs.0
    }

    fn order_laws(_a: Self, _b: Self, _c: Self) {}

    fn zero() -> Self {
        F(0.0)
    }

    fn one() -> Self {
        F(1.0)
    }

    fn from_usize(n: usize) -> Self {
        F(n as f64)
    }

    fn add(self, rhs: Self) -> Self {
        F(self.0 + rhs.0)
    }

    fn sub(self, rhs: Self) -> Self {
        F(self.0 - rhs.0)
    }

    fn mul(self, rhs: Self) -> Self {
        F(self.0 * rhs.0)
    }

    fn div(self, rhs: Self) -> Self {
        F(self.0 / rhs.0)
    }

    fn neg(self) -> Self {
        F(-self.0)
    }

    fn floor(self) -> Self {
        F(self.0.floor())
    }

    fn to_i32(self) -> Option<i32> {
        // a float within this range truncates to a 32-bit integer
        if self.0 >= -2147483648.0 && self.0 < 2147483648.0 {
            Some(self.0 as i32)
        } else {
            None
        }
    }

    fn lt(self, rhs: Self) -> bool {
        self.0 < rhs.0
    }

    fn le(self, rhs: Self) -> bool {
        self.0 <= rhs.0
    }

    fn gt(self, rhs: Self) -> bool {
        self.0 > rhs.0
    }

    fn ge(self, rhs: Self) -> bool {
        self.0 >= rhs.0
    }
}

impl std::ops::Mul<Vec3<F>> for F {
    type Output = Vec3<F>;

    fn mul(self, other: Vec3<F>) -> Vec3<F> {
        other * self
    }
}

impl std::ops::Mul<&Vec3<F>> for F {
    type Output = Vec3<F>;

    fn mul(self, other: &Vec3<F>) -> Vec3<F> {
        other * self
    }
}

/// Single precision IEEE 754 numbers as the scalar of the library.
#[derive(Clone, Copy, Debug, PartialEq, PartialOrd)]
struct S(f32);

impl Number for S {
    fn sqrt_spec(self) -> Self {
        S(self.0.sqrt())
    }

    fn tan_spec(self) -> Self {
        S(self.0.tan())
    }

    fn sqrt(&self) -> Self {
        S(self.0.sqrt())
    }

    fn tan(&self) -> Self {
        S(self.0.tan())
    }
}

impl Float for S {
    fn zero_spec() -> Self {
        S(0.0)
    }

    fn one_spec() -> Self {
        S(1.0)
    }

    fn from_usize_spec(n: usize) -> Self {
        S(n as f32)
    }

    fn add_spec(self, rhs: Self) -> Self {
        S(self.0 + rhs.0)
    }

    fn sub_spec(self, rhs: Self) -> Self {
        S(self.0 - rhs.0)
    }

    fn mul_spec(self, rhs: Self) -> Self {
        S(self.0 * rhs.0)
    }

    fn div_spec(self, rhs: Self) -> Self {
        S(self.0 / rhs.0)
    }

    fn neg_spec(self) -> Self {
        S(-self.0)
    }

    fn floor_spec(self) -> Self {
        S(self.0.floor())
    }

    fn to_i32_spec(self) -> Option<i32> {
        self.to_i32()
    }

    fn lt_spec(self, rhs: Self) -> bool {
        self.0 < rhs.0
    }

    fn le_spec(self, rhs: Self) -> bool {
        self.0 <= rhs.0
    }

    fn order_laws(_a: Self, _b: Self, _c: Self) {}

    fn zero() -> Self {
        S(0.0)
    }

    fn one() -> Self {
        S(1.0)
    }

    fn from_usize(n: usize) -> Self {
        S(n as f32)
    }

    fn add(self, rhs: Self) -> Self {
        S(self.0 + rhs.0)
    }

    fn sub(self, rhs: Self) -> Self {
        S(self.0 - rhs.0)
    }

    fn mul(self, rhs: Self) -> Self {
        S(self.0 * rhs.0)
    }

    fn div(self, rhs: Self) -> Self {
        S(self.0 / rhs.0)
    }

    fn neg(self) -> Self {
        S(-self.0)
    }

    fn floor(self) -> Self {
        S(self.0.floor())
    }

    fn to_i32(self) -> Option<i32> {
        // a float within this range truncates to a 32-bit integer
        if self.0 >= -2147483648.0 && self.0 < 2147483648.0 {
            Some(self.0 as i32)
        } else {
            None
        }
    }

    fn lt(self, rhs: Self) -> bool {
        self.0 < rhs.0
    }

    fn le(self, rhs: Self) -> bool {
        self.0 <= rhs.0
    }

    fn gt(self, rhs: Self) -> bool {
        self.0 > rhs.0
    }

    fn ge(self, rhs: Self) -> bool {
        self.0 >= rhs.0
    }
}

impl std::ops::Mul<Vec3<S>> for S {
    type Output = Vec3<S>;

    fn mul(self, other: Vec3<S>) -> Vec3<S> {
        other * self
    }
}

impl std::ops::Mul<&Vec3<S>> for S {
    type Output = Vec3<S>;

    fn mul(self, other: &Vec3<S>) -> Vec3<S> {
        other * self
    }
}

fn f3(a: [f64; 3]) -> [F; 3] {
    [F(a[0]), F(a[1]), F(a[2])]
}

fn s3(a: [f32; 3]) -> [S; 3] {
    [S(a[0]), S(a[1]), S(a[2])]
}

fn fv(a: Vec<f64>) -> Vec<F> {
    a.into_iter().map(F).collect()
}

fn sv(a: Vec<f32>) -> Vec<S> {
    a.into_iter().map(S).collect()
}

#[test]
fn mod_init() {
    let v = Vec3::<F>::new();
    assert_eq!(v.get_data(), f3([0.0, 0.0, 0.0]));

    let data = fv(vec![1.0, 2.0, 3.0]);
    let v = Vec3::<F>::from_slice(&data);
    assert_eq!(v.get_data(), f3([1.0, 2.0, 3.0]));

    let data = f3([4.0, 5.0, 6.0]);
    let v = Vec3::<F>::from_array(data);
    assert_eq!(v.get_data(), f3([4.0, 5.0, 6.0]));
}

#[test]
fn add() {
    let data = fv(vec![1.0, 2.0, 3.0]);
    let v1 = Vec3::<F>::from_slice(&data);
    let data = fv(vec![2.0, 4.0, 6.0]);
    let v2 = Vec3::<F>::from_slice(&data);

    let v3 = &v1 + &v2;
    assert_eq!(v3.get_data(), f3([3.0, 6.0, 9.0]));

    let mut v4 = &v1 + &v2 + &v3;
    assert_eq!(v4.get_data(), f3([6.0, 12.0, 18.0]));

    v4 = &v1 + (&v2 + &v3);
    assert_eq!(v4.get_data(), f3([6.0, 12.0, 18.0]));

    v4 = (&v1 + &v2) + &v3;
    assert_eq!(v4.get_data(), f3([6.0, 12.0, 18.0]));

    v4 = &v1 + (&v2 + &v3) + &v1;
    assert_eq!(v4.get_data(), f3([7.0, 14.0, 21.0]));

    v4 = (&v1 + &v2) + (&v3 + &v1);
    assert_eq!(v4.get_data(), f3([7.0, 14.0, 21.0]));
}

#[test]
fn sub() {
    let data = fv(vec![1.0, 2.0, 3.0]);
    let v1 = Vec3::<F>::from_slice(&data);
    let data = fv(vec![2.0, 4.0, 6.0]);
    let v2 = Vec3::<F>::from_slice(&data);

    let v3 = &v1 - &v2;
    assert_eq!(v3.get_data(), f3([-1.0, -2.0, -3.0]));

    let mut v4 = &v1 - &v2 - &v3;
    assert_eq!(v4.get_data(), f3([0.0, 0.0, 0.0]));

    v4 = &v1 - (&v2 - &v3);
    assert_eq!(v4.get_data(), f3([-2.0, -4.0, -6.0]));

    v4 = (&v1 - &v2) - &v3;
    assert_eq!(v4.get_data(), f3([0.0, 0.0, 0.0]));

    v4 = &v1 - (&v2 - &v3) - &v1;
    assert_eq!(v4.get_data(), f3([-3.0, -6.0, -9.0]));

    v4 = (&v1 - &v2) - (&v3 - &v1);
    assert_eq!(v4.get_data(), f3([1.0, 2.0, 3.0]));
}

#[test]
fn mul() {
    let data = fv(vec![1.0, 2.0, 3.0]);
    let v1 = Vec3::<F>::from_slice(&data);
    let data = sv(vec![2.0, 4.0, 6.0]);
    let v2 = Vec3::<S>::from_slice(&data);

    let mut v3 = F(3.0) * &v1;
    assert_eq!(v3.get_data(), f3([3.0, 6.0, 9.0]));

    v3 = &v1 * F(3.0);
    assert_eq!(v3.get_data(), f3([3.0, 6.0, 9.0]));

    v3 = (&v1 * F(2.0)) * F(3.0);
    assert_eq!(v3.get_data(), f3([6.0, 12.0, 18.0]));

    v3 = F(3.0) * (&v1 * F(2.0));
    assert_eq!(v3.get_data(), f3([6.0, 12.0, 18.0]));

    let mut v4 = &v2 * S(4.0);
    assert_eq!(v4.get_data(), s3([8.0, 16.0, 24.0]));

    v4 = S(4.0) * &v2;
    assert_eq!(v4.get_data(), s3([8.0, 16.0, 24.0]));

    v4 = (&v2 * S(2.0)) * S(4.0);
    assert_eq!(v4.get_data(), s3([16.0, 32.0, 48.0]));

    v4 = S(4.0) * (&v2 * S(2.0));
    assert_eq!(v4.get_data(), s3([16.0, 32.0, 48.0]));
}

#[test]
fn div() {
    let data = fv(vec![1.0, 2.0, 3.0]);
    let v1 = Vec3::<F>::from_slice(&data);
    let data = fv(vec![2.0, 4.0, 6.0]);
    let v2 = Vec3::<F>::from_slice(&data);

    let mut v3 = &v1 / F(2.0);
    assert_eq!(v3.get_data(), f3([0.5, 1.0, 1.5]));

    v3 = &v2 / F(4.0);
    assert_eq!(v3.get_data(), f3([0.5, 1.0, 1.5]));

    v3 = (&v2 / F(2.0)) / F(2.0);
    assert_eq!(v3.get_data(), f3([0.5, 1.0, 1.5]));
}

#[test]
fn ops() {
    let data = fv(vec![1.0, 2.0, 3.0]);
    let v1 = Vec3::<F>::from_slice(&data);
    let data = fv(vec![2.0, 4.0, 6.0]);
    let v2 = Vec3::<F>::from_slice(&data);

    let mut v3 = F(4.0) * (&v1 * F(2.0) + &v2 - &v1) / F(2.0);
    assert_eq!(v3.get_data(), f3([6.0, 12.0, 18.0]));

    v3 = F(4.0) * (&v1 * F(2.0) + &v2 - &v1) * F(2.0) / F(2.0);
    assert_eq!(v3.get_data(), f3([12.0, 24.0, 36.0]));
}

#[test]
fn dot() {
    let data = fv(vec![1.0, 2.0, 3.0]);
    let v1 = Vec3::<F>::from_slice(&data);
    let data = fv(vec![2.0, 4.0, 6.0]);
    let v2 = Vec3::<F>::from_slice(&data);

    let mut d = v1.dot(&v1);
    assert_eq!(d, F(14.0));

    d = v2.dot(&v2);
    assert_eq!(d, F(56.0));

    d = v1.dot(&v2);
    assert_eq!(d, F(28.0));

    d = v2.dot(&v1);
    assert_eq!(d, F(28.0));

    d = (&v1 * F(0.5)).dot(&v2);
    assert_eq!(d, F(14.0));

    d = v1.dot(&(&v2 / F(2.0)));
    assert_eq!(d, F(14.0));
}

#[test]
fn cross() {
    let data = fv(vec![1.0, 0.0, 0.0]);
    let v1 = Vec3::<F>::from_slice(&data);
    let data = fv(vec![0.0, 1.0, 0.0]);
    let v2 = Vec3::<F>::from_slice(&data);
    let v3 = v1.cross(&v2);
    assert_eq!(v3.get_data(), f3([0.0, 0.0, 1.0]));

    let data = fv(vec![7.0, 3.0, -4.0]);
    let v1 = Vec3::<F>::from_slice(&data);
    let data = fv(vec![1.0, 0.0, 6.0]);
    let v2 = Vec3::<F>::from_slice(&data);
    let v3 = v1.cross(&v2);
    assert_eq!(v3.get_data(), f3([18.0, -46.0, -3.0]));
}

#[test]
fn norm() {
    let data = fv(vec![1.0, 2.0, 2.0]);
    let mut v1 = Vec3::<F>::from_slice(&data);
    assert_eq!(v1.norm(), F(3.0));
    v1.normalize();
    assert_eq!(v1.norm(), F(1.0));
}

#[test]
fn mod_set() {
    let mut v = Vec3::<F>::new();
    assert_eq!(v.get_data(), f3([0.0, 0.0, 0.0]));
    let data = f3([1.0, 2.0, 3.0]);
    v.set_data(&data);
    assert_eq!(v.get_data(), f3([1.0, 2.0, 3.0]));
}

#[test]
fn get_data_mut_writes_through() {
    let mut v = Vec3::<F>::new();
    v.get_data_mut()[1] = F(2.5);
    v.set(2, F(-1.0));
    assert_eq!(v.get_data(), f3([0.0, 2.5, -1.0]));
    assert_eq!(v.get(1), F(2.5));
    assert_eq!(v.copy().get_data(), f3([0.0, 2.5, -1.0]));
}

#[test]
fn elementwise_product() {
    let a = Vec3::from_array(f3([1.0, 2.0, 3.0]));
    let b = Vec3::from_array(f3([0.5, -1.0, 4.0]));
    assert_eq!((&a * &b).get_data(), f3([0.5, -2.0, 12.0]));
    assert_eq!(a.mul_vec(&b).get_data(), f3([0.5, -2.0, 12.0]));
}
