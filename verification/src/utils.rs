//! Reflection and refraction of directions, and the place of an axis in a vector.
//!
//! Wherever chance decides, the caller draws the number and hands it in: everything
//! here is a function of its arguments.
use vstd::prelude::*;
use crate::constants::{axis_index, Axis};
use crate::float::Float;
use crate::vector::{dot_spec, minus, scaled, Vec3};

verus! {

/// Two, as the scalar nearest to the integer.
pub open spec fn two<T: Float>() -> T {
    T::from_usize_spec(2)
}

/// The direction mirrored at the plane with the given normal:
/// `direction - normal * 2 * (direction . normal)`.
pub open spec fn reflected<T: Float>(direction: Seq<T>, normal: Seq<T>) -> Seq<T> {
    minus(direction, scaled(scaled(normal, two::<T>()), dot_spec(direction, normal)))
}

/// Schlick's estimate of the share of light that a surface of refractive index `n`
/// reflects: `r0 + (1 - r0) * (1 - cosine)^5` with `r0 = ((1 - n) / (1 + n))^2` and
/// `cosine = -n * (direction . normal)`.
pub open spec fn reflectance<T: Float>(direction: Seq<T>, normal: Seq<T>, n: T) -> T {
    let one = T::one_spec();
    let cosine = n.neg_spec().mul_spec(dot_spec(direction, normal));
    let root = one.sub_spec(n).div_spec(one.add_spec(n));
    let r0 = root.mul_spec(root);
    let base = one.sub_spec(cosine);
    let pow5 = base.mul_spec(base).mul_spec(base).mul_spec(base).mul_spec(base);
    r0.add_spec(one.sub_spec(r0).mul_spec(pow5))
}

/// The discriminant of Snell's law for a passage from index `n0` to index `n1`:
/// `1 - ratio^2 * (1 - c^2)` with `ratio = n0 / n1` and `c = direction . normal`.
pub open spec fn refraction_discriminant<T: Float>(
    direction: Seq<T>,
    normal: Seq<T>,
    n0: T,
    n1: T,
) -> T {
    let one = T::one_spec();
    let ratio = n0.div_spec(n1);
    let c = dot_spec(direction, normal);
    one.sub_spec(ratio.mul_spec(ratio).mul_spec(one.sub_spec(c.mul_spec(c))))
}

/// The direction bent by Snell's law:
/// `(direction - normal * c) * ratio - normal * sqrt(discriminant)`.
pub open spec fn bent<T: Float>(direction: Seq<T>, normal: Seq<T>, n0: T, n1: T) -> Seq<T> {
    let ratio = n0.div_spec(n1);
    let c = dot_spec(direction, normal);
    minus(
        scaled(minus(direction, scaled(normal, c)), ratio),
        scaled(normal, refraction_discriminant(direction, normal, n0, n1).sqrt_spec()),
    )
}

/// The direction in which light goes on at a boundary between two media.
///
/// Where the discriminant is not positive there is total reflection. Elsewhere the
/// light is reflected if `sample` lies below the reflectance, and bent otherwise.
pub open spec fn refracted<T: Float>(
    direction: Seq<T>,
    normal: Seq<T>,
    n0: T,
    n1: T,
    sample: T,
) -> Seq<T> {
    if T::zero_spec().lt_spec(refraction_discriminant(direction, normal, n0, n1)) {
        if sample.lt_spec(reflectance(direction, normal, n0)) {
            reflected(direction, normal)
        } else {
            bent(direction, normal, n0, n1)
        }
    } else {
        reflected(direction, normal)
    }
}

/// The coordinate in `[-1, 1)` that a sample from `[0, 1)` stands for.
pub open spec fn centred<T: Float>(sample: T) -> T {
    sample.mul_spec(two::<T>()).sub_spec(T::one_spec())
}

/// The point of the cube around the origin that three samples from `[0, 1)` stand
/// for.
pub open spec fn cube_point<T: Float>(samples: Seq<T>) -> Seq<T> {
    seq![centred(samples[0]), centred(samples[1]), centred(samples[2])]
}

/// The distance of a point from the origin, accumulated as `x*x + y*y + z*z`.
pub open spec fn distance<T: Float>(point: Seq<T>) -> T {
    point[0].mul_spec(point[0]).add_spec(point[1].mul_spec(point[1])).add_spec(
        point[2].mul_spec(point[2]),
    ).sqrt_spec()
}

/// The position of an axis among the components of a vector.
pub fn axis_to_index(axis: &Axis) -> (r: usize)
    ensures
        r == axis_index(*axis),
        r < 3,
{
    match axis {
        Axis::X => 0,
        Axis::Y => 1,
        Axis::Z => 2,
    }
}

pub fn reflect<T: Float>(direction: &Vec3<T>, normal: &Vec3<T>) -> (r: Vec3<T>)
    ensures
        r@ == reflected(direction@, normal@),
{
    let two = T::from_usize(2);
    let c = direction.dot(normal);
    let reflection = direction.sub(&normal.mul(two).mul(c));
    reflection
}

/// The direction in which light goes on at a boundary between the indices `n0` and
/// `n1`. `sample` is a number drawn uniformly from `[0, 1)`: it decides between
/// reflection and refraction.
pub fn refract<T: Float>(direction: &Vec3<T>, normal: &Vec3<T>, n0: T, n1: T, sample: T) -> (r: Vec3<
    T,
>)
    ensures
        r@ == refracted(direction@, normal@, n0, n1, sample),
{
    let ratio = n0.div(n1);
    let c = direction.dot(normal);
    let discriminant = T::one().sub(ratio.mul(ratio).mul(T::one().sub(c.mul(c))));
    if discriminant.gt(T::zero()) {
        let prob = reflection_probability(direction, normal, n0);
        if sample.lt(prob) {
            return reflect(direction, normal);
        }
        return direction.sub(&normal.mul(c)).mul(ratio).sub(&normal.mul(discriminant.sqrt()));
    } else {
        return reflect(direction, normal);
    }
}

pub fn reflection_probability<T: Float>(direction: &Vec3<T>, normal: &Vec3<T>, n: T) -> (r: T)
    ensures
        r == reflectance(direction@, normal@, n),
{
    let cosine = n.neg().mul(direction.dot(normal));
    let mut r0 = T::one().sub(n).div(T::one().add(n));
    r0 = r0.mul(r0);
    let mut pow5 = T::one().sub(cosine);
    pow5 = pow5.mul(pow5).mul(pow5).mul(pow5).mul(pow5);
    r0.add(T::one().sub(r0).mul(pow5))
}

/// One attempt at a random point in the unit ball: the point of the cube that the
/// three samples stand for, if it lies strictly within distance one of the origin.
/// A caller that wants a point draws samples until an attempt succeeds.
pub fn point_in_sphere<T: Float>(samples: [T; 3]) -> (r: Option<Vec3<T>>)
    ensures
        match r {
            Some(point) => point@ == cube_point(samples@) && distance(point@).lt_spec(
                T::one_spec(),
            ),
            None => !distance(cube_point(samples@)).lt_spec(T::one_spec()),
        },
{
    let two = T::from_usize(2);
    let x = samples[0].mul(two).sub(T::one());
    let y = samples[1].mul(two).sub(T::one());
    let z = samples[2].mul(two).sub(T::one());
    let len = x.mul(x).add(y.mul(y)).add(z.mul(z)).sqrt();
    if len.lt(T::one()) {
        let point = Vec3::from_array([x, y, z]);
        assert(point@ =~= cube_point(samples@));
        Some(point)
    } else {
        None
    }
}

} // verus!
