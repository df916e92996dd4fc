//! The chequered texture: two textures that alternate from cell to cell of a grid.
use vstd::prelude::*;
use crate::float::Float;
use crate::texture::Texture;
use crate::vector::{lemma_vec3_len, Components, Vec3};

verus! {

/// Whether the cell that the coordinate `x` falls into, on an axis with cells of
/// the given period, has an odd number: 1 if it has, else 0. The number of the cell
/// is `x / period` rounded down; a cell whose number is no 32-bit integer counts as
/// even.
pub open spec fn cell_parity<T: Float>(x: T, period: T) -> int {
    match x.div_spec(period).floor_spec().to_i32_spec() {
        Some(n) => if n < 0 {
            (-(n as int)) % 2
        } else {
            (n as int) % 2
        },
        None => 0,
    }
}

/// Whether the first of the two textures shows at a point: it does where the
/// product of `2 * parity - 1` over the three axes is positive.
pub open spec fn shows_first<T: Float>(point: Seq<T>, period: Seq<T>) -> bool {
    (cell_parity(point[0], period[0]) * 2 - 1) * (cell_parity(point[1], period[1]) * 2 - 1) * (
    cell_parity(point[2], period[2]) * 2 - 1) > 0
}

/// Two textures that alternate from cell to cell of a grid in space.
pub struct CheckerTexture<T: Float, A: Texture<T>, B: Texture<T>> {
    texture0: Box<A>,
    texture1: Box<B>,
    period: Vec3<T>,
}

impl<T: Float, A: Texture<T>, B: Texture<T>> CheckerTexture<T, A, B> {
    pub closed spec fn first(&self) -> A {
        *self.texture0
    }

    pub closed spec fn second(&self) -> B {
        *self.texture1
    }

    /// The size of a cell along each axis.
    pub closed spec fn period(&self) -> Seq<T> {
        self.period@
    }

    /// The texture that alternates between the two with cells of size one.
    pub fn new(texture0: Box<A>, texture1: Box<B>) -> (r: Self)
        ensures
            r.first() == *texture0,
            r.second() == *texture1,
            r.period() == seq![T::one_spec(), T::one_spec(), T::one_spec()],
    {
        let period = Vec3::from_array([T::one(), T::one(), T::one()]);
        assert(period@ =~= seq![T::one_spec(), T::one_spec(), T::one_spec()]);
        CheckerTexture { texture0, texture1, period }
    }

    pub fn set_period(&mut self, period: Vec3<T>)
        ensures
            final(self).first() == old(self).first(),
            final(self).second() == old(self).second(),
            final(self).period() == period@,
    {
        self.period = period;
    }

    fn parity(x: T, period: T) -> (r: i32)
        ensures
            r == cell_parity(x, period),
            0 <= r <= 1,
    {
        match x.div(period).floor().to_i32() {
            Some(n) => {
                let wide: i64 = n as i64;
                let size: i64 = if wide < 0 { -wide } else { wide };
                (size % 2) as i32
            },
            None => 0,
        }
    }
}

impl<T: Float, A: Texture<T>, B: Texture<T>> Texture<T> for CheckerTexture<T, A, B> {
    open spec fn color_spec(&self, u: T, v: T, point: Components<T>) -> Components<T> {
        if shows_first(point, self.period()) {
            self.first().color_spec(u, v, point)
        } else {
            self.second().color_spec(u, v, point)
        }
    }

    fn get_color(&self, u: T, v: T, point: &Vec3<T>) -> (r: Vec3<T>) {
        proof {
            lemma_vec3_len(*point);
            lemma_vec3_len(self.period);
        }
        let x = Self::parity(point.get(0), self.period.get(0));
        let y = Self::parity(point.get(1), self.period.get(1));
        let z = Self::parity(point.get(2), self.period.get(2));
        let a: i32 = x * 2 - 1;
        let b: i32 = y * 2 - 1;
        let c: i32 = z * 2 - 1;
        assert(a * b == 1 || a * b == -1) by (nonlinear_arith)
            requires
                a == 1 || a == -1,
                b == 1 || b == -1,
        ;
        assert(a * b * c == 1 || a * b * c == -1) by (nonlinear_arith)
            requires
                a * b == 1 || a * b == -1,
                c == 1 || c == -1,
        ;
        let sign = a * b * c;
        if sign > 0 {
            self.texture0.get_color(u, v, point)
        } else {
            self.texture1.get_color(u, v, point)
        }
    }
}

} // verus!
