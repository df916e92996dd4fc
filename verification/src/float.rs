//! The scalar interface that the geometry is written against.
//!
//! Nothing in this crate fixes a number representation. Every scalar operation goes
//! through [`Float`], and every contract in the crate is stated over the specification
//! functions of that trait: a result *is* a particular expression over the operands.
//! An implementation is expected to behave like an IEEE 754 binary format: each
//! operation is a function of its operands, the comparisons are strict and transitive,
//! and an unordered operand (a NaN) makes every comparison false.
use vstd::prelude::*;

verus! {

/// Transcendental operations of a scalar.
pub trait Number: Copy + Sized {
    /// The square root, as a function of the operand.
    spec fn sqrt_spec(self) -> Self;

    /// The tangent, as a function of the operand.
    spec fn tan_spec(self) -> Self;

    fn sqrt(&self) -> (r: Self)
        ensures
            r == self.sqrt_spec(),
    ;

    fn tan(&self) -> (r: Self)
        ensures
            r == self.tan_spec(),
    ;
}

/// Arithmetic and ordering of a scalar.
///
/// `lt_spec` and `le_spec` are the two primitive comparisons. They are kept apart
/// because they are not each other's negation: for unordered operands both are false.
pub trait Float: Number {
    spec fn zero_spec() -> Self;

    spec fn one_spec() -> Self;

    spec fn from_usize_spec(n: usize) -> Self;

    spec fn add_spec(self, rhs: Self) -> Self;

    spec fn sub_spec(self, rhs: Self) -> Self;

    spec fn mul_spec(self, rhs: Self) -> Self;

    spec fn div_spec(self, rhs: Self) -> Self;

    spec fn neg_spec(self) -> Self;

    /// The largest whole scalar that is not above `self`.
    spec fn floor_spec(self) -> Self;

    /// The scalar as a 32-bit integer, where it has one.
    spec fn to_i32_spec(self) -> Option<i32>;

    /// `self` is strictly below `rhs`.
    spec fn lt_spec(self, rhs: Self) -> bool;

    /// `self` is below or numerically equal to `rhs`.
    spec fn le_spec(self, rhs: Self) -> bool;

    fn zero() -> (r: Self)
        ensures
            r == Self::zero_spec(),
    ;

    fn one() -> (r: Self)
        ensures
            r == Self::one_spec(),
    ;

    /// The scalar nearest to the integer `n`.
    fn from_usize(n: usize) -> (r: Self)
        ensures
            r == Self::from_usize_spec(n),
    ;

    fn add(self, rhs: Self) -> (r: Self)
        ensures
            r == self.add_spec(rhs),
    ;

    fn sub(self, rhs: Self) -> (r: Self)
        ensures
            r == self.sub_spec(rhs),
    ;

    fn mul(self, rhs: Self) -> (r: Self)
        ensures
            r == self.mul_spec(rhs),
    ;

    /// Division never fails: dividing by zero yields whatever the format prescribes
    /// (an infinity or an unordered value), not a panic.
    fn div(self, rhs: Self) -> (r: Self)
        ensures
            r == self.div_spec(rhs),
    ;

    fn neg(self) -> (r: Self)
        ensures
            r == self.neg_spec(),
    ;

    fn floor(self) -> (r: Self)
        ensures
            r == self.floor_spec(),
    ;

    /// The scalar as a 32-bit integer; none for a scalar that is not a number or
    /// lies outside the range of the integers.
    fn to_i32(self) -> (r: Option<i32>)
        ensures
            r == self.to_i32_spec(),
    ;

    fn lt(self, rhs: Self) -> (r: bool)
        ensures
            r == self.lt_spec(rhs),
    ;

    fn le(self, rhs: Self) -> (r: bool)
        ensures
            r == self.le_spec(rhs),
    ;

    fn gt(self, rhs: Self) -> (r: bool)
        ensures
            r == rhs.lt_spec(self),
    ;

    fn ge(self, rhs: Self) -> (r: bool)
        ensures
            r == rhs.le_spec(self),
    ;

    /// The comparisons form a strict order with its reflexive companion, and the
    /// scalars that are below or equal to themselves (all but the unordered ones) are
    /// totally ordered.
    proof fn order_laws(a: Self, b: Self, c: Self)
        ensures
            a.lt_spec(b) ==> a.le_spec(b),
            a.lt_spec(b) ==> !b.le_spec(a),
            a.le_spec(b) && !a.lt_spec(b) ==> b.le_spec(a),
            a.le_spec(b) && b.le_spec(c) ==> a.le_spec(c),
            a.lt_spec(b) && b.le_spec(c) ==> a.lt_spec(c),
            a.le_spec(b) && b.lt_spec(c) ==> a.lt_spec(c),
            a.le_spec(a) && b.le_spec(b) ==> a.le_spec(b) || b.le_spec(a),
    ;
}

/// A scalar that takes part in the order (not a NaN).
pub open spec fn is_number<T: Float>(a: T) -> bool {
    a.le_spec(a)
}

/// Two scalars are ordered with respect to each other (neither is a NaN).
pub open spec fn comparable<T: Float>(a: T, b: T) -> bool {
    a.le_spec(b) || b.le_spec(a)
}

/// Two scalars are numerically equal. Distinct values can be numerically equal
/// (the two zeros of an IEEE format are).
pub open spec fn same_value<T: Float>(a: T, b: T) -> bool {
    a.le_spec(b) && b.le_spec(a)
}

/// One half, obtained as `1 / 2`.
pub open spec fn half_spec<T: Float>() -> T {
    T::one_spec().div_spec(T::from_usize_spec(2))
}

pub fn half<T: Float>() -> (r: T)
    ensures
        r == half_spec::<T>(),
{
    T::one().div(T::from_usize(2))
}

/// No scalar is strictly below itself.
pub proof fn lemma_lt_irreflexive<T: Float>(a: T)
    ensures
        !a.lt_spec(a),
{
    T::order_laws(a, a, a);
}

/// Comparable scalars are totally ordered: one is strictly below the other, or
/// they are numerically equal.
pub proof fn lemma_comparable_total<T: Float>(a: T, b: T)
    requires
        comparable(a, b),
    ensures
        a.lt_spec(b) || b.lt_spec(a) || same_value(a, b),
        !b.lt_spec(a) ==> a.le_spec(b),
{
    T::order_laws(a, b, a);
    T::order_laws(b, a, b);
}

/// Of two numbers, the one that is not strictly below the other is above or equal
/// to it.
pub proof fn lemma_numbers_total<T: Float>(a: T, b: T)
    requires
        is_number(a),
        is_number(b),
    ensures
        a.lt_spec(b) || b.le_spec(a),
        !(a.lt_spec(b) && b.le_spec(a)),
{
    T::order_laws(a, b, a);
    T::order_laws(b, a, b);
}

} // verus!
