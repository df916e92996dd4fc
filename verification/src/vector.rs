//! Three-component vectors over a scalar.
use vstd::prelude::*;
use vstd::array::*;
use crate::float::Float;

verus! {

broadcast use group_array_axioms;

/// The components of a vector as the contracts speak of them.
pub type Components<T> = Seq<T>;

/// A vector of three scalars, viewed as the sequence of its components.
#[derive(Debug)]
pub struct Vec3<T: Float> {
    data: [T; 3],
}

impl<T: Float> View for Vec3<T> {
    type V = Seq<T>;

    closed spec fn view(&self) -> Seq<T> {
        self.data@
    }
}

/// The dot product as the accumulation `((0 + a0*b0) + a1*b1) + a2*b2`.
pub open spec fn dot_spec<T: Float>(a: Seq<T>, b: Seq<T>) -> T {
    T::zero_spec().add_spec(a[0].mul_spec(b[0])).add_spec(a[1].mul_spec(b[1])).add_spec(
        a[2].mul_spec(b[2]),
    )
}

/// Component `i` of the cross product of `a` and `b`.
pub open spec fn cross_component<T: Float>(a: Seq<T>, b: Seq<T>, i: int) -> T {
    let j = (i + 1) % 3;
    let k = (i + 2) % 3;
    a[j].mul_spec(b[k]).sub_spec(a[k].mul_spec(b[j]))
}

/// The Euclidean length: the square root of the dot product with itself.
pub open spec fn norm_spec<T: Float>(a: Seq<T>) -> T {
    dot_spec(a, a).sqrt_spec()
}

/// The vector divided by its length.
pub open spec fn normalized<T: Float>(a: Seq<T>) -> Seq<T> {
    divided(a, norm_spec(a))
}

/// The componentwise sum.
pub open spec fn plus<T: Float>(a: Seq<T>, b: Seq<T>) -> Seq<T> {
    seq![a[0].add_spec(b[0]), a[1].add_spec(b[1]), a[2].add_spec(b[2])]
}

/// The componentwise difference.
pub open spec fn minus<T: Float>(a: Seq<T>, b: Seq<T>) -> Seq<T> {
    seq![a[0].sub_spec(b[0]), a[1].sub_spec(b[1]), a[2].sub_spec(b[2])]
}

/// The componentwise product.
pub open spec fn times<T: Float>(a: Seq<T>, b: Seq<T>) -> Seq<T> {
    seq![a[0].mul_spec(b[0]), a[1].mul_spec(b[1]), a[2].mul_spec(b[2])]
}

/// Every component multiplied by `k`.
pub open spec fn scaled<T: Float>(a: Seq<T>, k: T) -> Seq<T> {
    seq![a[0].mul_spec(k), a[1].mul_spec(k), a[2].mul_spec(k)]
}

/// Every component divided by `k`.
pub open spec fn divided<T: Float>(a: Seq<T>, k: T) -> Seq<T> {
    seq![a[0].div_spec(k), a[1].div_spec(k), a[2].div_spec(k)]
}

/// The cross product.
pub open spec fn cross_spec<T: Float>(a: Seq<T>, b: Seq<T>) -> Seq<T> {
    seq![cross_component(a, b, 0), cross_component(a, b, 1), cross_component(a, b, 2)]
}

/// The vector whose components are the first three elements of `s`.
pub closed spec fn of_seq<T: Float>(s: Seq<T>) -> Vec3<T> {
    Vec3 { data: [s[0], s[1], s[2]] }
}

/// `of_seq` is the inverse of the view on sequences of three scalars.
pub proof fn lemma_of_seq<T: Float>(s: Seq<T>)
    requires
        s.len() == 3,
    ensures
        of_seq(s)@ == s,
{
    assert(of_seq(s)@ =~= s);
}

/// Vectors with the same components are the same vector.
pub proof fn lemma_vec3_ext<T: Float>(a: Vec3<T>, b: Vec3<T>)
    requires
        a@ == b@,
    ensures
        a == b,
{
    assert(forall|i: int| 0 <= i < 3 ==> a.data[i] == a@[i] && b.data[i] == b@[i]);
    assert(a.data =~= b.data);
}

/// Every vector has exactly three components.
pub broadcast proof fn lemma_vec3_len<T: Float>(v: Vec3<T>)
    ensures
        #[trigger] v@.len() == 3,
{
}

impl<T: Float> Vec3<T> {
    /// The zero vector.
    pub fn new() -> (r: Self)
        ensures
            r@ == seq![T::zero_spec(), T::zero_spec(), T::zero_spec()],
    {
        let r = Vec3 { data: [T::zero(), T::zero(), T::zero()] };
        assert(r@ =~= seq![T::zero_spec(), T::zero_spec(), T::zero_spec()]);
        r
    }

    pub fn from_array(input: [T; 3]) -> (r: Self)
        ensures
            r@ == input@,
    {
        Vec3 { data: input }
    }

    /// The first three elements of `input`.
    pub fn from_slice(input: &[T]) -> (r: Self)
        requires
            input@.len() >= 3,
        ensures
            r@ == input@.subrange(0, 3),
    {
        let r = Vec3 { data: [input[0], input[1], input[2]] };
        assert(r@ =~= input@.subrange(0, 3));
        r
    }

    pub fn get_data(&self) -> (r: &[T])
        ensures
            r@ == self@,
    {
        array_as_slice(&self.data)
    }

    pub fn get_data_mut(&mut self) -> (r: &mut [T])
        ensures
            r@ == old(self)@,
            final(self)@ == final(r)@,
    {
        ref_mut_array_unsizing_coercion(&mut self.data)
    }

    /// Overwrites the components with the first three elements of `data`.
    pub fn set_data(&mut self, data: &[T])
        requires
            data@.len() >= 3,
        ensures
            final(self)@ == data@.subrange(0, 3),
    {
        self.data = [data[0], data[1], data[2]];
        assert(self@ =~= data@.subrange(0, 3));
    }

    /// Component `i`.
    pub fn get(&self, i: usize) -> (r: T)
        requires
            i < 3,
        ensures
            r == self@[i as int],
    {
        self.data[i]
    }
    /// The componentwise sum of `self` and `other`.
    pub fn add(&self, other: &Vec3<T>) -> (r: Vec3<T>)
        ensures
            r@ == plus(self@, other@),
    {
        let r = Vec3 {
            data: [
                self.data[0].add(other.data[0]),
                self.data[1].add(other.data[1]),
                self.data[2].add(other.data[2]),
            ],
        };
        assert(r@ =~= plus(self@, other@));
        r
    }

    /// The componentwise difference of `self` and `other`.
    pub fn sub(&self, other: &Vec3<T>) -> (r: Vec3<T>)
        ensures
            r@ == minus(self@, other@),
    {
        let r = Vec3 {
            data: [
                self.data[0].sub(other.data[0]),
                self.data[1].sub(other.data[1]),
                self.data[2].sub(other.data[2]),
            ],
        };
        assert(r@ =~= minus(self@, other@));
        r
    }

    /// The componentwise product of `self` and `other`.
    pub fn mul_vec(&self, other: &Vec3<T>) -> (r: Vec3<T>)
        ensures
            r@ == times(self@, other@),
    {
        let r = Vec3 {
            data: [
                self.data[0].mul(other.data[0]),
                self.data[1].mul(other.data[1]),
                self.data[2].mul(other.data[2]),
            ],
        };
        assert(r@ =~= times(self@, other@));
        r
    }

    /// `self` scaled by `other`.
    pub fn mul(&self, other: T) -> (r: Vec3<T>)
        ensures
            r@ == scaled(self@, other),
    {
        let r = Vec3 {
            data: [self.data[0].mul(other), self.data[1].mul(other), self.data[2].mul(other)],
        };
        assert(r@ =~= scaled(self@, other));
        r
    }

    /// `self` with every component divided by `other`.
    pub fn div(&self, other: T) -> (r: Vec3<T>)
        ensures
            r@ == divided(self@, other),
    {
        let r = Vec3 {
            data: [self.data[0].div(other), self.data[1].div(other), self.data[2].div(other)],
        };
        assert(r@ =~= divided(self@, other));
        r
    }

    pub fn dot(&self, other: &Vec3<T>) -> (r: T)
        ensures
            r == dot_spec(self@, other@),
    {
        let mut result = T::zero();
        let mut i: usize = 0;
        while i < 3
            invariant
                i <= 3,
                i == 0 ==> result == T::zero_spec(),
                i == 1 ==> result == T::zero_spec().add_spec(self@[0].mul_spec(other@[0])),
                i == 2 ==> result == T::zero_spec().add_spec(self@[0].mul_spec(other@[0])).add_spec(
                    self@[1].mul_spec(other@[1]),
                ),
                i == 3 ==> result == dot_spec(self@, other@),
            decreases 3 - i,
        {
            result = result.add(self.data[i].mul(other.data[i]));
            i = i + 1;
        }
        result
    }

    pub fn cross(&self, other: &Vec3<T>) -> (r: Vec3<T>)
        ensures
            r@ == cross_spec(self@, other@),
    {
        let mut result = [T::zero(), T::zero(), T::zero()];
        let mut i: usize = 0;
        while i < 3
            invariant
                i <= 3,
                forall|n: int| 0 <= n < i ==> result@[n] == cross_component(self@, other@, n),
            decreases 3 - i,
        {
            let j = (i + 1) % 3;
            let k = (i + 2) % 3;
            let c = self.data[j].mul(other.data[k]).sub(self.data[k].mul(other.data[j]));
            result[i] = c;
            i = i + 1;
        }
        let r = Vec3::from_array(result);
        assert(r@ =~= cross_spec(self@, other@));
        r
    }

    pub fn norm(&self) -> (r: T)
        ensures
            r == norm_spec(self@),
    {
        let n2 = self.dot(self);
        n2.sqrt()
    }

    /// Divides every component by the length the vector had before the call.
    pub fn normalize(&mut self)
        ensures
            final(self)@ == normalized(old(self)@),
    {
        let n = self.norm();
        self.data = [self.data[0].div(n), self.data[1].div(n), self.data[2].div(n)];
        assert(self@ =~= divided(old(self)@, norm_spec(old(self)@)));
    }

    /// Replaces component `i` by `value`.
    pub fn set(&mut self, i: usize, value: T)
        requires
            i < 3,
        ensures
            final(self)@ == old(self)@.update(i as int, value),
    {
        self.data[i] = value;
        assert(self@ =~= old(self)@.update(i as int, value));
    }

    /// A copy with the same components.
    pub fn copy(&self) -> (r: Vec3<T>)
        ensures
            r@ == self@,
    {
        Vec3 { data: self.data }
    }
}

/// `+` is the componentwise sum.
impl<T: Float> core::ops::Add<Vec3<T>> for Vec3<T> {
    type Output = Vec3<T>;

    fn add(self, other: Vec3<T>) -> (r: Vec3<T>) {
        let r = Vec3::add(&self, &other);
        proof {
            lemma_of_seq(plus(self@, other@));
            lemma_vec3_ext(r, of_seq(plus(self@, other@)));
        }
        r
    }
}

impl<T: Float> vstd::std_specs::ops::AddSpecImpl<Vec3<T>> for Vec3<T> {
    open spec fn obeys_add_spec() -> bool {
        true
    }

    open spec fn add_req(self, other: Vec3<T>) -> bool {
        true
    }

    open spec fn add_spec(self, other: Vec3<T>) -> Vec3<T> {
        of_seq(plus(self@, other@))
    }
}

/// `+` is the componentwise sum.
impl<'b, T: Float> core::ops::Add<&'b Vec3<T>> for Vec3<T> {
    type Output = Vec3<T>;

    fn add(self, other: &'b Vec3<T>) -> (r: Vec3<T>) {
        let r = Vec3::add(&self, other);
        proof {
            lemma_of_seq(plus(self@, other@));
            lemma_vec3_ext(r, of_seq(plus(self@, other@)));
        }
        r
    }
}

impl<'b, T: Float> vstd::std_specs::ops::AddSpecImpl<&'b Vec3<T>> for Vec3<T> {
    open spec fn obeys_add_spec() -> bool {
        true
    }

    open spec fn add_req(self, other: &'b Vec3<T>) -> bool {
        true
    }

    open spec fn add_spec(self, other: &'b Vec3<T>) -> Vec3<T> {
        of_seq(plus(self@, other@))
    }
}

/// `+` is the componentwise sum.
impl<'a, T: Float> core::ops::Add<Vec3<T>> for &'a Vec3<T> {
    type Output = Vec3<T>;

    fn add(self, other: Vec3<T>) -> (r: Vec3<T>) {
        let r = Vec3::add(self, &other);
        proof {
            lemma_of_seq(plus(self@, other@));
            lemma_vec3_ext(r, of_seq(plus(self@, other@)));
        }
        r
    }
}

impl<'a, T: Float> vstd::std_specs::ops::AddSpecImpl<Vec3<T>> for &'a Vec3<T> {
    open spec fn obeys_add_spec() -> bool {
        true
    }

    open spec fn add_req(self, other: Vec3<T>) -> bool {
        true
    }

    open spec fn add_spec(self, other: Vec3<T>) -> Vec3<T> {
        of_seq(plus(self@, other@))
    }
}

/// `+` is the componentwise sum.
impl<'a, 'b, T: Float> core::ops::Add<&'b Vec3<T>> for &'a Vec3<T> {
    type Output = Vec3<T>;

    fn add(self, other: &'b Vec3<T>) -> (r: Vec3<T>) {
        let r = Vec3::add(self, other);
        proof {
            lemma_of_seq(plus(self@, other@));
            lemma_vec3_ext(r, of_seq(plus(self@, other@)));
        }
        r
    }
}

impl<'a, 'b, T: Float> vstd::std_specs::ops::AddSpecImpl<&'b Vec3<T>> for &'a Vec3<T> {
    open spec fn obeys_add_spec() -> bool {
        true
    }

    open spec fn add_req(self, other: &'b Vec3<T>) -> bool {
        true
    }

    open spec fn add_spec(self, other: &'b Vec3<T>) -> Vec3<T> {
        of_seq(plus(self@, other@))
    }
}

/// `-` is the componentwise difference.
impl<T: Float> core::ops::Sub<Vec3<T>> for Vec3<T> {
    type Output = Vec3<T>;

    fn sub(self, other: Vec3<T>) -> (r: Vec3<T>) {
        let r = Vec3::sub(&self, &other);
        proof {
            lemma_of_seq(minus(self@, other@));
            lemma_vec3_ext(r, of_seq(minus(self@, other@)));
        }
        r
    }
}

impl<T: Float> vstd::std_specs::ops::SubSpecImpl<Vec3<T>> for Vec3<T> {
    open spec fn obeys_sub_spec() -> bool {
        true
    }

    open spec fn sub_req(self, other: Vec3<T>) -> bool {
        true
    }

    open spec fn sub_spec(self, other: Vec3<T>) -> Vec3<T> {
        of_seq(minus(self@, other@))
    }
}

/// `-` is the componentwise difference.
impl<'b, T: Float> core::ops::Sub<&'b Vec3<T>> for Vec3<T> {
    type Output = Vec3<T>;

    fn sub(self, other: &'b Vec3<T>) -> (r: Vec3<T>) {
        let r = Vec3::sub(&self, other);
        proof {
            lemma_of_seq(minus(self@, other@));
            lemma_vec3_ext(r, of_seq(minus(self@, other@)));
        }
        r
    }
}

impl<'b, T: Float> vstd::std_specs::ops::SubSpecImpl<&'b Vec3<T>> for Vec3<T> {
    open spec fn obeys_sub_spec() -> bool {
        true
    }

    open spec fn sub_req(self, other: &'b Vec3<T>) -> bool {
        true
    }

    open spec fn sub_spec(self, other: &'b Vec3<T>) -> Vec3<T> {
        of_seq(minus(self@, other@))
    }
}

/// `-` is the componentwise difference.
impl<'a, T: Float> core::ops::Sub<Vec3<T>> for &'a Vec3<T> {
    type Output = Vec3<T>;

    fn sub(self, other: Vec3<T>) -> (r: Vec3<T>) {
        let r = Vec3::sub(self, &other);
        proof {
            lemma_of_seq(minus(self@, other@));
            lemma_vec3_ext(r, of_seq(minus(self@, other@)));
        }
        r
    }
}

impl<'a, T: Float> vstd::std_specs::ops::SubSpecImpl<Vec3<T>> for &'a Vec3<T> {
    open spec fn obeys_sub_spec() -> bool {
        true
    }

    open spec fn sub_req(self, other: Vec3<T>) -> bool {
        true
    }

    open spec fn sub_spec(self, other: Vec3<T>) -> Vec3<T> {
        of_seq(minus(self@, other@))
    }
}

/// `-` is the componentwise difference.
impl<'a, 'b, T: Float> core::ops::Sub<&'b Vec3<T>> for &'a Vec3<T> {
    type Output = Vec3<T>;

    fn sub(self, other: &'b Vec3<T>) -> (r: Vec3<T>) {
        let r = Vec3::sub(self, other);
        proof {
            lemma_of_seq(minus(self@, other@));
            lemma_vec3_ext(r, of_seq(minus(self@, other@)));
        }
        r
    }
}

impl<'a, 'b, T: Float> vstd::std_specs::ops::SubSpecImpl<&'b Vec3<T>> for &'a Vec3<T> {
    open spec fn obeys_sub_spec() -> bool {
        true
    }

    open spec fn sub_req(self, other: &'b Vec3<T>) -> bool {
        true
    }

    open spec fn sub_spec(self, other: &'b Vec3<T>) -> Vec3<T> {
        of_seq(minus(self@, other@))
    }
}

/// `*` between vectors is the componentwise product.
impl<T: Float> core::ops::Mul<Vec3<T>> for Vec3<T> {
    type Output = Vec3<T>;

    fn mul(self, other: Vec3<T>) -> (r: Vec3<T>) {
        let r = Vec3::mul_vec(&self, &other);
        proof {
            lemma_of_seq(times(self@, other@));
            lemma_vec3_ext(r, of_seq(times(self@, other@)));
        }
        r
    }
}

impl<T: Float> vstd::std_specs::ops::MulSpecImpl<Vec3<T>> for Vec3<T> {
    open spec fn obeys_mul_spec() -> bool {
        true
    }

    open spec fn mul_req(self, other: Vec3<T>) -> bool {
        true
    }

    open spec fn mul_spec(self, other: Vec3<T>) -> Vec3<T> {
        of_seq(times(self@, other@))
    }
}

/// `*` between vectors is the componentwise product.
impl<'b, T: Float> core::ops::Mul<&'b Vec3<T>> for Vec3<T> {
    type Output = Vec3<T>;

    fn mul(self, other: &'b Vec3<T>) -> (r: Vec3<T>) {
        let r = Vec3::mul_vec(&self, other);
        proof {
            lemma_of_seq(times(self@, other@));
            lemma_vec3_ext(r, of_seq(times(self@, other@)));
        }
        r
    }
}

impl<'b, T: Float> vstd::std_specs::ops::MulSpecImpl<&'b Vec3<T>> for Vec3<T> {
    open spec fn obeys_mul_spec() -> bool {
        true
    }

    open spec fn mul_req(self, other: &'b Vec3<T>) -> bool {
        true
    }

    open spec fn mul_spec(self, other: &'b Vec3<T>) -> Vec3<T> {
        of_seq(times(self@, other@))
    }
}

/// `*` between vectors is the componentwise product.
impl<'a, T: Float> core::ops::Mul<Vec3<T>> for &'a Vec3<T> {
    type Output = Vec3<T>;

    fn mul(self, other: Vec3<T>) -> (r: Vec3<T>) {
        let r = Vec3::mul_vec(self, &other);
        proof {
            lemma_of_seq(times(self@, other@));
            lemma_vec3_ext(r, of_seq(times(self@, other@)));
        }
        r
    }
}

impl<'a, T: Float> vstd::std_specs::ops::MulSpecImpl<Vec3<T>> for &'a Vec3<T> {
    open spec fn obeys_mul_spec() -> bool {
        true
    }

    open spec fn mul_req(self, other: Vec3<T>) -> bool {
        true
    }

    open spec fn mul_spec(self, other: Vec3<T>) -> Vec3<T> {
        of_seq(times(self@, other@))
    }
}

/// `*` between vectors is the componentwise product.
impl<'a, 'b, T: Float> core::ops::Mul<&'b Vec3<T>> for &'a Vec3<T> {
    type Output = Vec3<T>;

    fn mul(self, other: &'b Vec3<T>) -> (r: Vec3<T>) {
        let r = Vec3::mul_vec(self, other);
        proof {
            lemma_of_seq(times(self@, other@));
            lemma_vec3_ext(r, of_seq(times(self@, other@)));
        }
        r
    }
}

impl<'a, 'b, T: Float> vstd::std_specs::ops::MulSpecImpl<&'b Vec3<T>> for &'a Vec3<T> {
    open spec fn obeys_mul_spec() -> bool {
        true
    }

    open spec fn mul_req(self, other: &'b Vec3<T>) -> bool {
        true
    }

    open spec fn mul_spec(self, other: &'b Vec3<T>) -> Vec3<T> {
        of_seq(times(self@, other@))
    }
}

/// `*` by a scalar scales every component.
impl<T: Float> core::ops::Mul<T> for Vec3<T> {
    type Output = Vec3<T>;

    fn mul(self, other: T) -> (r: Vec3<T>) {
        let r = Vec3::mul(&self, other);
        proof {
            lemma_of_seq(scaled(self@, other));
            lemma_vec3_ext(r, of_seq(scaled(self@, other)));
        }
        r
    }
}

impl<T: Float> vstd::std_specs::ops::MulSpecImpl<T> for Vec3<T> {
    open spec fn obeys_mul_spec() -> bool {
        true
    }

    open spec fn mul_req(self, other: T) -> bool {
        true
    }

    open spec fn mul_spec(self, other: T) -> Vec3<T> {
        of_seq(scaled(self@, other))
    }
}

/// `*` by a scalar scales every component.
impl<'a, T: Float> core::ops::Mul<T> for &'a Vec3<T> {
    type Output = Vec3<T>;

    fn mul(self, other: T) -> (r: Vec3<T>) {
        let r = Vec3::mul(self, other);
        proof {
            lemma_of_seq(scaled(self@, other));
            lemma_vec3_ext(r, of_seq(scaled(self@, other)));
        }
        r
    }
}

impl<'a, T: Float> vstd::std_specs::ops::MulSpecImpl<T> for &'a Vec3<T> {
    open spec fn obeys_mul_spec() -> bool {
        true
    }

    open spec fn mul_req(self, other: T) -> bool {
        true
    }

    open spec fn mul_spec(self, other: T) -> Vec3<T> {
        of_seq(scaled(self@, other))
    }
}

/// `/` by a scalar divides every component.
impl<T: Float> core::ops::Div<T> for Vec3<T> {
    type Output = Vec3<T>;

    fn div(self, other: T) -> (r: Vec3<T>) {
        let r = Vec3::div(&self, other);
        proof {
            lemma_of_seq(divided(self@, other));
            lemma_vec3_ext(r, of_seq(divided(self@, other)));
        }
        r
    }
}

impl<T: Float> vstd::std_specs::ops::DivSpecImpl<T> for Vec3<T> {
    open spec fn obeys_div_spec() -> bool {
        true
    }

    open spec fn div_req(self, other: T) -> bool {
        true
    }

    open spec fn div_spec(self, other: T) -> Vec3<T> {
        of_seq(divided(self@, other))
    }
}

/// `/` by a scalar divides every component.
impl<'a, T: Float> core::ops::Div<T> for &'a Vec3<T> {
    type Output = Vec3<T>;

    fn div(self, other: T) -> (r: Vec3<T>) {
        let r = Vec3::div(self, other);
        proof {
            lemma_of_seq(divided(self@, other));
            lemma_vec3_ext(r, of_seq(divided(self@, other)));
        }
        r
    }
}

impl<'a, T: Float> vstd::std_specs::ops::DivSpecImpl<T> for &'a Vec3<T> {
    open spec fn obeys_div_spec() -> bool {
        true
    }

    open spec fn div_req(self, other: T) -> bool {
        true
    }

    open spec fn div_spec(self, other: T) -> Vec3<T> {
        of_seq(divided(self@, other))
    }
}

} // verus!
