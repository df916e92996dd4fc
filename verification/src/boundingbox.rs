//! Axis-aligned boxes: the canonical corner pair, the slab test against a ray, and
//! the containment, overlap, growth and volume queries that the spatial indices use.
use vstd::prelude::*;
use crate::float::{half, half_spec, Float};
use crate::ray::{Ray, RayModel};
use crate::vector::{lemma_vec3_len, Vec3};

verus! {

/// The mathematical content of a box: its lower and its upper corner.
pub struct BoxModel<T> {
    pub lo: Seq<T>,
    pub hi: Seq<T>,
}

/// Of a pair of coordinates, the one that becomes the lower bound: the second if it
/// is strictly below the first, else the first.
pub open spec fn lower_of<T: Float>(a: T, b: T) -> T {
    if b.lt_spec(a) {
        b
    } else {
        a
    }
}

/// Of a pair of coordinates, the one that becomes the upper bound: the first if the
/// second is strictly below it, else the second.
pub open spec fn upper_of<T: Float>(a: T, b: T) -> T {
    if b.lt_spec(a) {
        a
    } else {
        b
    }
}

/// The box spanned by two corners given in any order.
pub open spec fn canonical<T: Float>(a: Seq<T>, b: Seq<T>) -> BoxModel<T> {
    BoxModel {
        lo: seq![lower_of(a[0], b[0]), lower_of(a[1], b[1]), lower_of(a[2], b[2])],
        hi: seq![upper_of(a[0], b[0]), upper_of(a[1], b[1]), upper_of(a[2], b[2])],
    }
}

/// On no axis is the upper bound strictly below the lower bound.
pub open spec fn not_inverted<T: Float>(b: BoxModel<T>) -> bool {
    forall|i: int| 0 <= i < 3 ==> !(#[trigger] b.hi[i]).lt_spec(b.lo[i])
}

/// On every axis the lower bound is below or equal to the upper bound.
pub open spec fn ordered<T: Float>(b: BoxModel<T>) -> bool {
    forall|i: int| 0 <= i < 3 ==> (#[trigger] b.lo[i]).le_spec(b.hi[i])
}

/// The interval `[t_min, t_max]` narrowed by the slab between the planes `lo` and
/// `hi` of one axis, for a ray with origin coordinate `o` and direction coordinate `d`.
///
/// The plane parameters are computed with the reciprocal of `d` and exchanged when
/// the reciprocal is negative. A zero `d` is not special-cased.
pub open spec fn slab<T: Float>(lo: T, hi: T, o: T, d: T, t_min: T, t_max: T) -> (T, T) {
    let inv_d = T::one_spec().div_spec(d);
    let t0 = lo.sub_spec(o).mul_spec(inv_d);
    let t1 = hi.sub_spec(o).mul_spec(inv_d);
    let near = if inv_d.lt_spec(T::zero_spec()) {
        t1
    } else {
        t0
    };
    let far = if inv_d.lt_spec(T::zero_spec()) {
        t0
    } else {
        t1
    };
    (
        if t_min.lt_spec(near) {
            near
        } else {
            t_min
        },
        if far.lt_spec(t_max) {
            far
        } else {
            t_max
        },
    )
}

/// The slab test from axis `axis` on: the interval is narrowed axis by axis and
/// the test fails as soon as the interval is empty (`t_max <= t_min`).
pub open spec fn slabs_from<T: Float>(
    b: BoxModel<T>,
    ray: RayModel<T>,
    axis: int,
    t_min: T,
    t_max: T,
) -> bool
    decreases 3 - axis,
{
    if axis >= 3 || axis < 0 {
        true
    } else {
        let narrowed = slab(
            b.lo[axis],
            b.hi[axis],
            ray.origin[axis],
            ray.direction[axis],
            t_min,
            t_max,
        );
        if narrowed.1.le_spec(narrowed.0) {
            false
        } else {
            slabs_from(b, ray, axis + 1, narrowed.0, narrowed.1)
        }
    }
}

/// The ray passes through the box somewhere in `[t_min, t_max]`.
pub open spec fn box_hit<T: Float>(b: BoxModel<T>, ray: RayModel<T>, t_min: T, t_max: T) -> bool {
    slabs_from(b, ray, 0, t_min, t_max)
}

/// On axis `i` the interval of `b` lies within the interval of `a`.
pub open spec fn axis_within<T: Float>(a: BoxModel<T>, b: BoxModel<T>, i: int) -> bool {
    !b.lo[i].lt_spec(a.lo[i]) && !a.hi[i].lt_spec(b.hi[i])
}

/// `a` contains `b`: on every axis the interval of `b` lies within that of `a`.
pub open spec fn box_contains<T: Float>(a: BoxModel<T>, b: BoxModel<T>) -> bool {
    forall|i: int| 0 <= i < 3 ==> #[trigger] axis_within(a, b, i)
}

/// On axis `i` the intervals of `a` and `b` share more than a boundary point.
pub open spec fn axis_overlaps<T: Float>(a: BoxModel<T>, b: BoxModel<T>, i: int) -> bool {
    !b.hi[i].le_spec(a.lo[i]) && !a.hi[i].le_spec(b.lo[i])
}

/// `a` and `b` overlap: on every axis their intervals share more than a boundary
/// point. Boxes that merely touch do not overlap.
pub open spec fn box_overlaps<T: Float>(a: BoxModel<T>, b: BoxModel<T>) -> bool {
    forall|i: int| 0 <= i < 3 ==> #[trigger] axis_overlaps(a, b, i)
}

/// `a` grown on every axis just enough to cover `b`.
pub open spec fn grown<T: Float>(a: BoxModel<T>, b: BoxModel<T>) -> BoxModel<T> {
    BoxModel {
        lo: seq![
            lower_of(a.lo[0], b.lo[0]),
            lower_of(a.lo[1], b.lo[1]),
            lower_of(a.lo[2], b.lo[2]),
        ],
        hi: seq![
            upper_of(b.hi[0], a.hi[0]),
            upper_of(b.hi[1], a.hi[1]),
            upper_of(b.hi[2], a.hi[2]),
        ],
    }
}

/// The extent of the box along axis `i`.
pub open spec fn axis_length<T: Float>(b: BoxModel<T>, i: int) -> T {
    b.hi[i].sub_spec(b.lo[i])
}

/// The product of the three extents, accumulated from one.
pub open spec fn volume<T: Float>(b: BoxModel<T>) -> T {
    T::one_spec().mul_spec(axis_length(b, 0)).mul_spec(axis_length(b, 1)).mul_spec(
        axis_length(b, 2),
    )
}

/// The longest of the three extents; of equal extents the earlier axis counts.
pub open spec fn longest_side<T: Float>(b: BoxModel<T>) -> T {
    let first = axis_length(b, 0);
    let second = if first.lt_spec(axis_length(b, 1)) {
        axis_length(b, 1)
    } else {
        first
    };
    if second.lt_spec(axis_length(b, 2)) {
        axis_length(b, 2)
    } else {
        second
    }
}

/// The midpoint of the box on axis `i`.
pub open spec fn axis_centre<T: Float>(b: BoxModel<T>, i: int) -> T {
    b.lo[i].add_spec(b.hi[i]).mul_spec(half_spec::<T>())
}

/// The cube with the centre of `b` and the longest side of `b`.
pub open spec fn cube_of<T: Float>(b: BoxModel<T>) -> BoxModel<T> {
    let reach = longest_side(b).mul_spec(half_spec::<T>());
    BoxModel {
        lo: seq![
            axis_centre(b, 0).sub_spec(reach),
            axis_centre(b, 1).sub_spec(reach),
            axis_centre(b, 2).sub_spec(reach),
        ],
        hi: seq![
            axis_centre(b, 0).add_spec(reach),
            axis_centre(b, 1).add_spec(reach),
            axis_centre(b, 2).add_spec(reach),
        ],
    }
}

/// `b` with `pad` taken from the lower and added to the upper bound of axis `i`.
pub open spec fn padded<T: Float>(b: BoxModel<T>, pad: T, i: int) -> BoxModel<T> {
    BoxModel { lo: b.lo.update(i, b.lo[i].sub_spec(pad)), hi: b.hi.update(i, b.hi[i].add_spec(pad)) }
}

/// An axis-aligned box, kept as its component-wise minimum and maximum corner.
pub struct BoundingBox<T: Float> {
    p0: Vec3<T>,
    p1: Vec3<T>,
}

impl<T: Float> View for BoundingBox<T> {
    type V = BoxModel<T>;

    closed spec fn view(&self) -> BoxModel<T> {
        BoxModel { lo: self.p0@, hi: self.p1@ }
    }
}

/// Both corners of a box have three components.
pub broadcast proof fn lemma_box_len<T: Float>(b: BoundingBox<T>)
    ensures
        #![trigger b@]
        b@.lo.len() == 3,
        b@.hi.len() == 3,
{
    lemma_vec3_len(b.p0);
    lemma_vec3_len(b.p1);
}

impl<T: Float> BoundingBox<T> {
    /// The box spanned by two corners, given in any order.
    pub fn new(p0: Vec3<T>, p1: Vec3<T>) -> (r: Self)
        ensures
            r@ == canonical(p0@, p1@),
            not_inverted(r@),
            (forall|i: int| 0 <= i < 3 ==> crate::float::comparable(p0@[i], p1@[i])) ==> ordered(
                r@,
            ),
    {
        let mut p0 = p0;
        let mut p1 = p1;
        let ghost a = p0@;
        let ghost b = p1@;
        proof {
            lemma_vec3_len(p0);
            lemma_vec3_len(p1);
        }
        let (min_x, max_x) = Self::calculate_axis_bounds(&p0, &p1, 0);
        let (min_y, max_y) = Self::calculate_axis_bounds(&p0, &p1, 1);
        let (min_z, max_z) = Self::calculate_axis_bounds(&p0, &p1, 2);
        p0 = Vec3::from_array([min_x, min_y, min_z]);
        p1 = Vec3::from_array([max_x, max_y, max_z]);
        let r = BoundingBox { p0, p1 };
        proof {
            assert(r@.lo =~= canonical(a, b).lo);
            assert(r@.hi =~= canonical(a, b).hi);
            lemma_canonical_ordered(a, b);
        }
        r
    }

    /// The slab test: does `ray` pass through the box within `[t_min, t_max]`?
    pub fn hit(&self, ray: &Ray<T>, t_min: T, t_max: T) -> (r: bool)
        ensures
            r == box_hit(self@, ray@, t_min, t_max),
    {
        let mut near = t_min;
        let mut far = t_max;
        let mut i: usize = 0;
        proof {
            lemma_box_len(*self);
            crate::ray::lemma_ray_len(*ray);
        }
        while i < 3
            invariant
                i <= 3,
                box_hit(self@, ray@, t_min, t_max) == slabs_from(self@, ray@, i as int, near, far),
            decreases 3 - i,
        {
            let inv_d = T::one().div(ray.get_direction().get(i));
            let mut t0 = self.p0.get(i).sub(ray.get_origin().get(i)).mul(inv_d);
            let mut t1 = self.p1.get(i).sub(ray.get_origin().get(i)).mul(inv_d);
            if inv_d.lt(T::zero()) {
                let tmp = t0;
                t0 = t1;
                t1 = tmp;
            }
            near = if t0.gt(near) { t0 } else { near };
            far = if t1.lt(far) { t1 } else { far };
            if far.le(near) {
                return false;
            }
            i = i + 1;
        }
        true
    }

    /// Does this box contain `other` on every axis?
    pub fn contains(&self, other: &BoundingBox<T>) -> (r: bool)
        ensures
            r == box_contains(self@, other@),
    {
        let mut i: usize = 0;
        while i < 3
            invariant
                i <= 3,
                forall|j: int| 0 <= j < i ==> #[trigger] axis_within(self@, other@, j),
            decreases 3 - i,
        {
            let (min_self, max_self) = self.get_axis_bounds(i);
            let (min_other, max_other) = other.get_axis_bounds(i);
            if min_other.lt(min_self) || max_other.gt(max_self) {
                assert(!axis_within(self@, other@, i as int));
                return false;
            }
            i = i + 1;
        }
        true
    }

    /// Do this box and `other` share more than a boundary on every axis?
    pub fn overlaps(&self, other: &BoundingBox<T>) -> (r: bool)
        ensures
            r == box_overlaps(self@, other@),
    {
        let mut i: usize = 0;
        while i < 3
            invariant
                i <= 3,
                forall|j: int| 0 <= j < i ==> #[trigger] axis_overlaps(self@, other@, j),
            decreases 3 - i,
        {
            let (min_self, max_self) = self.get_axis_bounds(i);
            let (min_other, max_other) = other.get_axis_bounds(i);
            if max_other.le(min_self) || min_other.ge(max_self) {
                assert(!axis_overlaps(self@, other@, i as int));
                return false;
            }
            i = i + 1;
        }
        true
    }

    /// Grows the box to cover `other` and reports whether any bound moved.
    ///
    /// A bound moves exactly when the box did not contain `other` before.
    pub fn expand(&mut self, other: &BoundingBox<T>) -> (expanded: bool)
        ensures
            final(self)@ == grown(old(self)@, other@),
            expanded == !box_contains(old(self)@, other@),
            box_contains(final(self)@, other@),
            box_contains(final(self)@, old(self)@),
            not_inverted(old(self)@) && not_inverted(other@) ==> not_inverted(final(self)@),
    {
        let mut expanded = false;
        let mut i: usize = 0;
        proof {
            lemma_box_len(*self);
            lemma_box_len(*other);
        }
        while i < 3
            invariant
                i <= 3,
                self@.lo.len() == 3,
                self@.hi.len() == 3,
                other@.lo.len() == 3,
                other@.hi.len() == 3,
                forall|j: int| 0 <= j < i ==> self@.lo[j] == grown(old(self)@, other@).lo[j],
                forall|j: int| 0 <= j < i ==> self@.hi[j] == grown(old(self)@, other@).hi[j],
                forall|j: int| i <= j < 3 ==> self@.lo[j] == old(self)@.lo[j],
                forall|j: int| i <= j < 3 ==> self@.hi[j] == old(self)@.hi[j],
                expanded == !(forall|j: int|
                    0 <= j < i ==> #[trigger] axis_within(old(self)@, other@, j)),
            decreases 3 - i,
        {
            let (min_self, max_self) = self.get_axis_bounds(i);
            let (min_other, max_other) = other.get_axis_bounds(i);
            assert(axis_within(old(self)@, other@, i as int) == (!min_other.lt_spec(min_self)
                && !max_self.lt_spec(max_other)));
            if min_other.lt(min_self) {
                self.p0.set(i, min_other);
                expanded = true;
            }
            if max_other.gt(max_self) {
                self.p1.set(i, max_other);
                expanded = true;
            }
            i = i + 1;
        }
        proof {
            assert(self@.lo =~= grown(old(self)@, other@).lo);
            assert(self@.hi =~= grown(old(self)@, other@).hi);
            lemma_grown_covers(old(self)@, other@);
        }
        expanded
    }

    pub fn get_p0(&self) -> (r: &Vec3<T>)
        ensures
            r@ == self@.lo,
    {
        &self.p0
    }

    pub fn get_p1(&self) -> (r: &Vec3<T>)
        ensures
            r@ == self@.hi,
    {
        &self.p1
    }

    /// The product of the three extents. A box that is flat on an axis has the
    /// volume that multiplying by its zero extent gives.
    pub fn get_volume(&self) -> (r: T)
        ensures
            r == volume(self@),
    {
        let mut result = T::one();
        let mut i: usize = 0;
        while i < 3
            invariant
                i <= 3,
                i == 0 ==> result == T::one_spec(),
                i == 1 ==> result == T::one_spec().mul_spec(axis_length(self@, 0)),
                i == 2 ==> result == T::one_spec().mul_spec(axis_length(self@, 0)).mul_spec(
                    axis_length(self@, 1),
                ),
                i == 3 ==> result == volume(self@),
            decreases 3 - i,
        {
            let (min, max) = self.get_axis_bounds(i);
            result = result.mul(max.sub(min));
            i = i + 1;
        }
        result
    }

    /// The coordinates of two corners on one axis, the smaller first.
    pub fn calculate_axis_bounds(p0: &Vec3<T>, p1: &Vec3<T>, axis: usize) -> (r: (T, T))
        requires
            axis < 3,
        ensures
            r.0 == lower_of(p0@[axis as int], p1@[axis as int]),
            r.1 == upper_of(p0@[axis as int], p1@[axis as int]),
    {
        let mut min = p0.get(axis);
        let mut max = p1.get(axis);
        if min.gt(max) {
            let tmp = min;
            min = max;
            max = tmp;
        }
        (min, max)
    }

    /// The lower and the upper bound of the box on one axis.
    pub fn get_axis_bounds(&self, axis: usize) -> (r: (T, T))
        requires
            axis < 3,
        ensures
            r.0 == self@.lo[axis as int],
            r.1 == self@.hi[axis as int],
    {
        let min = self.p0.get(axis);
        let max = self.p1.get(axis);
        (min, max)
    }

    /// The extent of the box along one axis.
    pub fn get_axis_length(&self, axis: usize) -> (r: T)
        requires
            axis < 3,
        ensures
            r == axis_length(self@, axis as int),
    {
        let (min, max) = self.get_axis_bounds(axis);
        max.sub(min)
    }

    /// Turns the box into the cube around its centre whose side is the longest
    /// side of the box.
    pub fn make_cube(&mut self)
        ensures
            final(self)@ == cube_of(old(self)@),
    {
        let mut side = self.get_axis_length(0);
        let second = self.get_axis_length(1);
        if side.lt(second) {
            side = second;
        }
        let third = self.get_axis_length(2);
        if side.lt(third) {
            side = third;
        }
        let reach = side.mul(half());
        let cx = self.p0.get(0).add(self.p1.get(0)).mul(half());
        let cy = self.p0.get(1).add(self.p1.get(1)).mul(half());
        let cz = self.p0.get(2).add(self.p1.get(2)).mul(half());
        self.p0 = Vec3::from_array([cx.sub(reach), cy.sub(reach), cz.sub(reach)]);
        self.p1 = Vec3::from_array([cx.add(reach), cy.add(reach), cz.add(reach)]);
        proof {
            assert(self@.lo =~= cube_of(old(self)@).lo);
            assert(self@.hi =~= cube_of(old(self)@).hi);
        }
    }

    /// Moves the lower bound of one axis down by `pad` and its upper bound up by `pad`.
    pub fn pad_axis(&mut self, pad: T, axis: usize)
        requires
            axis < 3,
        ensures
            final(self)@ == padded(old(self)@, pad, axis as int),
    {
        let (min, max) = self.get_axis_bounds(axis);
        self.p0.set(axis, min.sub(pad));
        self.p1.set(axis, max.add(pad));
    }

    /// A box with the same corners.
    pub fn copy(&self) -> (r: Self)
        ensures
            r@ == self@,
    {
        BoundingBox { p0: self.p0.copy(), p1: self.p1.copy() }
    }
}

/// A box built from two corners is never inverted, whatever the order of the
/// corners, and is ordered on every axis on which the two coordinates are comparable.
pub proof fn lemma_canonical_ordered<T: Float>(a: Seq<T>, b: Seq<T>)
    requires
        a.len() == 3,
        b.len() == 3,
    ensures
        not_inverted(canonical(a, b)),
        canonical(b, a).lo.len() == 3,
        forall|i: int|
            0 <= i < 3 && crate::float::comparable(a[i], b[i]) ==> (#[trigger] canonical(
                a,
                b,
            ).lo[i]).le_spec(canonical(a, b).hi[i]),
{
    let c = canonical(a, b);
    assert forall|i: int| 0 <= i < 3 implies !(#[trigger] c.hi[i]).lt_spec(c.lo[i]) by {
        T::order_laws(a[i], b[i], a[i]);
        T::order_laws(b[i], a[i], b[i]);
    }
    assert forall|i: int| 0 <= i < 3 && crate::float::comparable(a[i], b[i]) implies (
    #[trigger] c.lo[i]).le_spec(c.hi[i]) by {
        T::order_laws(a[i], b[i], a[i]);
        T::order_laws(b[i], a[i], b[i]);
    }
}

/// A grown box is the union of the two boxes: it is no wider than they make it.
/// Each of its bounds is the bound of one of the two.
pub proof fn lemma_grown_is_tight<T: Float>(a: BoxModel<T>, b: BoxModel<T>)
    ensures
        forall|i: int|
            0 <= i < 3 ==> (#[trigger] grown(a, b).lo[i]) == a.lo[i] || grown(a, b).lo[i] == b.lo[i],
        forall|i: int|
            0 <= i < 3 ==> (#[trigger] grown(a, b).hi[i]) == a.hi[i] || grown(a, b).hi[i] == b.hi[i],
{
}

/// A grown box contains both the box it grew from and the box it grew to cover, and
/// growing keeps boxes from inverting.
pub proof fn lemma_grown_covers<T: Float>(a: BoxModel<T>, b: BoxModel<T>)
    requires
        a.lo.len() == 3,
        a.hi.len() == 3,
        b.lo.len() == 3,
        b.hi.len() == 3,
    ensures
        box_contains(grown(a, b), b),
        box_contains(grown(a, b), a),
        not_inverted(a) && not_inverted(b) ==> not_inverted(grown(a, b)),
{
    let g = grown(a, b);
    assert forall|i: int| 0 <= i < 3 implies #[trigger] axis_within(g, b, i) by {
        T::order_laws(b.lo[i], b.lo[i], b.lo[i]);
        T::order_laws(b.hi[i], b.hi[i], b.hi[i]);
    }
    assert forall|i: int| 0 <= i < 3 implies #[trigger] axis_within(g, a, i) by {
        T::order_laws(a.lo[i], a.lo[i], a.lo[i]);
        T::order_laws(a.hi[i], a.hi[i], a.hi[i]);
        T::order_laws(a.lo[i], b.lo[i], a.lo[i]);
        T::order_laws(b.lo[i], a.lo[i], b.lo[i]);
        T::order_laws(a.hi[i], b.hi[i], a.hi[i]);
        T::order_laws(b.hi[i], a.hi[i], b.hi[i]);
    }
    if not_inverted(a) && not_inverted(b) {
        assert forall|i: int| 0 <= i < 3 implies !(#[trigger] g.hi[i]).lt_spec(g.lo[i]) by {
            assert(!a.hi[i].lt_spec(a.lo[i]));
            assert(!b.hi[i].lt_spec(b.lo[i]));
            T::order_laws(a.hi[i], b.hi[i], a.lo[i]);
            T::order_laws(b.hi[i], a.lo[i], a.lo[i]);
            T::order_laws(a.hi[i], b.lo[i], a.lo[i]);
            T::order_laws(b.lo[i], a.lo[i], a.lo[i]);
            T::order_laws(a.hi[i], b.hi[i], b.lo[i]);
            T::order_laws(a.hi[i], a.lo[i], b.lo[i]);
        }
    }
}

/// Every box contains itself.
pub proof fn lemma_contains_reflexive<T: Float>(a: BoundingBox<T>)
    ensures
        box_contains(a@, a@),
{
    assert forall|i: int| 0 <= i < 3 implies #[trigger] axis_within(a@, a@, i) by {
        crate::float::lemma_lt_irreflexive(a@.lo[i]);
        crate::float::lemma_lt_irreflexive(a@.hi[i]);
    }
}

/// Two boxes that contain each other have the same bounds: on no axis is a bound
/// of one strictly below the corresponding bound of the other, and wherever the two
/// corresponding bounds are comparable they are numerically equal.
pub proof fn lemma_contains_antisymmetric<T: Float>(a: BoundingBox<T>, b: BoundingBox<T>)
    requires
        box_contains(a@, b@),
        box_contains(b@, a@),
    ensures
        forall|i: int|
            0 <= i < 3 ==> !(#[trigger] a@.lo[i]).lt_spec(b@.lo[i]) && !b@.lo[i].lt_spec(a@.lo[i]),
        forall|i: int|
            0 <= i < 3 ==> !(#[trigger] a@.hi[i]).lt_spec(b@.hi[i]) && !b@.hi[i].lt_spec(a@.hi[i]),
        forall|i: int|
            0 <= i < 3 && crate::float::comparable(a@.lo[i], b@.lo[i])
                ==> crate::float::same_value(#[trigger] a@.lo[i], b@.lo[i]),
        forall|i: int|
            0 <= i < 3 && crate::float::comparable(a@.hi[i], b@.hi[i])
                ==> crate::float::same_value(#[trigger] a@.hi[i], b@.hi[i]),
{
    assert forall|i: int| 0 <= i < 3 implies !(#[trigger] a@.lo[i]).lt_spec(b@.lo[i])
        && !b@.lo[i].lt_spec(a@.lo[i]) by {
        assert(axis_within(a@, b@, i));
        assert(axis_within(b@, a@, i));
    }
    assert forall|i: int| 0 <= i < 3 implies !(#[trigger] a@.hi[i]).lt_spec(b@.hi[i])
        && !b@.hi[i].lt_spec(a@.hi[i]) by {
        assert(axis_within(a@, b@, i));
        assert(axis_within(b@, a@, i));
    }
    assert forall|i: int|
        0 <= i < 3 && crate::float::comparable(a@.lo[i], b@.lo[i]) implies crate::float::same_value(
        #[trigger] a@.lo[i],
        b@.lo[i],
    ) by {
        assert(axis_within(a@, b@, i));
        assert(axis_within(b@, a@, i));
        crate::float::lemma_comparable_total(a@.lo[i], b@.lo[i]);
    }
    assert forall|i: int|
        0 <= i < 3 && crate::float::comparable(a@.hi[i], b@.hi[i]) implies crate::float::same_value(
        #[trigger] a@.hi[i],
        b@.hi[i],
    ) by {
        assert(axis_within(a@, b@, i));
        assert(axis_within(b@, a@, i));
        crate::float::lemma_comparable_total(a@.hi[i], b@.hi[i]);
    }
}

} // verus!
