//! Axis-aligned bounding boxes and the slab test.

use crate::interval::Interval;
use crate::ray::Point;
use crate::ray::Ray;
use crate::scalar::arithmetic_is_monotone;
use crate::scalar::faithful;
use crate::scalar::from_i32_of;
use crate::scalar::ge;
use crate::scalar::gt;
use crate::scalar::is_number;
use crate::scalar::le;
use crate::scalar::lemma_min_max_bound;
use crate::scalar::lt;
use crate::scalar::max;
use crate::scalar::min;
use crate::scalar::obeys_order;
use crate::scalar::operations_are_functions;
use crate::scalar::ordered;
use crate::scalar::spec_max;
use crate::scalar::spec_min;
use crate::scalar::total;
use crate::scalar::Scalar;
use vstd::prelude::*;
use vstd::std_specs::ops::DivSpec;
use vstd::std_specs::ops::MulSpec;
use vstd::std_specs::ops::SubSpec;

verus! {

/// A box with faces square to the axes: one range per axis.
#[derive(Debug, Clone, Copy)]
pub struct Aabb<T: Scalar> {
    pub x: Interval<T>,
    pub y: Interval<T>,
    pub z: Interval<T>,
}

impl<T: Scalar> Aabb<T> {
    pub fn new_with_interval(ix: Interval<T>, iy: Interval<T>, iz: Interval<T>) -> (r: Self)
        ensures
            r == (Aabb { x: ix, y: iy, z: iz }),
    {
        Self { x: ix, y: iy, z: iz }
    }

    /// The box with `a` and `b` at opposite corners.
    pub open spec fn spec_new(a: Point<T>, b: Point<T>) -> Self {
        Aabb {
            x: Interval { min: spec_min(a.x, b.x), max: spec_max(a.x, b.x) },
            y: Interval { min: spec_min(a.y, b.y), max: spec_max(a.y, b.y) },
            z: Interval { min: spec_min(a.z, b.z), max: spec_max(a.z, b.z) },
        }
    }

    pub fn new(a: Point<T>, b: Point<T>) -> (r: Self)
        ensures
            obeys_order::<T>() ==> r == Self::spec_new(a, b),
    {
        Self::new_with_interval(
            Interval::new(min(a.x, b.x), max(a.x, b.x)),
            Interval::new(min(a.y, b.y), max(a.y, b.y)),
            Interval::new(min(a.z, b.z), max(a.z, b.z)),
        )
    }

    /// The tightest box around both `box0` and `box1`.
    pub open spec fn spec_merge(box0: Self, box1: Self) -> Self {
        Aabb {
            x: Interval::spec_merge(box0.x, box1.x),
            y: Interval::spec_merge(box0.y, box1.y),
            z: Interval::spec_merge(box0.z, box1.z),
        }
    }

    pub fn new_with_boxes(box0: &Self, box1: &Self) -> (r: Self)
        ensures
            obeys_order::<T>() ==> r == Self::spec_merge(*box0, *box1),
    {
        Self {
            x: Interval::new_with_interval(box0.x, box1.x),
            y: Interval::new_with_interval(box0.y, box1.y),
            z: Interval::new_with_interval(box0.z, box1.z),
        }
    }

    /// The box that holds nothing.
    pub open spec fn spec_empty() -> Self {
        Aabb {
            x: Interval::spec_empty(),
            y: Interval::spec_empty(),
            z: Interval::spec_empty(),
        }
    }

    /// The range along axis `n`: `y` for 1, `z` for 2, `x` otherwise.
    pub open spec fn spec_axis(self, n: int) -> Interval<T> {
        if n == 1 {
            self.y
        } else if n == 2 {
            self.z
        } else {
            self.x
        }
    }

    pub fn axis(&self, n: usize) -> (r: &Interval<T>)
        ensures
            *r == self.spec_axis(n as int),
    {
        if n == 1 {
            &self.y
        } else if n == 2 {
            &self.z
        } else {
            &self.x
        }
    }

    /// The part of `ray_t` in which `r` runs between the two faces that
    /// bound the box along axis `a`. A ray that runs along the faces divides
    /// by `from_i32(0)`; what comes of that is left to the scalar.
    pub open spec fn spec_slab(self, r: Ray<T>, a: int, ray_t: Interval<T>) -> Interval<T> {
        let inv_d = from_i32_of::<T>(1).div_spec(r.direction.spec_axis(a));
        let orig = r.origin.spec_axis(a);
        let near = self.spec_axis(a).min.sub_spec(orig).mul_spec(inv_d);
        let far = self.spec_axis(a).max.sub_spec(orig).mul_spec(inv_d);
        let t0 = if lt(inv_d, from_i32_of::<T>(0)) {
            far
        } else {
            near
        };
        let t1 = if lt(inv_d, from_i32_of::<T>(0)) {
            near
        } else {
            far
        };
        Interval {
            min: if gt(t0, ray_t.min) {
                t0
            } else {
                ray_t.min
            },
            max: if lt(t1, ray_t.max) {
                t1
            } else {
                ray_t.max
            },
        }
    }

    /// Whether `r` passes the slabs of axes `a`, `a + 1`, up to the last, each
    /// narrowing the range left by the one before; a slab that leaves a range
    /// whose end is not above its start ends the test.
    pub open spec fn spec_hit_from(self, r: Ray<T>, a: int, ray_t: Interval<T>) -> bool
        decreases 3 - a,
    {
        if a >= 3 {
            true
        } else {
            let narrowed = self.spec_slab(r, a, ray_t);
            if le(narrowed.max, narrowed.min) {
                false
            } else {
                self.spec_hit_from(r, a + 1, narrowed)
            }
        }
    }

    /// Whether `r` crosses the box at some parameter within `ray_t`.
    pub open spec fn spec_hit(self, r: Ray<T>, ray_t: Interval<T>) -> bool {
        self.spec_hit_from(r, 0, ray_t)
    }

    pub fn hit(&self, r: &Ray<T>, ray_t: Interval<T>) -> (hit: bool)
        requires
            total::<T>(),
        ensures
            faithful::<T>() ==> hit == self.spec_hit(*r, ray_t),
    {
        let mut t = ray_t;
        let mut a: usize = 0;
        while a < 3
            invariant
                total::<T>(),
                a <= 3,
                faithful::<T>() ==> self.spec_hit(*r, ray_t) == self.spec_hit_from(*r, a as int, t),
            decreases 3 - a,
        {
            let ghost before = t;
            let inv_d = T::from_i32(1) / r.direction.axis(a);
            let orig = r.origin.axis(a);

            let mut t0 = (self.axis(a).min - orig) * inv_d;
            let mut t1 = (self.axis(a).max - orig) * inv_d;

            if inv_d < T::from_i32(0) {
                let swap = t0;
                t0 = t1;
                t1 = swap;
            }
            if t0 > t.min {
                t.min = t0;
            }
            if t1 < t.max {
                t.max = t1;
            }
            assert(faithful::<T>() ==> t == self.spec_slab(*r, a as int, before));
            if t.max <= t.min {
                return false;
            }
            a = a + 1;
        }
        true
    }

    /// Whether `p` lies inside the box, off its faces.
    pub open spec fn spec_holds_inside(self, p: Point<T>) -> bool {
        self.x.spec_surround(p.x) && self.y.spec_surround(p.y) && self.z.spec_surround(p.z)
    }

    /// The range starts at or before `from_i32(0)` and ends after it.
    pub open spec fn spec_holds_the_start(range: Interval<T>) -> bool {
        le(range.min, from_i32_of::<T>(0)) && lt(from_i32_of::<T>(0), range.max)
    }

    /// For the ray `r` and this box, the slab test along axis `a` gives
    /// the signs that exact arithmetic gives. The inverse of the
    /// direction is above or below `from_i32(0)`, as it is for a ray that
    /// does not move along the axis, whose inverse is an infinity. The
    /// difference of a face and a start on the far side of it lies on the
    /// side of `from_i32(0)` where it belongs, and so does its product
    /// with the inverse.
    pub open spec fn spec_slab_keeps_signs(self, r: Ray<T>, a: int) -> bool {
        let zero = from_i32_of::<T>(0);
        let inv_d = from_i32_of::<T>(1).div_spec(r.direction.spec_axis(a));
        let orig = r.origin.spec_axis(a);
        let below = self.spec_axis(a).min.sub_spec(orig);
        let above = self.spec_axis(a).max.sub_spec(orig);
        &&& lt(inv_d, zero) || gt(inv_d, zero)
        &&& lt(self.spec_axis(a).min, orig) ==> lt(below, zero)
        &&& lt(orig, self.spec_axis(a).max) ==> gt(above, zero)
        &&& gt(inv_d, zero) && lt(below, zero) ==> lt(below.mul_spec(inv_d), zero)
        &&& gt(inv_d, zero) && gt(above, zero) ==> gt(above.mul_spec(inv_d), zero)
        &&& lt(inv_d, zero) && lt(below, zero) ==> gt(below.mul_spec(inv_d), zero)
        &&& lt(inv_d, zero) && gt(above, zero) ==> lt(above.mul_spec(inv_d), zero)
    }

    /// A slab test of a ray that starts between the two faces leaves, of a
    /// range that starts at or before `from_i32(0)` and ends after it, such
    /// a range; where the test gives the signs of exact arithmetic.
    pub proof fn lemma_slab_keeps_the_start(self, r: Ray<T>, a: int, ray_t: Interval<T>)
        requires
            ordered::<T>(),
            self.spec_slab_keeps_signs(r, a),
            self.spec_axis(a).spec_surround(r.origin.spec_axis(a)),
            Self::spec_holds_the_start(ray_t),
        ensures
            Self::spec_holds_the_start(self.spec_slab(r, a, ray_t)),
    {
        let zero = from_i32_of::<T>(0);
        let inv_d = from_i32_of::<T>(1).div_spec(r.direction.spec_axis(a));
        let orig = r.origin.spec_axis(a);
        let below = self.spec_axis(a).min.sub_spec(orig);
        let above = self.spec_axis(a).max.sub_spec(orig);
        let before = below.mul_spec(inv_d);
        let after = above.mul_spec(inv_d);
        assert(lt(below, zero));
        assert(gt(above, zero));
        assert(is_number(zero));
        if gt(inv_d, zero) {
            assert(lt(zero, inv_d));
            assert(lt(inv_d, zero) ==> lt(zero, zero));
            assert(lt(zero, zero) ==> gt(zero, zero));
            assert(lt(before, zero));
            assert(gt(after, zero));
            assert(lt(zero, after));
        } else {
            assert(lt(inv_d, zero));
            assert(gt(before, zero));
            assert(lt(zero, before));
            assert(lt(after, zero));
        }
        let narrowed = self.spec_slab(r, a, ray_t);
        assert(le(narrowed.min, zero));
        assert(lt(zero, narrowed.max));
    }

    /// A ray that starts inside the box crosses the box within any range
    /// that starts at or before `from_i32(0)` and ends after it, whether
    /// or not it moves along every axis; where the slab tests give the
    /// signs of exact arithmetic and the comparisons order the scalars as
    /// a line.
    pub proof fn lemma_hit_from_inside(self, r: Ray<T>, ray_t: Interval<T>)
        requires
            ordered::<T>(),
            self.spec_holds_inside(r.origin),
            self.spec_slab_keeps_signs(r, 0),
            self.spec_slab_keeps_signs(r, 1),
            self.spec_slab_keeps_signs(r, 2),
            Self::spec_holds_the_start(ray_t),
        ensures
            self.spec_hit(r, ray_t),
    {
        assert(self.spec_axis(0) == self.x && r.origin.spec_axis(0) == r.origin.x);
        assert(self.spec_axis(1) == self.y && r.origin.spec_axis(1) == r.origin.y);
        assert(self.spec_axis(2) == self.z && r.origin.spec_axis(2) == r.origin.z);
        let first = self.spec_slab(r, 0, ray_t);
        self.lemma_slab_keeps_the_start(r, 0, ray_t);
        Self::lemma_holding_the_start_is_not_empty(first);
        let second = self.spec_slab(r, 1, first);
        self.lemma_slab_keeps_the_start(r, 1, first);
        Self::lemma_holding_the_start_is_not_empty(second);
        let third = self.spec_slab(r, 2, second);
        self.lemma_slab_keeps_the_start(r, 2, second);
        Self::lemma_holding_the_start_is_not_empty(third);
        assert(self.spec_hit_from(r, 3, third));
        assert(self.spec_hit_from(r, 2, second));
        assert(self.spec_hit_from(r, 1, first));
    }

    /// A range that starts at or before `from_i32(0)` and ends after it
    /// has its end above its start.
    pub proof fn lemma_holding_the_start_is_not_empty(range: Interval<T>)
        requires
            ordered::<T>(),
            Self::spec_holds_the_start(range),
        ensures
            !le(range.max, range.min),
    {
        let zero = from_i32_of::<T>(0);
        if le(range.max, range.min) {
            assert(lt(zero, range.min));
            assert(lt(zero, zero));
            assert(gt(zero, zero));
        }
    }

    /// Along every axis the box reaches at least as far as `inner`.
    pub open spec fn spec_covers(self, inner: Self) -> bool {
        &&& self.x.spec_covers(inner.x)
        &&& self.y.spec_covers(inner.y)
        &&& self.z.spec_covers(inner.z)
    }

    /// The ray parameters at which `r` crosses the two faces along axis
    /// `a`, the lower face first.
    pub open spec fn spec_crossings(self, r: Ray<T>, a: int) -> (T, T) {
        let inv_d = from_i32_of::<T>(1).div_spec(r.direction.spec_axis(a));
        let orig = r.origin.spec_axis(a);
        (
            self.spec_axis(a).min.sub_spec(orig).mul_spec(inv_d),
            self.spec_axis(a).max.sub_spec(orig).mul_spec(inv_d),
        )
    }

    /// For `r`, the differences and products of the slab test along axis
    /// `a` are numbers.
    pub open spec fn spec_slab_in_numbers(self, r: Ray<T>, a: int) -> bool {
        let orig = r.origin.spec_axis(a);
        &&& is_number(self.spec_axis(a).min.sub_spec(orig))
        &&& is_number(self.spec_axis(a).max.sub_spec(orig))
        &&& is_number(self.spec_crossings(r, a).0)
        &&& is_number(self.spec_crossings(r, a).1)
    }

    /// For `r`, the slab tests along all three axes are in numbers.
    pub open spec fn spec_slabs_in_numbers(self, r: Ray<T>) -> bool {
        &&& self.spec_slab_in_numbers(r, 0)
        &&& self.spec_slab_in_numbers(r, 1)
        &&& self.spec_slab_in_numbers(r, 2)
    }

    /// The slab of a box that covers another leaves, of a range that covers
    /// another, a range that covers what the slab of the other box leaves.
    pub proof fn lemma_slab_covers(
        self,
        inner: Self,
        r: Ray<T>,
        a: int,
        ray_t: Interval<T>,
        inner_t: Interval<T>,
    )
        requires
            ordered::<T>(),
            arithmetic_is_monotone::<T>(),
            self.spec_axis(a).spec_covers(inner.spec_axis(a)),
            self.spec_slab_in_numbers(r, a),
            inner.spec_slab_in_numbers(r, a),
            ray_t.spec_covers(inner_t),
            ray_t.spec_ends_are_numbers(),
            inner_t.spec_ends_are_numbers(),
        ensures
            self.spec_slab(r, a, ray_t).spec_covers(inner.spec_slab(r, a, inner_t)),
            self.spec_slab(r, a, ray_t).spec_ends_are_numbers(),
            inner.spec_slab(r, a, inner_t).spec_ends_are_numbers(),
    {
        let zero = from_i32_of::<T>(0);
        let inv_d = from_i32_of::<T>(1).div_spec(r.direction.spec_axis(a));
        let orig = r.origin.spec_axis(a);
        let outer_low = self.spec_axis(a).min.sub_spec(orig);
        let outer_high = self.spec_axis(a).max.sub_spec(orig);
        let inner_low = inner.spec_axis(a).min.sub_spec(orig);
        let inner_high = inner.spec_axis(a).max.sub_spec(orig);
        assert(le(outer_low, inner_low));
        assert(le(inner_high, outer_high));
        let outer = self.spec_crossings(r, a);
        let within = inner.spec_crossings(r, a);
        assert(outer.0 == outer_low.mul_spec(inv_d) && outer.1 == outer_high.mul_spec(inv_d));
        assert(within.0 == inner_low.mul_spec(inv_d) && within.1 == inner_high.mul_spec(inv_d));
        let outer_t0 = if lt(inv_d, zero) {
            outer.1
        } else {
            outer.0
        };
        let outer_t1 = if lt(inv_d, zero) {
            outer.0
        } else {
            outer.1
        };
        let inner_t0 = if lt(inv_d, zero) {
            within.1
        } else {
            within.0
        };
        let inner_t1 = if lt(inv_d, zero) {
            within.0
        } else {
            within.1
        };
        assert(le(outer_t0, inner_t0));
        assert(le(inner_t1, outer_t1));
        let wide = self.spec_slab(r, a, ray_t);
        let narrow = inner.spec_slab(r, a, inner_t);
        assert(gt(inner_t0, inner_t.min) <==> lt(inner_t.min, inner_t0));
        assert(gt(outer_t0, ray_t.min) <==> lt(ray_t.min, outer_t0));
        assert(le(inner_t0, inner_t.min) || le(inner_t.min, inner_t0));
        assert(ge(inner_t0, inner_t.min) <==> le(inner_t.min, inner_t0));
        assert(le(inner_t1, inner_t.max) || le(inner_t.max, inner_t1));
        assert(ge(inner_t1, inner_t.max) <==> le(inner_t.max, inner_t1));
        if gt(inner_t0, inner_t.min) {
            assert(lt(inner_t.min, inner_t0));
            assert(lt(ray_t.min, inner_t0));
            assert(le(ray_t.min, inner_t0));
        } else {
            if !le(inner_t0, inner_t.min) {
                assert(le(inner_t.min, inner_t0));
                assert(lt(inner_t.min, inner_t0));
            }
            assert(le(outer_t0, inner_t.min));
        }
        assert(le(wide.min, narrow.min));
        if lt(inner_t1, inner_t.max) {
            assert(lt(inner_t1, ray_t.max));
            assert(le(inner_t1, ray_t.max));
        } else {
            if !le(inner_t.max, inner_t1) {
                assert(le(inner_t1, inner_t.max));
                assert(lt(inner_t1, inner_t.max));
            }
            assert(le(inner_t.max, outer_t1));
        }
        assert(le(narrow.max, wide.max));
    }

    /// A range whose ends are numbers and whose end is above its start
    /// lies in no range that is empty.
    pub proof fn lemma_covering_is_not_empty(range: Interval<T>, inner: Interval<T>)
        requires
            ordered::<T>(),
            range.spec_covers(inner),
            inner.spec_ends_are_numbers(),
            !le(inner.max, inner.min),
        ensures
            !le(range.max, range.min),
    {
        assert(le(inner.min, inner.max) || le(inner.max, inner.min));
        assert(ge(inner.max, inner.min) <==> le(inner.min, inner.max));
        assert(gt(inner.max, inner.min) <==> lt(inner.min, inner.max));
        assert(lt(inner.min, inner.max));
        assert(lt(range.min, inner.max));
        assert(lt(range.min, range.max));
        if le(range.max, range.min) {
            assert(lt(range.min, range.min));
            assert(gt(range.min, range.min));
        }
    }

    /// A ray that passes the slabs of a box from axis `a` on passes those of
    /// a box that covers it, within a range that covers the range.
    pub proof fn lemma_covering_box_is_hit_from(
        self,
        inner: Self,
        r: Ray<T>,
        a: int,
        ray_t: Interval<T>,
        inner_t: Interval<T>,
    )
        requires
            ordered::<T>(),
            arithmetic_is_monotone::<T>(),
            0 <= a <= 3,
            self.spec_covers(inner),
            self.spec_slabs_in_numbers(r),
            inner.spec_slabs_in_numbers(r),
            ray_t.spec_covers(inner_t),
            ray_t.spec_ends_are_numbers(),
            inner_t.spec_ends_are_numbers(),
            inner.spec_hit_from(r, a, inner_t),
        ensures
            self.spec_hit_from(r, a, ray_t),
        decreases 3 - a,
    {
        if a < 3 {
            self.lemma_slab_covers(inner, r, a, ray_t, inner_t);
            let wide = self.spec_slab(r, a, ray_t);
            let narrow = inner.spec_slab(r, a, inner_t);
            Self::lemma_covering_is_not_empty(wide, narrow);
            self.lemma_covering_box_is_hit_from(inner, r, a + 1, wide, narrow);
        }
    }

    /// A ray that crosses a box crosses every box that covers it, for
    /// scalars whose comparisons order them as a line and whose arithmetic
    /// is monotone, where the slab tests are in numbers.
    pub proof fn lemma_covering_box_is_hit(self, inner: Self, r: Ray<T>, ray_t: Interval<T>)
        requires
            ordered::<T>(),
            arithmetic_is_monotone::<T>(),
            self.spec_covers(inner),
            self.spec_slabs_in_numbers(r),
            inner.spec_slabs_in_numbers(r),
            ray_t.spec_ends_are_numbers(),
            inner.spec_hit(r, ray_t),
        ensures
            self.spec_hit(r, ray_t),
    {
        self.lemma_covering_box_is_hit_from(inner, r, 0, ray_t, ray_t);
    }

    /// A search that reaches to no number passes every slab: the range
    /// that a slab leaves still ends in no number, and is not empty.
    pub proof fn lemma_endless_is_hit_from(self, r: Ray<T>, a: int, ray_t: Interval<T>)
        requires
            ordered::<T>(),
            0 <= a <= 3,
            !is_number(ray_t.max),
        ensures
            self.spec_hit_from(r, a, ray_t),
        decreases 3 - a,
    {
        if a < 3 {
            let narrowed = self.spec_slab(r, a, ray_t);
            let crossings = self.spec_crossings(r, a);
            assert(lt(crossings.0, ray_t.max) ==> le(crossings.0, ray_t.max));
            assert(lt(crossings.1, ray_t.max) ==> le(crossings.1, ray_t.max));
            assert(narrowed.max == ray_t.max);
            assert(le(narrowed.max, narrowed.min) ==> is_number(narrowed.max));
            self.lemma_endless_is_hit_from(r, a + 1, narrowed);
        }
    }

    /// The merge of two boxes whose bounds are numbers covers both.
    pub proof fn lemma_merge_covers(box0: Self, box1: Self)
        requires
            ordered::<T>(),
            box0.spec_bounded_by_numbers(),
            box1.spec_bounded_by_numbers(),
        ensures
            Self::spec_merge(box0, box1).spec_covers(box0),
            Self::spec_merge(box0, box1).spec_covers(box1),
            Self::spec_merge(box0, box1).spec_bounded_by_numbers(),
    {
        lemma_min_max_bound(box0.x.min, box1.x.min);
        lemma_min_max_bound(box0.x.max, box1.x.max);
        lemma_min_max_bound(box0.y.min, box1.y.min);
        lemma_min_max_bound(box0.y.max, box1.y.max);
        lemma_min_max_bound(box0.z.min, box1.z.min);
        lemma_min_max_bound(box0.z.max, box1.z.max);
    }

    /// Where the slab tests of two boxes are in numbers, so are those of
    /// their merge: each of its bounds is a bound of one of the two.
    pub proof fn lemma_merge_slabs_in_numbers(box0: Self, box1: Self, r: Ray<T>)
        requires
            box0.spec_slabs_in_numbers(r),
            box1.spec_slabs_in_numbers(r),
        ensures
            Self::spec_merge(box0, box1).spec_slabs_in_numbers(r),
    {
        let merged = Self::spec_merge(box0, box1);
        assert(merged.spec_axis(0).min == box0.spec_axis(0).min || merged.spec_axis(0).min
            == box1.spec_axis(0).min);
        assert(merged.spec_axis(0).max == box0.spec_axis(0).max || merged.spec_axis(0).max
            == box1.spec_axis(0).max);
        assert(merged.spec_axis(1).min == box0.spec_axis(1).min || merged.spec_axis(1).min
            == box1.spec_axis(1).min);
        assert(merged.spec_axis(1).max == box0.spec_axis(1).max || merged.spec_axis(1).max
            == box1.spec_axis(1).max);
        assert(merged.spec_axis(2).min == box0.spec_axis(2).min || merged.spec_axis(2).min
            == box1.spec_axis(2).min);
        assert(merged.spec_axis(2).max == box0.spec_axis(2).max || merged.spec_axis(2).max
            == box1.spec_axis(2).max);
    }

    /// Whether `p` lies in the box, faces included.
    pub open spec fn spec_encloses(self, p: Point<T>) -> bool {
        self.x.spec_contains(p.x) && self.y.spec_contains(p.y) && self.z.spec_contains(p.z)
    }

    /// Every bound of the box is a number.
    pub open spec fn spec_bounded_by_numbers(self) -> bool {
        &&& is_number(self.x.min) && is_number(self.x.max)
        &&& is_number(self.y.min) && is_number(self.y.max)
        &&& is_number(self.z.min) && is_number(self.z.max)
    }

    /// The merge of two boxes encloses every point that either encloses, its
    /// corners among them.
    pub proof fn lemma_merge_encloses(box0: Self, box1: Self, p: Point<T>)
        requires
            ordered::<T>(),
            box0.spec_bounded_by_numbers(),
            box1.spec_bounded_by_numbers(),
            box0.spec_encloses(p) || box1.spec_encloses(p),
        ensures
            Self::spec_merge(box0, box1).spec_encloses(p),
    {
        lemma_min_max_bound(box0.x.min, box1.x.min);
        lemma_min_max_bound(box0.x.max, box1.x.max);
        lemma_min_max_bound(box0.y.min, box1.y.min);
        lemma_min_max_bound(box0.y.max, box1.y.max);
        lemma_min_max_bound(box0.z.min, box1.z.min);
        lemma_min_max_bound(box0.z.max, box1.z.max);
    }

    /// A box whose ranges run upward encloses its eight corners.
    pub proof fn lemma_encloses_corners(self, p: Point<T>)
        requires
            ordered::<T>(),
            le(self.x.min, self.x.max),
            le(self.y.min, self.y.max),
            le(self.z.min, self.z.max),
            p.x == self.x.min || p.x == self.x.max,
            p.y == self.y.min || p.y == self.y.max,
            p.z == self.z.min || p.z == self.z.max,
        ensures
            self.spec_encloses(p),
            self.spec_bounded_by_numbers(),
    {
    }
}

impl<T: Scalar> Default for Aabb<T> {
    fn default() -> (r: Self)
        ensures
            operations_are_functions::<T>() ==> r == Self::spec_empty(),
    {
        Self { x: Interval::empty(), y: Interval::empty(), z: Interval::empty() }
    }
}

} // verus!
