//! Closed ranges of scalars.

use crate::scalar::faithful;
use crate::scalar::from_i32_of;
use crate::scalar::ge;
use crate::scalar::gt;
use crate::scalar::infinities_bound;
use crate::scalar::infinity_of;
use crate::scalar::is_number;
use crate::scalar::le;
use crate::scalar::lt;
use crate::scalar::max;
use crate::scalar::min;
use crate::scalar::neg_infinity_of;
use crate::scalar::obeys_order;
use crate::scalar::operations_are_functions;
use crate::scalar::ordered;
use crate::scalar::spec_max;
use crate::scalar::spec_min;
use crate::scalar::total;
use crate::scalar::Scalar;
use vstd::prelude::*;
use vstd::std_specs::ops::AddSpec;
use vstd::std_specs::ops::DivSpec;
use vstd::std_specs::ops::SubSpec;

verus! {

/// The range from `min` to `max`, both ends included. A range whose `min`
/// lies above its `max` holds nothing.
#[derive(Debug, Clone, Copy)]
pub struct Interval<T: Scalar> {
    pub min: T,
    pub max: T,
}

impl<T: Scalar> Interval<T> {
    pub fn new(min: T, max: T) -> (r: Self)
        ensures
            r == (Interval { min, max }),
    {
        Self { min, max }
    }

    /// The range that holds nothing and that merging leaves no trace of.
    pub open spec fn spec_empty() -> Self {
        Interval { min: infinity_of::<T>(), max: neg_infinity_of::<T>() }
    }

    /// The range that holds every number.
    pub open spec fn spec_universe() -> Self {
        Interval { min: neg_infinity_of::<T>(), max: infinity_of::<T>() }
    }

    pub fn empty() -> (r: Self)
        ensures
            operations_are_functions::<T>() ==> r == Self::spec_empty(),
    {
        Self { min: T::infinity(), max: T::neg_infinity() }
    }

    pub fn universe() -> (r: Self)
        ensures
            operations_are_functions::<T>() ==> r == Self::spec_universe(),
    {
        Self { min: T::neg_infinity(), max: T::infinity() }
    }

    /// The tightest range around both `a` and `b`.
    pub open spec fn spec_merge(a: Self, b: Self) -> Self {
        Interval { min: spec_min(a.min, b.min), max: spec_max(a.max, b.max) }
    }

    pub fn new_with_interval(a: Self, b: Self) -> (r: Self)
        ensures
            obeys_order::<T>() ==> r == Self::spec_merge(a, b),
    {
        Self { min: min(a.min, b.min), max: max(a.max, b.max) }
    }

    /// Whether `x` lies in the range, ends included.
    pub open spec fn spec_contains(self, x: T) -> bool {
        le(self.min, x) && le(x, self.max)
    }

    pub fn contains(self, x: T) -> (r: bool)
        ensures
            obeys_order::<T>() ==> r == self.spec_contains(x),
    {
        self.min <= x && x <= self.max
    }

    /// Whether `x` lies in the range, ends left out.
    pub open spec fn spec_surround(self, x: T) -> bool {
        lt(self.min, x) && lt(x, self.max)
    }

    pub fn surround(self, x: T) -> (r: bool)
        ensures
            obeys_order::<T>() ==> r == self.spec_surround(x),
    {
        self.min < x && x < self.max
    }

    pub fn min(self) -> (r: T)
        ensures
            r == self.min,
    {
        self.min
    }

    pub fn max(self) -> (r: T)
        ensures
            r == self.max,
    {
        self.max
    }

    pub fn set_min(&mut self, min: T)
        ensures
            *final(self) == (Interval { min, max: old(self).max }),
    {
        self.min = min;
    }

    pub fn set_max(&mut self, max: T)
        ensures
            *final(self) == (Interval { min: old(self).min, max }),
    {
        self.max = max;
    }

    /// `x` brought into the range: the nearer end where `x` lies outside,
    /// `x` itself otherwise.
    pub open spec fn spec_clamp(self, x: T) -> T {
        if lt(x, self.min) {
            self.min
        } else if gt(x, self.max) {
            self.max
        } else {
            x
        }
    }

    pub fn clamp(self, x: T) -> (r: T)
        ensures
            r == x || r == self.min || r == self.max,
            obeys_order::<T>() ==> r == self.spec_clamp(x),
    {
        if x < self.min {
            self.min
        } else if x > self.max {
            self.max
        } else {
            x
        }
    }

    /// The range widened by `delta` in all, half of it at either end.
    pub open spec fn spec_expand(self, delta: T) -> Self {
        let padding = delta.div_spec(from_i32_of::<T>(2));
        Interval { min: self.min.sub_spec(padding), max: self.max.add_spec(padding) }
    }

    pub fn expand(self, delta: T) -> (r: Self)
        requires
            total::<T>(),
        ensures
            faithful::<T>() ==> r == self.spec_expand(delta),
    {
        let padding = delta / T::from_i32(2);
        Self { min: self.min - padding, max: self.max + padding }
    }

    /// Both ends of the range are numbers.
    pub open spec fn spec_ends_are_numbers(self) -> bool {
        is_number(self.min) && is_number(self.max)
    }

    /// The range reaches at least as far as `inner` at either end.
    pub open spec fn spec_covers(self, inner: Self) -> bool {
        le(self.min, inner.min) && le(inner.max, self.max)
    }

    /// A range holds every number between its ends.
    pub proof fn lemma_contains_between(a: T, b: T, x: T)
        requires
            le(a, x),
            le(x, b),
        ensures
            (Interval { min: a, max: b }).spec_contains(x),
    {
    }

    /// Clamping a number into a range whose ends are in order gives a number
    /// of that range.
    pub proof fn lemma_clamp_within(self, y: T)
        requires
            ordered::<T>(),
            le(self.min, self.max),
            is_number(y),
        ensures
            self.spec_contains(self.spec_clamp(y)),
    {
        assert(is_number(self.min) && is_number(self.max));
        assert(le(y, self.min) || le(self.min, y));
        assert(le(y, self.max) || le(self.max, y));
    }

    /// Merging the empty range with a range whose ends are numbers gives that
    /// range back, from either side.
    pub proof fn lemma_merge_empty(self)
        requires
            ordered::<T>(),
            infinities_bound::<T>(),
            is_number(self.min),
            is_number(self.max),
        ensures
            Self::spec_merge(Self::spec_empty(), self) == self,
            Self::spec_merge(self, Self::spec_empty()) == self,
    {
        let top = infinity_of::<T>();
        let bottom = neg_infinity_of::<T>();
        assert(le(self.min, top));
        assert(le(bottom, self.max));
        assert(lt(top, self.min) ==> gt(self.min, top));
        assert(gt(bottom, self.max) ==> lt(self.max, bottom));
        assert(!lt(self.min, top) ==> le(top, self.min)) by {
            assert(ge(self.min, top) <==> le(top, self.min));
        }
        assert(!gt(self.max, bottom) ==> le(self.max, bottom)) by {
            assert(le(self.max, bottom) <==> ge(bottom, self.max));
            assert(gt(self.max, bottom) <==> lt(bottom, self.max));
        }
    }
}

impl<T: Scalar> Default for Interval<T> {
    fn default() -> (r: Self)
        ensures
            operations_are_functions::<T>() ==> r == Self::spec_empty(),
    {
        Self::empty()
    }
}

} // verus!
