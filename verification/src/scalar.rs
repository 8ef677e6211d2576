//! The numbers a renderer computes with.
//!
//! Everything in this crate is written over a scalar type `T` that brings
//! its own arithmetic: the operators `+ - * /`, negation and comparison of
//! the standard library, square roots through [`Sqrt`], and the operations
//! of [`Scalar`]. No trait here promises anything of what an operation
//! returns. What the crate proves is stated under hypotheses on `T`, each a
//! predicate of this module:
//!
//! - [`total`]: no operator refuses an operand. Every function that
//!   computes asks for it, so that it cannot fail.
//! - [`faithful`]: every operation is a function of its operands. Then
//!   "the value that `T::sqrt` returns on `x`" is one value, [`sqrt_of`]
//!   `(x)`, and a contract can say which value a function returns.
//! - [`ordered`], [`infinities_bound`], [`negation_mirrors`],
//!   [`arithmetic_is_monotone`]: laws of order and arithmetic that the
//!   theorems about ranges, boxes and hierarchies rest on, each named
//!   where it is needed.
//!
//! [`sqrt_of`]: crate::vec3::sqrt_of

use crate::vec3::add_is_total;
use crate::vec3::div_is_total;
use crate::vec3::mul_is_total;
use crate::vec3::sqrt_is_function;
use crate::vec3::sub_is_total;
use crate::vec3::Sqrt;
use std::ops::Add;
use std::ops::Div;
use std::ops::Mul;
use std::ops::Neg;
use std::ops::Sub;
use vstd::prelude::*;
use vstd::std_specs::cmp::PartialOrdIs;
use vstd::std_specs::cmp::PartialOrdSpec;
use vstd::std_specs::ops::AddSpec;
use vstd::std_specs::ops::DivSpec;
use vstd::std_specs::ops::MulSpec;
use vstd::std_specs::ops::NegSpec;
use vstd::std_specs::ops::SubSpec;

verus! {

/// What a number type has to offer beside its operators. The comments say
/// what each operation is meant to return; nothing is proved from them.
pub trait Scalar: Copy + Add<Output = Self> + Sub<Output = Self> + Mul<Output = Self> + Div<
    Output = Self,
> + Neg<Output = Self> + PartialOrd + Sqrt<Self> {
    /// The scalar nearest to the integer `n`.
    fn from_i32(n: i32) -> Self;

    /// A value above every other number.
    fn infinity() -> Self;

    /// A value below every other number.
    fn neg_infinity() -> Self;

    /// Half the circumference of the unit circle.
    fn pi() -> Self;

    /// The distance of `self` from zero.
    fn abs(self) -> Self;

    /// The largest whole scalar not above `self`.
    fn floor(self) -> Self;

    /// The integer part of `self`, held to the range of `i32`.
    fn to_i32(self) -> i32;

    /// The tangent of the angle `self`, in radians.
    fn tan(self) -> Self;

    /// The angle between zero and `pi` whose cosine is `self`.
    fn acos(self) -> Self;

    /// The angle of the point `(other, self)`, in `(-pi, pi]`.
    fn atan2(self, other: Self) -> Self;

    /// `self` to the power `n`.
    fn powi(self, n: i32) -> Self;

    /// `self * a + b`, rounded once.
    fn mul_add(self, a: Self, b: Self) -> Self;
}

/// The value that `T::from_i32` returns on `n`.
pub open spec fn from_i32_of<T: Scalar>(n: i32) -> T {
    choose|r: T| call_ensures(T::from_i32, (n,), r)
}

/// The value that `T::infinity` returns.
pub open spec fn infinity_of<T: Scalar>() -> T {
    choose|r: T| call_ensures(T::infinity, (), r)
}

/// The value that `T::neg_infinity` returns.
pub open spec fn neg_infinity_of<T: Scalar>() -> T {
    choose|r: T| call_ensures(T::neg_infinity, (), r)
}

/// The value that `T::pi` returns.
pub open spec fn pi_of<T: Scalar>() -> T {
    choose|r: T| call_ensures(T::pi, (), r)
}

/// The value that `T::abs` returns on `x`.
pub open spec fn abs_of<T: Scalar>(x: T) -> T {
    choose|r: T| call_ensures(T::abs, (x,), r)
}

/// The value that `T::floor` returns on `x`.
pub open spec fn floor_of<T: Scalar>(x: T) -> T {
    choose|r: T| call_ensures(T::floor, (x,), r)
}

/// The value that `T::to_i32` returns on `x`.
pub open spec fn to_i32_of<T: Scalar>(x: T) -> i32 {
    choose|r: i32| call_ensures(T::to_i32, (x,), r)
}

/// The value that `T::tan` returns on `x`.
pub open spec fn tan_of<T: Scalar>(x: T) -> T {
    choose|r: T| call_ensures(T::tan, (x,), r)
}

/// The value that `T::acos` returns on `x`.
pub open spec fn acos_of<T: Scalar>(x: T) -> T {
    choose|r: T| call_ensures(T::acos, (x,), r)
}

/// The value that `T::atan2` returns on `y` and `x`.
pub open spec fn atan2_of<T: Scalar>(y: T, x: T) -> T {
    choose|r: T| call_ensures(T::atan2, (y, x), r)
}

/// The value that `T::powi` returns on `x` and `n`.
pub open spec fn powi_of<T: Scalar>(x: T, n: i32) -> T {
    choose|r: T| call_ensures(T::powi, (x, n), r)
}

/// The value that `T::mul_add` returns on `x`, `a` and `b`.
pub open spec fn mul_add_of<T: Scalar>(x: T, a: T, b: T) -> T {
    choose|r: T| call_ensures(T::mul_add, (x, a, b), r)
}

/// Negation on `T` accepts every operand.
pub open spec fn neg_is_total<T: Neg<Output = T>>() -> bool {
    forall|a: T| #[trigger] a.neg_req()
}

/// No arithmetic operator of `T` refuses any operand.
pub open spec fn total<T: Scalar>() -> bool {
    &&& add_is_total::<T>()
    &&& sub_is_total::<T>()
    &&& mul_is_total::<T>()
    &&& div_is_total::<T>()
    &&& neg_is_total::<T>()
}

/// Each operation of [`Scalar`] returns one value per argument list.
pub open spec fn operations_are_functions<T: Scalar>() -> bool {
    &&& sqrt_is_function::<T>()
    &&& forall|n: i32, r1: T, r2: T|
        call_ensures(T::from_i32, (n,), r1) && call_ensures(T::from_i32, (n,), r2) ==> r1 == r2
    &&& forall|r1: T, r2: T|
        call_ensures(T::infinity, (), r1) && call_ensures(T::infinity, (), r2) ==> r1 == r2
    &&& forall|r1: T, r2: T|
        call_ensures(T::neg_infinity, (), r1) && call_ensures(T::neg_infinity, (), r2) ==> r1
            == r2
    &&& forall|r1: T, r2: T|
        call_ensures(T::pi, (), r1) && call_ensures(T::pi, (), r2) ==> r1 == r2
    &&& forall|x: T, r1: T, r2: T|
        call_ensures(T::abs, (x,), r1) && call_ensures(T::abs, (x,), r2) ==> r1 == r2
    &&& forall|x: T, r1: T, r2: T|
        call_ensures(T::floor, (x,), r1) && call_ensures(T::floor, (x,), r2) ==> r1 == r2
    &&& forall|x: T, r1: i32, r2: i32|
        call_ensures(T::to_i32, (x,), r1) && call_ensures(T::to_i32, (x,), r2) ==> r1 == r2
    &&& forall|x: T, r1: T, r2: T|
        call_ensures(T::tan, (x,), r1) && call_ensures(T::tan, (x,), r2) ==> r1 == r2
    &&& forall|x: T, r1: T, r2: T|
        call_ensures(T::acos, (x,), r1) && call_ensures(T::acos, (x,), r2) ==> r1 == r2
    &&& forall|y: T, x: T, r1: T, r2: T|
        call_ensures(T::atan2, (y, x), r1) && call_ensures(T::atan2, (y, x), r2) ==> r1 == r2
    &&& forall|x: T, n: i32, r1: T, r2: T|
        call_ensures(T::powi, (x, n), r1) && call_ensures(T::powi, (x, n), r2) ==> r1 == r2
    &&& forall|x: T, a: T, b: T, r1: T, r2: T|
        call_ensures(T::mul_add, (x, a, b), r1) && call_ensures(T::mul_add, (x, a, b), r2) ==> r1
            == r2
}

/// The arithmetic of `T` is a function of its operands throughout: the
/// operators and comparisons return what their specifications say, and
/// each operation of [`Scalar`] returns one value per argument list.
pub open spec fn faithful<T: Scalar>() -> bool {
    &&& T::obeys_add_spec()
    &&& T::obeys_sub_spec()
    &&& T::obeys_mul_spec()
    &&& T::obeys_div_spec()
    &&& T::obeys_neg_spec()
    &&& obeys_order::<T>()
    &&& operations_are_functions::<T>()
}

/// The comparisons of `T` return what their specification says.
pub open spec fn obeys_order<T: Scalar>() -> bool {
    T::obeys_partial_cmp_spec()
}

/// The quotient of two integers, each taken to `T` first.
pub open spec fn ratio_of<T: Scalar>(num: i32, den: i32) -> T {
    from_i32_of::<T>(num).div_spec(from_i32_of::<T>(den))
}

/// The quotient of `num` and `den` in `T`. With floating-point numbers this
/// is the number nearest to the fraction, the one a decimal literal for it
/// stands for.
pub fn ratio<T: Scalar>(num: i32, den: i32) -> (r: T)
    requires
        total::<T>(),
    ensures
        faithful::<T>() ==> r == ratio_of::<T>(num, den),
{
    T::from_i32(num) / T::from_i32(den)
}

/// `a` is below `b`.
pub open spec fn lt<T: Scalar>(a: T, b: T) -> bool {
    a.is_lt(&b)
}

/// `a` is below `b` or equals it.
pub open spec fn le<T: Scalar>(a: T, b: T) -> bool {
    a.is_le(&b)
}

/// `a` is above `b`.
pub open spec fn gt<T: Scalar>(a: T, b: T) -> bool {
    a.is_gt(&b)
}

/// `a` is above `b` or equals it.
pub open spec fn ge<T: Scalar>(a: T, b: T) -> bool {
    a.is_ge(&b)
}

/// `x` compares with itself. Among floating-point values this leaves out
/// exactly those that are not numbers.
pub open spec fn is_number<T: Scalar>(x: T) -> bool {
    le(x, x)
}

/// The comparisons of `T` order its numbers as a line: any two numbers
/// compare, only numbers compare, and the order is transitive and reads the
/// same from either side.
pub open spec fn ordered<T: Scalar>() -> bool {
    &&& forall|a: T, b: T| #![trigger lt(a, b)] #![trigger gt(b, a)] lt(a, b) <==> gt(b, a)
    &&& forall|a: T, b: T| #![trigger le(a, b)] #![trigger ge(b, a)] le(a, b) <==> ge(b, a)
    &&& forall|a: T, b: T, c: T| #![trigger le(a, b), le(b, c)] le(a, b) && le(b, c) ==> le(a, c)
    &&& forall|a: T, b: T, c: T| #![trigger lt(a, b), le(b, c)] lt(a, b) && le(b, c) ==> lt(a, c)
    &&& forall|a: T, b: T, c: T| #![trigger le(a, b), lt(b, c)] le(a, b) && lt(b, c) ==> lt(a, c)
    &&& forall|a: T, b: T| #![trigger le(a, b)] le(a, b) ==> is_number(a) && is_number(b)
    &&& forall|a: T, b: T|
        #![trigger le(a, b)]
        #![trigger le(b, a)]
        is_number(a) && is_number(b) ==> le(a, b) || le(b, a)
}

/// The two infinities are numbers, every number lies between them, and
/// nothing else compares equal to either.
pub open spec fn infinities_bound<T: Scalar>() -> bool {
    &&& is_number(infinity_of::<T>())
    &&& is_number(neg_infinity_of::<T>())
    &&& forall|x: T| is_number(x) ==> #[trigger] le(x, infinity_of::<T>())
    &&& forall|x: T| is_number(x) ==> #[trigger] le(neg_infinity_of::<T>(), x)
    &&& forall|x: T| #[trigger] le(infinity_of::<T>(), x) ==> x == infinity_of::<T>()
    &&& forall|x: T| #[trigger] le(x, neg_infinity_of::<T>()) ==> x == neg_infinity_of::<T>()
}

/// `a` and `b` stand for the same number.
pub open spec fn same_number<T: Scalar>(a: T, b: T) -> bool {
    le(a, b) && le(b, a)
}

/// Turning signs mirrors the arithmetic of `T`, as far as numbers come out.
/// A number times `from_i32(-1)` is the number negated. A product that is a
/// number is negated by negating a factor. Where two summands stand for
/// the negations of two others whose sum is a number, their sum stands for
/// the negation of that sum. Sums and products that are numbers are made
/// of numbers, the negation of a number is a number, and the negation of
/// what is not below `from_i32(0)` is not above it.
pub open spec fn negation_mirrors<T: Scalar>() -> bool {
    &&& forall|a: T|
        is_number(a) ==> #[trigger] a.mul_spec(from_i32_of::<T>(-1i32)) == a.neg_spec()
    &&& forall|a: T, b: T|
        is_number(a.mul_spec(b)) ==> #[trigger] a.mul_spec(b.neg_spec()) == a.mul_spec(
            b,
        ).neg_spec()
    &&& forall|a: T, b: T, c: T, d: T|
        same_number(a, c.neg_spec()) && same_number(b, d.neg_spec()) && is_number(c.add_spec(d))
            ==> same_number(#[trigger] a.add_spec(b), (#[trigger] c.add_spec(d)).neg_spec())
    &&& forall|a: T, b: T| is_number(#[trigger] a.add_spec(b)) ==> is_number(a) && is_number(b)
    &&& forall|a: T, b: T| is_number(#[trigger] a.mul_spec(b)) ==> is_number(a) && is_number(b)
    &&& forall|a: T| is_number(a) ==> is_number(#[trigger] a.neg_spec())
    &&& forall|a: T| le(from_i32_of::<T>(0), a) ==> le(#[trigger] a.neg_spec(), from_i32_of::<T>(0))
}

/// Subtracting from both sides keeps the order of `T`, and so does
/// multiplying both by a factor that is not below `from_i32(0)`, while a
/// factor below turns the order round; each as far as the results are
/// numbers.
pub open spec fn arithmetic_is_monotone<T: Scalar>() -> bool {
    let zero = from_i32_of::<T>(0);
    &&& forall|x: T, y: T, o: T|
        le(x, y) && is_number(#[trigger] x.sub_spec(o)) && is_number(#[trigger] y.sub_spec(o))
            ==> le(x.sub_spec(o), y.sub_spec(o))
    &&& forall|x: T, y: T, k: T|
        le(x, y) && !lt(k, zero) && is_number(#[trigger] x.mul_spec(k)) && is_number(
            #[trigger] y.mul_spec(k),
        ) ==> le(x.mul_spec(k), y.mul_spec(k))
    &&& forall|x: T, y: T, k: T|
        le(x, y) && lt(k, zero) && is_number(#[trigger] x.mul_spec(k)) && is_number(
            #[trigger] y.mul_spec(k),
        ) ==> le(y.mul_spec(k), x.mul_spec(k))
}

/// The smaller of two scalars. Where one of them is not a number, the other
/// is returned.
pub open spec fn spec_min<T: Scalar>(a: T, b: T) -> T {
    if lt(a, b) {
        a
    } else if lt(b, a) {
        b
    } else if is_number(a) {
        a
    } else {
        b
    }
}

/// The larger of two scalars. Where one of them is not a number, the other
/// is returned.
pub open spec fn spec_max<T: Scalar>(a: T, b: T) -> T {
    if gt(a, b) {
        a
    } else if gt(b, a) {
        b
    } else if is_number(a) {
        a
    } else {
        b
    }
}

/// The smaller of `a` and `b`, passing over one that is no number.
pub fn min<T: Scalar>(a: T, b: T) -> (r: T)
    ensures
        r == a || r == b,
        obeys_order::<T>() ==> r == spec_min(a, b),
{
    if a < b {
        a
    } else if b < a {
        b
    } else if a <= a {
        a
    } else {
        b
    }
}

/// The larger of `a` and `b`, passing over one that is no number.
pub fn max<T: Scalar>(a: T, b: T) -> (r: T)
    ensures
        r == a || r == b,
        obeys_order::<T>() ==> r == spec_max(a, b),
{
    if a > b {
        a
    } else if b > a {
        b
    } else if a <= a {
        a
    } else {
        b
    }
}

/// Between two numbers the smaller is below both and the larger above both.
pub proof fn lemma_min_max_bound<T: Scalar>(a: T, b: T)
    requires
        ordered::<T>(),
        is_number(a),
        is_number(b),
    ensures
        le(spec_min(a, b), a),
        le(spec_min(a, b), b),
        le(a, spec_max(a, b)),
        le(b, spec_max(a, b)),
{
    assert(le(a, b) || le(b, a));
}

} // verus!
