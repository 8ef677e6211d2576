//! Three-component vectors over an arbitrary scalar.

use crate::scalar::abs_of;
use crate::scalar::faithful;
use crate::scalar::from_i32_of;
use crate::scalar::le;
use crate::scalar::total;
use crate::scalar::Scalar;
use std::ops::Add;
use std::ops::AddAssign;
use std::ops::Div;
use std::ops::DivAssign;
use std::ops::Mul;
use std::ops::MulAssign;
use std::ops::Neg;
use std::ops::Sub;
use std::ops::SubAssign;
use vstd::prelude::*;
use vstd::std_specs::ops::AddSpec;
use vstd::std_specs::ops::DivSpec;
use vstd::std_specs::ops::MulSpec;
use vstd::std_specs::ops::NegSpec;
use vstd::std_specs::ops::SubSpec;

verus! {

/// Square roots, for scalars that have them.
pub trait Sqrt<T> {
    fn sqrt(&self) -> T;
}

/// The value that `sqrt` returns on `x`.
pub open spec fn sqrt_of<T: Sqrt<T>>(x: T) -> T {
    choose|r: T| call_ensures(T::sqrt, (&x,), r)
}

/// `sqrt` returns one value per argument.
pub open spec fn sqrt_is_function<T: Sqrt<T>>() -> bool {
    forall|x: T, r1: T, r2: T|
        call_ensures(T::sqrt, (&x,), r1) && call_ensures(T::sqrt, (&x,), r2) ==> r1 == r2
}

/// Addition on `T` accepts every pair of operands.
pub open spec fn add_is_total<T: Add<Output = T>>() -> bool {
    forall|a: T, b: T| #[trigger] a.add_req(b)
}

/// Subtraction on `T` accepts every pair of operands.
pub open spec fn sub_is_total<T: Sub<Output = T>>() -> bool {
    forall|a: T, b: T| #[trigger] a.sub_req(b)
}

/// Multiplication on `T` accepts every pair of operands.
pub open spec fn mul_is_total<T: Mul<Output = T>>() -> bool {
    forall|a: T, b: T| #[trigger] a.mul_req(b)
}

/// Division on `T` accepts every pair of operands.
pub open spec fn div_is_total<T: Div<Output = T>>() -> bool {
    forall|a: T, b: T| #[trigger] a.div_req(b)
}

/// A vector of three components.
#[derive(Debug, Clone, Copy, PartialEq, Default)]
pub struct Vec3<T: Copy> {
    pub x: T,
    pub y: T,
    pub z: T,
}

impl<T: Copy> Vec3<T> {
    pub fn new(x: T, y: T, z: T) -> (r: Vec3<T>)
        ensures
            r == (Vec3 { x, y, z }),
    {
        Vec3 { x, y, z }
    }

    pub fn x(&self) -> (r: T)
        ensures
            r == self.x,
    {
        self.x
    }

    pub fn y(&self) -> (r: T)
        ensures
            r == self.y,
    {
        self.y
    }

    pub fn z(&self) -> (r: T)
        ensures
            r == self.z,
    {
        self.z
    }
}

impl<T: Copy + Add<Output = T> + Mul<Output = T>> Vec3<T> {
    /// The sum of the products of matching components, added left to right.
    pub open spec fn spec_dot(self, other: Self) -> T {
        self.x.mul_spec(other.x).add_spec(self.y.mul_spec(other.y)).add_spec(
            self.z.mul_spec(other.z),
        )
    }

    /// The vector times itself.
    pub open spec fn spec_length_squared(self) -> T {
        self.spec_dot(self)
    }

    pub fn length_squared(&self) -> (r: T)
        requires
            add_is_total::<T>(),
            mul_is_total::<T>(),
        ensures
            T::obeys_add_spec() && T::obeys_mul_spec() ==> r == self.spec_length_squared(),
    {
        self.x * self.x + self.y * self.y + self.z * self.z
    }

    pub fn dot(self, other: Self) -> (r: T)
        requires
            add_is_total::<T>(),
            mul_is_total::<T>(),
        ensures
            T::obeys_add_spec() && T::obeys_mul_spec() ==> r == self.spec_dot(other),
    {
        self.x * other.x + self.y * other.y + self.z * other.z
    }
}

impl<T: Copy + Sub<Output = T> + Mul<Output = T>> Vec3<T> {
    /// The cross product, each component a difference of two products.
    pub open spec fn spec_cross(self, other: Self) -> Self {
        Vec3 {
            x: self.y.mul_spec(other.z).sub_spec(self.z.mul_spec(other.y)),
            y: self.z.mul_spec(other.x).sub_spec(self.x.mul_spec(other.z)),
            z: self.x.mul_spec(other.y).sub_spec(self.y.mul_spec(other.x)),
        }
    }

    pub fn cross(self, other: Self) -> (r: Self)
        requires
            sub_is_total::<T>(),
            mul_is_total::<T>(),
        ensures
            T::obeys_sub_spec() && T::obeys_mul_spec() ==> r == self.spec_cross(other),
    {
        Vec3 {
            x: self.y * other.z - self.z * other.y,
            y: self.z * other.x - self.x * other.z,
            z: self.x * other.y - self.y * other.x,
        }
    }
}

impl<T: Copy + Add<Output = T> + Mul<Output = T> + Div<Output = T> + Sqrt<T>> Vec3<T> {
    /// The square root of the squared length.
    pub open spec fn spec_length(self) -> T {
        sqrt_of(self.spec_length_squared())
    }

    /// Every component divided by the length.
    pub open spec fn spec_unit_vector(self) -> Self {
        Vec3 {
            x: self.x.div_spec(self.spec_length()),
            y: self.y.div_spec(self.spec_length()),
            z: self.z.div_spec(self.spec_length()),
        }
    }

    pub fn length(&self) -> (r: T)
        requires
            add_is_total::<T>(),
            mul_is_total::<T>(),
        ensures
            T::obeys_add_spec() && T::obeys_mul_spec() && sqrt_is_function::<T>() ==> r
                == self.spec_length(),
    {
        (self.x * self.x + self.y * self.y + self.z * self.z).sqrt()
    }

    pub fn normalize(&mut self)
        requires
            add_is_total::<T>(),
            mul_is_total::<T>(),
            div_is_total::<T>(),
        ensures
            T::obeys_add_spec() && T::obeys_mul_spec() && T::obeys_div_spec()
                && sqrt_is_function::<T>() ==> *final(self) == old(self).spec_unit_vector(),
    {
        let length = self.length();
        self.x = self.x / length;
        self.y = self.y / length;
        self.z = self.z / length;
    }

    pub fn unit_vector(&self) -> (r: Self)
        requires
            add_is_total::<T>(),
            mul_is_total::<T>(),
            div_is_total::<T>(),
        ensures
            T::obeys_add_spec() && T::obeys_mul_spec() && T::obeys_div_spec()
                && sqrt_is_function::<T>() ==> r == self.spec_unit_vector(),
    {
        let length = self.length();
        Self { x: self.x / length, y: self.y / length, z: self.z / length }
    }
}

impl<T: Copy + Add<Output = T>> Vec3<T> {
    /// The sum, component by component.
    pub open spec fn spec_plus(self, rhs: Self) -> Self {
        Vec3 { x: self.x.add_spec(rhs.x), y: self.y.add_spec(rhs.y), z: self.z.add_spec(rhs.z) }
    }
}

impl<T: Copy + Sub<Output = T>> Vec3<T> {
    /// The difference, component by component.
    pub open spec fn spec_minus(self, rhs: Self) -> Self {
        Vec3 { x: self.x.sub_spec(rhs.x), y: self.y.sub_spec(rhs.y), z: self.z.sub_spec(rhs.z) }
    }
}

impl<T: Copy + Mul<Output = T>> Vec3<T> {
    /// Every component times `scalar`.
    pub open spec fn spec_scaled(self, scalar: T) -> Self {
        Vec3 {
            x: self.x.mul_spec(scalar),
            y: self.y.mul_spec(scalar),
            z: self.z.mul_spec(scalar),
        }
    }
}

impl<T: Copy + Mul<Output = T>> Vec3<T> {
    /// The product, component by component.
    pub open spec fn spec_product(self, rhs: Self) -> Self {
        Vec3 { x: self.x.mul_spec(rhs.x), y: self.y.mul_spec(rhs.y), z: self.z.mul_spec(rhs.z) }
    }

    pub fn product(self, rhs: Self) -> (r: Self)
        requires
            mul_is_total::<T>(),
        ensures
            T::obeys_mul_spec() ==> r == self.spec_product(rhs),
    {
        Self { x: self.x * rhs.x, y: self.y * rhs.y, z: self.z * rhs.z }
    }
}

impl<T: Copy + Div<Output = T>> Vec3<T> {
    /// Every component divided by `scalar`.
    pub open spec fn spec_divided(self, scalar: T) -> Self {
        Vec3 {
            x: self.x.div_spec(scalar),
            y: self.y.div_spec(scalar),
            z: self.z.div_spec(scalar),
        }
    }
}

impl<T: Copy + Add<Output = T>> Add for Vec3<T> {
    type Output = Self;

    fn add(self, rhs: Self) -> (r: Self) {
        Self { x: self.x + rhs.x, y: self.y + rhs.y, z: self.z + rhs.z }
    }
}

impl<T: Copy + Add<Output = T>> vstd::std_specs::ops::AddSpecImpl for Vec3<T> {
    open spec fn obeys_add_spec() -> bool {
        T::obeys_add_spec()
    }

    open spec fn add_req(self, rhs: Self) -> bool {
        self.x.add_req(rhs.x) && self.y.add_req(rhs.y) && self.z.add_req(rhs.z)
    }

    open spec fn add_spec(self, rhs: Self) -> Self {
        self.spec_plus(rhs)
    }
}

impl<T: Copy + Add<Output = T>> AddAssign for Vec3<T> {
    fn add_assign(&mut self, rhs: Self)
        requires
            old(self).add_req(rhs),
        ensures
            T::obeys_add_spec() ==> *final(self) == old(self).add_spec(rhs),
    {
        self.x = self.x + rhs.x;
        self.y = self.y + rhs.y;
        self.z = self.z + rhs.z;
    }
}

impl<T: Copy + Sub<Output = T>> Sub for Vec3<T> {
    type Output = Self;

    fn sub(self, rhs: Self) -> (r: Self) {
        Self { x: self.x - rhs.x, y: self.y - rhs.y, z: self.z - rhs.z }
    }
}

impl<T: Copy + Sub<Output = T>> vstd::std_specs::ops::SubSpecImpl for Vec3<T> {
    open spec fn obeys_sub_spec() -> bool {
        T::obeys_sub_spec()
    }

    open spec fn sub_req(self, rhs: Self) -> bool {
        self.x.sub_req(rhs.x) && self.y.sub_req(rhs.y) && self.z.sub_req(rhs.z)
    }

    open spec fn sub_spec(self, rhs: Self) -> Self {
        self.spec_minus(rhs)
    }
}

impl<T: Copy + Sub<Output = T>> SubAssign for Vec3<T> {
    fn sub_assign(&mut self, rhs: Self)
        requires
            old(self).sub_req(rhs),
        ensures
            T::obeys_sub_spec() ==> *final(self) == old(self).sub_spec(rhs),
    {
        self.x = self.x - rhs.x;
        self.y = self.y - rhs.y;
        self.z = self.z - rhs.z;
    }
}

/// Scaling: every component times the scalar.
impl<T: Copy + Mul<Output = T>> Mul<T> for Vec3<T> {
    type Output = Self;

    fn mul(self, scalar: T) -> (r: Self) {
        Self { x: self.x * scalar, y: self.y * scalar, z: self.z * scalar }
    }
}

impl<T: Copy + Mul<Output = T>> vstd::std_specs::ops::MulSpecImpl<T> for Vec3<T> {
    open spec fn obeys_mul_spec() -> bool {
        T::obeys_mul_spec()
    }

    open spec fn mul_req(self, scalar: T) -> bool {
        self.x.mul_req(scalar) && self.y.mul_req(scalar) && self.z.mul_req(scalar)
    }

    open spec fn mul_spec(self, scalar: T) -> Self {
        self.spec_scaled(scalar)
    }
}

/// Between two vectors `*` is the cross product.
impl<T: Copy + Mul<Output = T> + Sub<Output = T>> Mul for Vec3<T> {
    type Output = Self;

    fn mul(self, rhs: Self) -> (r: Self) {
        self.cross(rhs)
    }
}

impl<T: Copy + Mul<Output = T> + Sub<Output = T>> vstd::std_specs::ops::MulSpecImpl for Vec3<T> {
    open spec fn obeys_mul_spec() -> bool {
        T::obeys_sub_spec() && T::obeys_mul_spec()
    }

    open spec fn mul_req(self, rhs: Self) -> bool {
        sub_is_total::<T>() && mul_is_total::<T>()
    }

    open spec fn mul_spec(self, rhs: Self) -> Self {
        self.spec_cross(rhs)
    }
}

impl<T: Copy + Mul<Output = T>> MulAssign<T> for Vec3<T> {
    fn mul_assign(&mut self, scalar: T)
        requires
            old(self).mul_req(scalar),
        ensures
            T::obeys_mul_spec() ==> *final(self) == old(self).mul_spec(scalar),
    {
        self.x = self.x * scalar;
        self.y = self.y * scalar;
        self.z = self.z * scalar;
    }
}

impl<T: Copy + Div<Output = T>> Div<T> for Vec3<T> {
    type Output = Self;

    fn div(self, scalar: T) -> (r: Self) {
        Self { x: self.x / scalar, y: self.y / scalar, z: self.z / scalar }
    }
}

impl<T: Copy + Div<Output = T>> vstd::std_specs::ops::DivSpecImpl<T> for Vec3<T> {
    open spec fn obeys_div_spec() -> bool {
        T::obeys_div_spec()
    }

    open spec fn div_req(self, scalar: T) -> bool {
        self.x.div_req(scalar) && self.y.div_req(scalar) && self.z.div_req(scalar)
    }

    open spec fn div_spec(self, scalar: T) -> Self {
        self.spec_divided(scalar)
    }
}

impl<T: Copy + Div<Output = T>> DivAssign<T> for Vec3<T> {
    fn div_assign(&mut self, scalar: T)
        requires
            old(self).div_req(scalar),
        ensures
            T::obeys_div_spec() ==> *final(self) == old(self).div_spec(scalar),
    {
        self.x = self.x / scalar;
        self.y = self.y / scalar;
        self.z = self.z / scalar;
    }
}

impl<T: Scalar> Vec3<T> {
    /// The component along axis `n`: `x` for 0, `y` for 1, `z` for 2.
    pub open spec fn spec_axis(self, n: int) -> T {
        if n == 0 {
            self.x
        } else if n == 1 {
            self.y
        } else {
            self.z
        }
    }

    pub fn axis(&self, n: usize) -> (r: T)
        requires
            n < 3,
        ensures
            r == self.spec_axis(n as int),
    {
        if n == 0 {
            self.x
        } else if n == 1 {
            self.y
        } else {
            self.z
        }
    }

    /// Every component with its sign turned.
    pub open spec fn spec_negated(self) -> Self {
        Vec3 { x: self.x.neg_spec(), y: self.y.neg_spec(), z: self.z.neg_spec() }
    }

    pub fn negated(self) -> (r: Self)
        requires
            total::<T>(),
        ensures
            faithful::<T>() ==> r == self.spec_negated(),
    {
        Self { x: self.x.neg(), y: self.y.neg(), z: self.z.neg() }
    }

    /// The vector scaled by the inverse of its length.
    pub open spec fn spec_normalized(self) -> Self {
        self.spec_scaled(from_i32_of::<T>(1).div_spec(self.spec_length()))
    }

    pub fn normalized(self) -> (r: Self)
        requires
            total::<T>(),
        ensures
            faithful::<T>() ==> r == self.spec_normalized(),
    {
        let inverse = T::from_i32(1) / self.length();
        self * inverse
    }

    /// No component of `self` is further than `max_abs_diff` from the
    /// matching component of `rhs`.
    pub open spec fn spec_abs_diff_eq(self, rhs: Self, max_abs_diff: T) -> bool {
        &&& le(abs_of(self.x.sub_spec(rhs.x)), max_abs_diff)
        &&& le(abs_of(self.y.sub_spec(rhs.y)), max_abs_diff)
        &&& le(abs_of(self.z.sub_spec(rhs.z)), max_abs_diff)
    }

    pub fn abs_diff_eq(self, rhs: Self, max_abs_diff: T) -> (r: bool)
        requires
            total::<T>(),
        ensures
            faithful::<T>() ==> r == self.spec_abs_diff_eq(rhs, max_abs_diff),
    {
        let dx = (self.x - rhs.x).abs();
        let dy = (self.y - rhs.y).abs();
        let dz = (self.z - rhs.z).abs();
        dx <= max_abs_diff && dy <= max_abs_diff && dz <= max_abs_diff
    }

    /// The vector whose three components are `from_i32(0)`.
    pub open spec fn spec_zero() -> Self {
        Vec3 { x: from_i32_of::<T>(0), y: from_i32_of::<T>(0), z: from_i32_of::<T>(0) }
    }

    pub fn zero() -> (r: Self)
        ensures
            faithful::<T>() ==> r == Self::spec_zero(),
    {
        Self { x: T::from_i32(0), y: T::from_i32(0), z: T::from_i32(0) }
    }
}

} // verus!
