//! A pattern of cubes that alternate between two textures.

use crate::color::Color;
use crate::ray::Point;
use crate::scalar::faithful;
use crate::scalar::floor_of;
use crate::scalar::from_i32_of;
use crate::scalar::to_i32_of;
use crate::scalar::total;
use crate::scalar::Scalar;
use crate::texture::solid_color::SolidColor;
use crate::texture::Texture;
use vstd::prelude::*;
use vstd::std_specs::ops::DivSpec;
use vstd::std_specs::ops::MulSpec;

verus! {

/// Cubes of side `1 / inv_scale` that show `even` and `odd` in turn.
#[derive(Debug)]
pub struct Checker<T: Scalar> {
    pub inv_scale: T,
    pub even: Box<Texture<T>>,
    pub odd: Box<Texture<T>>,
}

impl<T: Scalar> Checker<T> {
    /// The pattern of cubes of side `scale`.
    pub open spec fn spec_new(scale: T, even: Box<Texture<T>>, odd: Box<Texture<T>>) -> Self {
        Checker { inv_scale: from_i32_of::<T>(1).div_spec(scale), even, odd }
    }

    pub fn new(scale: T, even: Box<Texture<T>>, odd: Box<Texture<T>>) -> (r: Self)
        requires
            total::<T>(),
        ensures
            faithful::<T>() ==> r == Self::spec_new(scale, even, odd),
    {
        Self { inv_scale: T::from_i32(1) / scale, even, odd }
    }

    /// The pattern of cubes of side `scale` in the plain colours `c1` and `c2`.
    pub open spec fn spec_new_using_color(scale: T, c1: Color<T>, c2: Color<T>) -> Self {
        Self::spec_new(
            scale,
            Box::new(Texture::SolidColor(SolidColor { color_value: c1 })),
            Box::new(Texture::SolidColor(SolidColor { color_value: c2 })),
        )
    }

    pub fn new_using_color(scale: T, c1: Color<T>, c2: Color<T>) -> (r: Self)
        requires
            total::<T>(),
        ensures
            faithful::<T>() ==> r == Self::spec_new_using_color(scale, c1, c2),
    {
        Self::new(scale, Box::new(Texture::solid_color(c1)), Box::new(Texture::solid_color(c2)))
    }

    /// The number of the cube layer that `coordinate` falls in.
    pub open spec fn spec_cell(self, coordinate: T) -> int {
        to_i32_of(floor_of(coordinate.mul_spec(self.inv_scale))) as int
    }

    /// Whether `p` falls in a cube whose three layer numbers add up to an
    /// even number.
    pub open spec fn spec_is_even(self, p: Point<T>) -> bool {
        (self.spec_cell(p.x) + self.spec_cell(p.y) + self.spec_cell(p.z)) % 2 == 0
    }

    pub fn is_even(&self, p: &Point<T>) -> (r: bool)
        requires
            total::<T>(),
        ensures
            faithful::<T>() ==> r == self.spec_is_even(*p),
    {
        let x_int: i64 = (p.x * self.inv_scale).floor().to_i32() as i64;
        let y_int: i64 = (p.y * self.inv_scale).floor().to_i32() as i64;
        let z_int: i64 = (p.z * self.inv_scale).floor().to_i32() as i64;
        (x_int + y_int + z_int) % 2 == 0
    }

    pub fn value(&self, u: T, v: T, p: &Point<T>) -> (r: Color<T>)
        requires
            total::<T>(),
        ensures
            faithful::<T>() ==> r == Texture::Checker(*self).spec_value(u, v, *p),
        decreases self,
    {
        if self.is_even(p) {
            self.even.value(u, v, p)
        } else {
            self.odd.value(u, v, p)
        }
    }
}

} // verus!
