//! Colour as a function of the place on a surface.

use crate::color::Color;
use crate::ray::Point;
use crate::scalar::faithful;
use crate::scalar::total;
use crate::scalar::Scalar;
use crate::vec3::Vec3;
use vstd::prelude::*;

pub mod checker;
pub mod solid_color;

verus! {

/// A colour for every place on a surface.
#[derive(Debug)]
pub enum Texture<T: Scalar> {
    SolidColor(solid_color::SolidColor<T>),
    Checker(checker::Checker<T>),
}

impl<T: Scalar> Texture<T> {
    /// The colour at surface coordinates `(u, v)` and point `p`.
    pub open spec fn spec_value(self, u: T, v: T, p: Point<T>) -> Color<T>
        decreases self,
    {
        match self {
            Texture::SolidColor(solid_color) => solid_color.color_value,
            Texture::Checker(checker) => if checker.spec_is_even(p) {
                checker.even.spec_value(u, v, p)
            } else {
                checker.odd.spec_value(u, v, p)
            },
        }
    }

    pub fn value(&self, u: T, v: T, p: &Point<T>) -> (r: Color<T>)
        requires
            total::<T>(),
        ensures
            faithful::<T>() ==> r == self.spec_value(u, v, *p),
        decreases self,
    {
        match self {
            Self::SolidColor(solid_color) => solid_color.value(u, v, p),
            Self::Checker(checker) => checker.value(u, v, p),
        }
    }

    pub fn solid_color(c: Color<T>) -> (r: Self)
        ensures
            r == Texture::SolidColor(solid_color::SolidColor { color_value: c }),
    {
        Self::SolidColor(solid_color::SolidColor::new(c))
    }

    pub fn checker(scale: T, c1: Color<T>, c2: Color<T>) -> (r: Self)
        requires
            total::<T>(),
        ensures
            faithful::<T>() ==> r == Texture::Checker(
                checker::Checker::spec_new_using_color(scale, c1, c2),
            ),
    {
        Self::Checker(checker::Checker::new_using_color(scale, c1, c2))
    }
}

impl<T: Scalar> Clone for Texture<T> {
    fn clone(&self) -> (r: Self)
        ensures
            r == *self,
        decreases self,
    {
        match self {
            Self::SolidColor(solid_color) => Self::SolidColor(
                solid_color::SolidColor { color_value: solid_color.color_value },
            ),
            Self::Checker(checker) => Self::Checker(
                checker::Checker {
                    inv_scale: checker.inv_scale,
                    even: Box::new((&*checker.even).clone()),
                    odd: Box::new((&*checker.odd).clone()),
                },
            ),
        }
    }
}

impl<T: Scalar> Default for Texture<T> {
    fn default() -> (r: Self)
        ensures
            faithful::<T>() ==> r == Texture::SolidColor(
                solid_color::SolidColor { color_value: Vec3::<T>::spec_zero() },
            ),
    {
        Self::solid_color(Vec3::zero())
    }
}

} // verus!
