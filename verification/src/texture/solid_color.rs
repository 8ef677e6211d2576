//! One colour everywhere.

use crate::color::Color;
use crate::ray::Point;
use crate::scalar::Scalar;
use crate::vec3::Vec3;
use vstd::prelude::*;

verus! {

/// A plain colour.
#[derive(Debug)]
pub struct SolidColor<T: Scalar> {
    pub color_value: Color<T>,
}

impl<T: Scalar> SolidColor<T> {
    pub fn new(c: Color<T>) -> (r: Self)
        ensures
            r == (SolidColor { color_value: c }),
    {
        Self { color_value: c }
    }

    pub fn new_from_color(r: T, g: T, b: T) -> (s: Self)
        ensures
            s == (SolidColor { color_value: Vec3 { x: r, y: g, z: b } }),
    {
        Self::new(Vec3::new(r, g, b))
    }

    pub fn value(&self, _u: T, _v: T, _p: &Point<T>) -> (r: Color<T>)
        ensures
            r == self.color_value,
    {
        self.color_value
    }
}

} // verus!
