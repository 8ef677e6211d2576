//! Rays: a start, a direction, and the moment the ray was cast.

use crate::scalar::faithful;
use crate::scalar::total;
use crate::scalar::Scalar;
use crate::vec3::Vec3;
use vstd::prelude::*;

verus! {

/// A place in space.
pub type Point<T> = Vec3<T>;

/// A direction in space, of any length.
pub type Direction<T> = Vec3<T>;

/// A half-line from `origin` along `direction`, cast at `time`.
#[derive(Debug, Clone, Copy)]
pub struct Ray<T: Scalar> {
    pub origin: Point<T>,
    pub direction: Direction<T>,
    pub time: T,
}

impl<T: Scalar> Ray<T> {
    pub fn new(origin: Point<T>, direction: Direction<T>, time: T) -> (r: Self)
        ensures
            r == (Ray { origin, direction, time }),
    {
        Self { origin, direction, time }
    }

    pub fn origin(&self) -> (r: Point<T>)
        ensures
            r == self.origin,
    {
        self.origin
    }

    pub fn direction(&self) -> (r: Direction<T>)
        ensures
            r == self.direction,
    {
        self.direction
    }

    pub fn time(&self) -> (r: T)
        ensures
            r == self.time,
    {
        self.time
    }

    /// The point reached after travelling `t` directions from the origin.
    pub open spec fn spec_at(self, t: T) -> Point<T> {
        self.origin.spec_plus(self.direction.spec_scaled(t))
    }

    pub fn at(&self, t: T) -> (r: Point<T>)
        requires
            total::<T>(),
        ensures
            faithful::<T>() ==> r == self.spec_at(t),
    {
        self.origin + self.direction * t
    }
}

} // verus!
