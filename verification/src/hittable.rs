//! What a ray can hit.

pub mod hit_record;
pub mod hittable_list;
pub mod hittable_object;
pub mod laws;

pub use hit_record::HitRecord;
pub use hittable_list::HittableList;
pub use hittable_object::bvh_node::BvhNode;
pub use hittable_object::HittableObject;

use crate::aabb::Aabb;
use crate::interval::Interval;
use crate::ray::Ray;
use crate::scalar::faithful;
use crate::scalar::total;
use crate::scalar::Scalar;
use vstd::prelude::*;

verus! {

/// What a ray can be tested against.
pub trait Hittable<T: Scalar> {
    /// The nearest meeting of `r` and `self` within `ray_t`.
    spec fn spec_nearest(&self, r: Ray<T>, ray_t: Interval<T>) -> Option<HitRecord<T>>;

    /// The box that is given out as the bounds of `self`.
    spec fn spec_box(&self) -> Aabb<T>;

    /// Looks for the nearest meeting within `ray_t`. Where there is one it
    /// is written to `rec`; where there is none `rec` stays as it was.
    fn hit(&self, r: &Ray<T>, ray_t: Interval<T>, rec: &mut HitRecord<T>) -> (hit: bool)
        requires
            total::<T>(),
        ensures
            !hit ==> *final(rec) == *old(rec),
            faithful::<T>() ==> match self.spec_nearest(*r, ray_t) {
                Some(found) => hit && *final(rec) == found,
                None => !hit,
            },
    ;

    fn bounding_box(&self) -> (r: &Aabb<T>)
        ensures
            *r == self.spec_box(),
    ;
}

impl<T: Scalar> Hittable<T> for hittable_object::sphere::Sphere<T> {
    open spec fn spec_nearest(&self, r: Ray<T>, ray_t: Interval<T>) -> Option<HitRecord<T>> {
        self.spec_hit(r, ray_t)
    }

    open spec fn spec_box(&self) -> Aabb<T> {
        self.bbox
    }

    fn hit(&self, r: &Ray<T>, ray_t: Interval<T>, rec: &mut HitRecord<T>) -> (hit: bool) {
        hittable_object::sphere::Sphere::hit(self, r, ray_t, rec)
    }

    fn bounding_box(&self) -> (r: &Aabb<T>) {
        &self.bbox
    }
}

impl<T: Scalar> Hittable<T> for BvhNode<T> {
    open spec fn spec_nearest(&self, r: Ray<T>, ray_t: Interval<T>) -> Option<HitRecord<T>> {
        HittableObject::BvhNode(*self).spec_hit(r, ray_t)
    }

    open spec fn spec_box(&self) -> Aabb<T> {
        self.bbox
    }

    fn hit(&self, r: &Ray<T>, ray_t: Interval<T>, rec: &mut HitRecord<T>) -> (hit: bool) {
        BvhNode::hit(self, r, ray_t, rec)
    }

    fn bounding_box(&self) -> (r: &Aabb<T>) {
        &self.bbox
    }
}

impl<T: Scalar> Hittable<T> for HittableObject<T> {
    open spec fn spec_nearest(&self, r: Ray<T>, ray_t: Interval<T>) -> Option<HitRecord<T>> {
        self.spec_hit(r, ray_t)
    }

    open spec fn spec_box(&self) -> Aabb<T> {
        self.spec_bounding_box()
    }

    fn hit(&self, r: &Ray<T>, ray_t: Interval<T>, rec: &mut HitRecord<T>) -> (hit: bool) {
        HittableObject::hit(self, r, ray_t, rec)
    }

    fn bounding_box(&self) -> (r: &Aabb<T>) {
        HittableObject::bounding_box(self)
    }
}

impl<T: Scalar> Hittable<T> for HittableList<T> {
    open spec fn spec_nearest(&self, r: Ray<T>, ray_t: Interval<T>) -> Option<HitRecord<T>> {
        self.spec_hit(r, ray_t)
    }

    open spec fn spec_box(&self) -> Aabb<T> {
        self.bbox
    }

    fn hit(&self, r: &Ray<T>, ray_t: Interval<T>, rec: &mut HitRecord<T>) -> (hit: bool) {
        HittableList::hit(self, r, ray_t, rec)
    }

    fn bounding_box(&self) -> (r: &Aabb<T>) {
        &self.bbox
    }
}

} // verus!
