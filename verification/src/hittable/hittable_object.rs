//! The things a scene is made of.

use crate::aabb::Aabb;
use crate::hittable::hit_record::HitRecord;
use crate::interval::Interval;
use crate::material::Material;
use crate::random::Draw;
use crate::random::RandomSource;
use crate::random::Stream;
use crate::ray::Point;
use crate::ray::Ray;
use crate::scalar::faithful;
use crate::scalar::obeys_order;
use crate::scalar::total;
use crate::scalar::Scalar;
use crate::vec3::Vec3;
use vstd::prelude::*;

pub mod bvh_node;
pub mod sphere;

verus! {

/// A sphere, or a hierarchy of objects.
#[derive(Debug)]
pub enum HittableObject<T: Scalar> {
    Sphere(sphere::Sphere<T>),
    BvhNode(bvh_node::BvhNode<T>),
}

impl<T: Scalar> HittableObject<T> {
    /// The box around the sphere at `center` with radius `radius`.
    pub open spec fn spec_sphere_box(center: Point<T>, radius: T) -> Aabb<T> {
        let rvec = Vec3 { x: radius, y: radius, z: radius };
        Aabb::spec_new(center.spec_minus(rvec), center.spec_plus(rvec))
    }

    /// A sphere at rest, in its bounding box.
    pub open spec fn spec_sphere(center: Point<T>, radius: T, mat: Material<T>) -> Self {
        HittableObject::Sphere(
            sphere::Sphere::spec_new(
                center,
                center,
                radius,
                mat,
                Self::spec_sphere_box(center, radius),
            ),
        )
    }

    pub fn sphere(center: Point<T>, radius: T, mat: Material<T>) -> (r: Self)
        requires
            total::<T>(),
        ensures
            faithful::<T>() ==> r == Self::spec_sphere(center, radius, mat),
    {
        let rvec = Vec3::new(radius, radius, radius);
        let bbox = Aabb::new(center - rvec, center + rvec);
        Self::Sphere(sphere::Sphere::new(center, center, radius, mat, bbox))
    }

    /// A sphere on its way from `center1` to `center2`, in the box around
    /// the sphere at either end.
    pub open spec fn spec_moving_sphere(
        center1: Point<T>,
        center2: Point<T>,
        radius: T,
        mat: Material<T>,
    ) -> Self {
        HittableObject::Sphere(
            sphere::Sphere::spec_new(
                center1,
                center2,
                radius,
                mat,
                Aabb::spec_merge(
                    Self::spec_sphere_box(center1, radius),
                    Self::spec_sphere_box(center2, radius),
                ),
            ),
        )
    }

    pub fn moving_sphere(center1: Point<T>, center2: Point<T>, radius: T, mat: Material<T>) -> (r:
        Self)
        requires
            total::<T>(),
        ensures
            faithful::<T>() ==> r == Self::spec_moving_sphere(center1, center2, radius, mat),
    {
        let rvec = Vec3::new(radius, radius, radius);
        let box1 = Aabb::new(center1 - rvec, center1 + rvec);
        let box2 = Aabb::new(center2 - rvec, center2 + rvec);
        let bbox = Aabb::new_with_boxes(&box1, &box2);
        Self::Sphere(sphere::Sphere::new(center1, center2, radius, mat, bbox))
    }

    /// The hierarchy over all of `objects`, which must not be empty, as an
    /// object of its own.
    pub fn bvh_node<R: RandomSource<T>>(
        objects: &mut Vec<HittableObject<T>>,
        rng: &mut Stream<T, R>,
    ) -> (r: Self)
        requires
            old(objects).len() > 0,
        ensures
            final(objects)@.len() == old(objects)@.len(),
            old(rng).leads_to(final(rng).tape()),
            obeys_order::<T>() ==> forall|f: Seq<Draw<T>>| #[trigger]
                final(rng).leads_to(f) ==> {
                    let built = bvh_node::BvhNode::spec_build(
                        old(objects)@,
                        0,
                        old(objects)@.len() as int,
                        f,
                        old(rng).tape().len() as int,
                    );
                    &&& r == HittableObject::BvhNode(built.node)
                    &&& final(objects)@ == built.objects
                    &&& final(rng).tape().len() == built.next
                },
    {
        Self::BvhNode(bvh_node::BvhNode::new_from_vector(objects, rng))
    }

    /// The nearest meeting of `r` and the object within `ray_t`.
    pub open spec fn spec_hit(self, r: Ray<T>, ray_t: Interval<T>) -> Option<HitRecord<T>>
        decreases self,
    {
        match self {
            HittableObject::Sphere(sphere) => sphere.spec_hit(r, ray_t),
            HittableObject::BvhNode(bvh_node) => if !bvh_node.bbox.spec_hit(r, ray_t) {
                None
            } else {
                let on_left = bvh_node.left.spec_hit(r, ray_t);
                let on_right = bvh_node.right.spec_hit(
                    r,
                    Interval {
                        min: ray_t.min,
                        max: match on_left {
                            Some(found) => found.t,
                            None => ray_t.max,
                        },
                    },
                );
                match on_right {
                    Some(found) => Some(found),
                    None => on_left,
                }
            },
        }
    }

    /// Looks for the nearest meeting within `ray_t`. Where there is one it
    /// is written to `rec`; where there is none `rec` stays as it was.
    pub fn hit(&self, r: &Ray<T>, ray_t: Interval<T>, rec: &mut HitRecord<T>) -> (hit: bool)
        requires
            total::<T>(),
        ensures
            !hit ==> *final(rec) == *old(rec),
            faithful::<T>() ==> match self.spec_hit(*r, ray_t) {
                Some(found) => hit && *final(rec) == found,
                None => !hit,
            },
        decreases self,
    {
        match self {
            Self::Sphere(sphere) => sphere.hit(r, ray_t, rec),
            Self::BvhNode(bvh_node) => bvh_node.hit(r, ray_t, rec),
        }
    }

    /// The box that the object gives out as its bounds.
    pub open spec fn spec_bounding_box(self) -> Aabb<T> {
        match self {
            HittableObject::Sphere(sphere) => sphere.bbox,
            HittableObject::BvhNode(bvh_node) => bvh_node.bbox,
        }
    }

    pub fn bounding_box(&self) -> (r: &Aabb<T>)
        ensures
            *r == self.spec_bounding_box(),
    {
        match self {
            Self::Sphere(sphere) => sphere.bounding_box(),
            Self::BvhNode(bvh_node) => bvh_node.bounding_box(),
        }
    }
}

impl<T: Scalar> Clone for HittableObject<T> {
    fn clone(&self) -> (r: Self)
        ensures
            r == *self,
        decreases self,
    {
        match self {
            Self::Sphere(sphere) => Self::Sphere(sphere.clone()),
            Self::BvhNode(bvh_node) => Self::BvhNode(
                bvh_node::BvhNode {
                    left: Box::new((&*bvh_node.left).clone()),
                    right: Box::new((&*bvh_node.right).clone()),
                    bbox: bvh_node.bbox,
                },
            ),
        }
    }
}

} // verus!
