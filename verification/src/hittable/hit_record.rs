//! The facts of one meeting of a ray and a surface.

use crate::material::Material;
use crate::ray::Direction;
use crate::ray::Point;
use crate::ray::Ray;
use crate::scalar::faithful;
use crate::scalar::from_i32_of;
use crate::scalar::ge;
use crate::scalar::is_number;
use crate::scalar::le;
use crate::scalar::lt;
use crate::scalar::negation_mirrors;
use crate::scalar::ordered;
use crate::scalar::same_number;
use crate::scalar::total;
use crate::scalar::Scalar;
use crate::vec3::Vec3;
use vstd::prelude::*;
use vstd::std_specs::ops::AddSpec;
use vstd::std_specs::ops::MulSpec;
use vstd::std_specs::ops::NegSpec;

verus! {

/// Where and how a ray met a surface.
#[derive(Debug)]
pub struct HitRecord<T: Scalar> {
    /// Where the ray met the surface.
    pub p: Point<T>,
    /// The surface normal there, turned against the ray.
    pub normal: Direction<T>,
    pub mat: Material<T>,
    /// The ray parameter of the meeting.
    pub t: T,
    /// Surface coordinates of the place.
    pub u: T,
    pub v: T,
    /// Whether the ray came from outside.
    pub front_face: bool,
}

impl<T: Scalar> HitRecord<T> {
    /// Whether `ray` meets a surface with outward normal `outward_normal`
    /// from outside: the two point against each other.
    pub open spec fn spec_front_face(ray: Ray<T>, outward_normal: Direction<T>) -> bool {
        lt(ray.direction.spec_dot(outward_normal), from_i32_of::<T>(0))
    }

    /// The normal to record: the outward one for a ray from outside, else
    /// the outward one times `from_i32(-1)`.
    pub open spec fn spec_face_normal(ray: Ray<T>, outward_normal: Direction<T>) -> Direction<T> {
        if Self::spec_front_face(ray, outward_normal) {
            outward_normal
        } else {
            outward_normal.spec_scaled(from_i32_of::<T>(-1i32))
        }
    }

    /// Records on which side the ray came, and the normal turned against
    /// it. `outward_normal` is taken to have unit length.
    pub fn set_face_normal(&mut self, ray: &Ray<T>, outward_normal: &Direction<T>)
        requires
            total::<T>(),
        ensures
            final(self).p == old(self).p,
            final(self).mat == old(self).mat,
            final(self).t == old(self).t,
            final(self).u == old(self).u,
            final(self).v == old(self).v,
            faithful::<T>() ==> final(self).front_face == Self::spec_front_face(
                *ray,
                *outward_normal,
            ),
            faithful::<T>() ==> final(self).normal == Self::spec_face_normal(*ray, *outward_normal),
    {
        self.front_face = ray.direction().dot(*outward_normal) < T::from_i32(0);
        self.normal = if self.front_face {
            *outward_normal
        } else {
            (*outward_normal) * T::from_i32(-1)
        }
    }

    /// A ray from outside points against the recorded normal.
    pub proof fn lemma_front_face_opposes(ray: Ray<T>, outward_normal: Direction<T>)
        requires
            Self::spec_front_face(ray, outward_normal),
        ensures
            lt(
                ray.direction.spec_dot(Self::spec_face_normal(ray, outward_normal)),
                from_i32_of::<T>(0),
            ),
    {
    }

    /// The recorded normal never points along the ray: the ray's direction
    /// times the normal is at most `from_i32(0)`, wherever the direction
    /// times the outward normal is a number and turning signs mirrors the
    /// arithmetic.
    pub proof fn lemma_normal_opposes(ray: Ray<T>, outward_normal: Direction<T>)
        requires
            ordered::<T>(),
            negation_mirrors::<T>(),
            is_number(from_i32_of::<T>(0)),
            is_number(ray.direction.spec_dot(outward_normal)),
        ensures
            le(
                ray.direction.spec_dot(Self::spec_face_normal(ray, outward_normal)),
                from_i32_of::<T>(0),
            ),
    {
        let zero = from_i32_of::<T>(0);
        let d = ray.direction;
        let o = outward_normal;
        let along = d.spec_dot(o);
        if !Self::spec_front_face(ray, o) {
            let turned = o.spec_scaled(from_i32_of::<T>(-1i32));
            let px = d.x.mul_spec(o.x);
            let py = d.y.mul_spec(o.y);
            let pz = d.z.mul_spec(o.z);
            assert(turned.x == o.x.neg_spec());
            assert(turned.y == o.y.neg_spec());
            assert(turned.z == o.z.neg_spec());
            assert(d.x.mul_spec(turned.x) == px.neg_spec());
            assert(d.y.mul_spec(turned.y) == py.neg_spec());
            assert(d.z.mul_spec(turned.z) == pz.neg_spec());
            assert(along == px.add_spec(py).add_spec(pz));
            assert(is_number(px.add_spec(py)) && is_number(pz));
            assert(is_number(px) && is_number(py));
            assert(is_number(px.neg_spec()) && is_number(py.neg_spec()) && is_number(
                pz.neg_spec(),
            ));
            assert(same_number(px.neg_spec(), px.neg_spec()));
            assert(same_number(py.neg_spec(), py.neg_spec()));
            assert(same_number(pz.neg_spec(), pz.neg_spec()));
            let two = px.neg_spec().add_spec(py.neg_spec());
            assert(same_number(two, px.add_spec(py).neg_spec()));
            assert(same_number(two.add_spec(pz.neg_spec()), along.neg_spec()));
            assert(d.spec_dot(turned) == two.add_spec(pz.neg_spec()));
            assert(le(along, zero) || le(zero, along));
            assert(ge(along, zero) <==> le(zero, along));
            assert(le(zero, along));
            assert(le(along.neg_spec(), zero));
        }
    }

    /// The record that stands before anything was hit.
    pub open spec fn spec_default() -> Self {
        HitRecord {
            p: Vec3::spec_zero(),
            normal: Vec3::spec_zero(),
            mat: Material::spec_default(),
            t: from_i32_of::<T>(0),
            u: from_i32_of::<T>(0),
            v: from_i32_of::<T>(0),
            front_face: false,
        }
    }

    pub fn default() -> (r: Self)
        requires
            total::<T>(),
        ensures
            faithful::<T>() ==> r == Self::spec_default(),
    {
        HitRecord {
            p: Vec3::zero(),
            normal: Vec3::zero(),
            mat: Material::default(),
            t: T::from_i32(0),
            u: T::from_i32(0),
            v: T::from_i32(0),
            front_face: false,
        }
    }
}

impl<T: Scalar> Clone for HitRecord<T> {
    fn clone(&self) -> (r: Self)
        ensures
            r == *self,
    {
        HitRecord {
            p: self.p,
            normal: self.normal,
            mat: self.mat.clone(),
            t: self.t,
            u: self.u,
            v: self.v,
            front_face: self.front_face,
        }
    }
}

} // verus!
