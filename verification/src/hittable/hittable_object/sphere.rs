//! Spheres, at rest or moving in a straight line.

use crate::aabb::Aabb;
use crate::hittable::hit_record::HitRecord;
use crate::hittable::hittable_list::HittableList;
use crate::hittable::hittable_object::HittableObject;
use crate::interval::Interval;
use crate::material::Material;
use crate::ray::Direction;
use crate::ray::Point;
use crate::ray::Ray;
use crate::scalar::acos_of;
use crate::scalar::atan2_of;
use crate::scalar::faithful;
use crate::scalar::from_i32_of;
use crate::scalar::ge;
use crate::scalar::gt;
use crate::scalar::is_number;
use crate::scalar::le;
use crate::scalar::lt;
use crate::scalar::mul_add_of;
use crate::scalar::ordered;
use crate::scalar::pi_of;
use crate::scalar::ratio;
use crate::scalar::ratio_of;
use crate::scalar::total;
use crate::scalar::Scalar;
use crate::vec3::sqrt_of;
use crate::vec3::Sqrt;
use crate::vec3::Vec3;
use std::ops::Neg;
use vstd::prelude::*;
use vstd::std_specs::ops::AddSpec;
use vstd::std_specs::ops::DivSpec;
use vstd::std_specs::ops::MulSpec;
use vstd::std_specs::ops::NegSpec;
use vstd::std_specs::ops::SubSpec;

verus! {

/// A sphere, its material, and the box around all the places it passes.
#[derive(Debug)]
pub struct Sphere<T: Scalar> {
    /// The centre at time zero.
    pub center1: Point<T>,
    pub radius: T,
    pub mat: Material<T>,
    pub is_moving: bool,
    /// The way the centre goes in one unit of time.
    pub center_vec: Direction<T>,
    pub bbox: Aabb<T>,
}

impl<T: Scalar> Sphere<T> {
    /// The sphere whose centre goes from `center1` at time zero to `center2`
    /// at time one. It counts as moving where some component of the way is
    /// longer than a hundred-millionth.
    pub open spec fn spec_new(
        center1: Point<T>,
        center2: Point<T>,
        radius: T,
        mat: Material<T>,
        bbox: Aabb<T>,
    ) -> Self {
        let center_vec = center2.spec_minus(center1);
        Sphere {
            center1,
            radius,
            mat,
            is_moving: !center_vec.spec_abs_diff_eq(
                Vec3::spec_zero(),
                ratio_of::<T>(1, 100_000_000),
            ),
            center_vec,
            bbox,
        }
    }

    pub fn new(center1: Point<T>, center2: Point<T>, radius: T, mat: Material<T>, bbox: Aabb<T>) -> (r:
        Self)
        requires
            total::<T>(),
        ensures
            faithful::<T>() ==> r == Self::spec_new(center1, center2, radius, mat, bbox),
    {
        let center_vec = center2 - center1;
        Self {
            center1,
            radius,
            mat,
            center_vec,
            is_moving: !center_vec.abs_diff_eq(Vec3::zero(), ratio(1, 100_000_000)),
            bbox,
        }
    }

    /// Where the centre is at `time`.
    pub open spec fn spec_center(self, time: T) -> Point<T> {
        if self.is_moving {
            self.center1.spec_plus(self.center_vec.spec_scaled(time))
        } else {
            self.center1
        }
    }

    fn center(&self, time: T) -> (r: Point<T>)
        requires
            total::<T>(),
        ensures
            faithful::<T>() ==> r == self.center1.spec_plus(self.center_vec.spec_scaled(time)),
    {
        self.center1 + self.center_vec * time
    }

    /// The surface coordinates of the point `p` of the unit sphere: `u` is
    /// the angle around the y axis, counted from `x = -1`, as a share of the
    /// full turn; `v` the angle from `y = -1` up, as a share of the half turn.
    pub open spec fn spec_sphere_uv(p: Point<T>) -> (T, T) {
        let theta = acos_of(p.y.neg_spec());
        let phi = atan2_of(p.z.neg_spec(), p.x).add_spec(pi_of::<T>());
        (
            phi.div_spec(from_i32_of::<T>(2).mul_spec(pi_of::<T>())),
            theta.div_spec(pi_of::<T>()),
        )
    }

    pub fn get_sphere_uv(p: &Point<T>, u: &mut T, v: &mut T)
        requires
            total::<T>(),
        ensures
            faithful::<T>() ==> (*final(u), *final(v)) == Self::spec_sphere_uv(*p),
    {
        let theta = p.y.neg().acos();
        let phi = p.z.neg().atan2(p.x) + T::pi();

        *u = phi / (T::from_i32(2) * T::pi());
        *v = theta / T::pi();
    }

    /// The discriminant, over four, of the equation for the ray parameter
    /// at which `ray` is one radius from the centre.
    pub open spec fn spec_discriminant(self, ray: Ray<T>) -> T {
        let oc = ray.origin.spec_minus(self.spec_center(ray.time));
        let a = ray.direction.spec_length_squared();
        let half_b = oc.spec_dot(ray.direction);
        let c = mul_add_of(self.radius, self.radius.neg_spec(), oc.spec_length_squared());
        mul_add_of(half_b, half_b, a.neg_spec().mul_spec(c))
    }

    /// The nearer or the farther of the two solutions.
    pub open spec fn spec_solution(self, ray: Ray<T>, farther: bool) -> T {
        let oc = ray.origin.spec_minus(self.spec_center(ray.time));
        let a = ray.direction.spec_length_squared();
        let half_b = oc.spec_dot(ray.direction);
        let sqrtd = sqrt_of(self.spec_discriminant(ray));
        if farther {
            half_b.neg_spec().add_spec(sqrtd).div_spec(a)
        } else {
            half_b.neg_spec().sub_spec(sqrtd).div_spec(a)
        }
    }

    /// Whether a solution is accepted: it lies above the start of `ray_t`
    /// and not above its end.
    pub open spec fn spec_accepts(ray_t: Interval<T>, root: T) -> bool {
        lt(ray_t.min, root) && le(root, ray_t.max)
    }

    /// The ray parameter at which `ray` meets the sphere within `ray_t`:
    /// the nearer solution where it is accepted, else the farther where
    /// that is; none where the discriminant is below `from_i32(0)` or
    /// neither solution is accepted.
    pub open spec fn spec_root(self, ray: Ray<T>, ray_t: Interval<T>) -> Option<T> {
        if lt(self.spec_discriminant(ray), from_i32_of::<T>(0)) {
            None
        } else if Self::spec_accepts(ray_t, self.spec_solution(ray, false)) {
            Some(self.spec_solution(ray, false))
        } else if Self::spec_accepts(ray_t, self.spec_solution(ray, true)) {
            Some(self.spec_solution(ray, true))
        } else {
            None
        }
    }

    /// The record of the meeting at ray parameter `root`.
    pub open spec fn spec_record(self, ray: Ray<T>, root: T) -> HitRecord<T> {
        let p = ray.spec_at(root);
        let outward_normal = p.spec_minus(self.spec_center(ray.time)).spec_divided(self.radius);
        let (u, v) = Self::spec_sphere_uv(outward_normal);
        HitRecord {
            p,
            normal: HitRecord::spec_face_normal(ray, outward_normal),
            mat: self.mat,
            t: root,
            u,
            v,
            front_face: HitRecord::spec_front_face(ray, outward_normal),
        }
    }

    /// The nearest meeting of `ray` and the sphere within `ray_t`.
    pub open spec fn spec_hit(self, ray: Ray<T>, ray_t: Interval<T>) -> Option<HitRecord<T>> {
        match self.spec_root(ray, ray_t) {
            Some(root) => Some(self.spec_record(ray, root)),
            None => None,
        }
    }

    /// The two solutions for `ray` come in order: the farther is not below
    /// the nearer.
    pub open spec fn spec_roots_in_order(self, ray: Ray<T>) -> bool {
        !lt(self.spec_solution(ray, true), self.spec_solution(ray, false))
    }

    /// A sphere whose solutions come in order answers a shorter search as
    /// it answers a longer one: with the same meeting where that lies
    /// within reach, with none where it does not.
    pub proof fn lemma_steady(self, ray: Ray<T>, ray_t: Interval<T>)
        requires
            ordered::<T>(),
            self.spec_roots_in_order(ray),
        ensures
            HittableList::spec_steady(HittableObject::Sphere(self), ray, ray_t),
    {
        let near = self.spec_solution(ray, false);
        let far = self.spec_solution(ray, true);
        let full = self.spec_hit(ray, ray_t);
        assert forall|end: T| le(end, ray_t.max) implies ({
            let short = #[trigger] HittableObject::Sphere(self).spec_hit(
                ray,
                Interval { min: ray_t.min, max: end },
            );
            match full {
                None => short is None,
                Some(found) => if le(found.t, end) {
                    short == Some(found)
                } else {
                    short is None
                },
            }
        }) by {
            let shorter = Interval { min: ray_t.min, max: end };
            if Self::spec_accepts(shorter, near) {
                assert(le(near, ray_t.max));
            }
            if Self::spec_accepts(shorter, far) {
                assert(le(far, ray_t.max));
                if Self::spec_accepts(ray_t, near) {
                    assert(is_number(near) && is_number(end));
                    assert(le(near, end) || le(end, near));
                    if !le(near, end) {
                        assert(ge(near, end));
                        assert(le(far, near));
                        assert(ge(near, far));
                        assert(is_number(far));
                        assert(le(near, far) || le(far, near));
                        if !le(near, far) {
                            assert(gt(near, far));
                            assert(lt(far, near));
                        }
                        assert(le(near, far));
                        assert(le(near, end));
                    }
                }
            }
        }
    }

    /// Looks for the nearest meeting within `ray_t`. Where there is one it
    /// is written to `rec`; where there is none `rec` stays as it was.
    pub fn hit(&self, ray: &Ray<T>, ray_t: Interval<T>, rec: &mut HitRecord<T>) -> (hit: bool)
        requires
            total::<T>(),
        ensures
            !hit ==> *final(rec) == *old(rec),
            faithful::<T>() ==> match self.spec_hit(*ray, ray_t) {
                Some(found) => hit && *final(rec) == found,
                None => !hit,
            },
    {
        let center = if self.is_moving {
            self.center(ray.time())
        } else {
            self.center1
        };
        let oc = ray.origin() - center;
        let a = ray.direction().length_squared();
        let half_b = oc.dot(ray.direction());
        let c = self.radius.mul_add(self.radius.neg(), oc.length_squared());

        let discriminant = half_b.mul_add(half_b, a.neg() * c);
        if discriminant < T::from_i32(0) {
            return false;
        }
        let sqrtd = discriminant.sqrt();

        let mut root = (half_b.neg() - sqrtd) / a;
        if !(ray_t.min < root && root <= ray_t.max) {
            root = (half_b.neg() + sqrtd) / a;
            if !(ray_t.min < root && root <= ray_t.max) {
                return false;
            }
        }
        rec.t = root;
        rec.p = ray.at(rec.t);
        let outward_normal = (rec.p - center) / self.radius;
        rec.set_face_normal(ray, &outward_normal);
        let mut u = rec.u;
        let mut v = rec.v;
        Self::get_sphere_uv(&outward_normal, &mut u, &mut v);
        rec.u = u;
        rec.v = v;
        rec.mat = self.mat.clone();

        true
    }

    pub fn bounding_box(&self) -> (r: &Aabb<T>)
        ensures
            *r == self.bbox,
    {
        &self.bbox
    }
}

impl<T: Scalar> Clone for Sphere<T> {
    fn clone(&self) -> (r: Self)
        ensures
            r == *self,
    {
        Sphere {
            center1: self.center1,
            radius: self.radius,
            mat: self.mat.clone(),
            is_moving: self.is_moving,
            center_vec: self.center_vec,
            bbox: self.bbox,
        }
    }
}

} // verus!
