//! Clear media such as glass and water.

use crate::color::Color;
use crate::hittable::HitRecord;
use crate::material::Scattering;
use crate::random::number;
use crate::random::share_at;
use crate::random::Draw;
use crate::random::RandomSource;
use crate::random::Stream;
use crate::ray::Ray;
use crate::scalar::faithful;
use crate::scalar::from_i32_of;
use crate::scalar::gt;
use crate::scalar::min;
use crate::scalar::mul_add_of;
use crate::scalar::powi_of;
use crate::scalar::spec_min;
use crate::scalar::total;
use crate::scalar::Scalar;
use crate::utility::reflect;
use crate::utility::refract;
use crate::utility::spec_reflect;
use crate::utility::spec_refract;
use crate::vec3::sqrt_of;
use crate::vec3::Sqrt;
use crate::vec3::Vec3;
use std::ops::Neg;
use vstd::prelude::*;
use vstd::std_specs::ops::AddSpec;
use vstd::std_specs::ops::DivSpec;
use vstd::std_specs::ops::MulSpec;
use vstd::std_specs::ops::NegSpec;
use vstd::std_specs::ops::SubSpec;

verus! {

/// A clear medium, which bends light by its index of refraction.
#[derive(Debug)]
pub struct Dielectric<T: Scalar> {
    /// Index of refraction.
    pub ir: T,
}

impl<T: Scalar> Dielectric<T> {
    pub fn new(index_of_refraction: T) -> (r: Self)
        ensures
            r == (Dielectric { ir: index_of_refraction }),
    {
        Self { ir: index_of_refraction }
    }

    /// Schlick's approximation of the share of light that a surface
    /// reflects: `r0 + (1 - r0) * (1 - cosine)^5`, where `r0` is the square
    /// of `(1 - ref_idx) / (1 + ref_idx)`.
    pub open spec fn spec_reflectance(cosine: T, ref_idx: T) -> T {
        let one = from_i32_of::<T>(1);
        let root = one.sub_spec(ref_idx).div_spec(one.add_spec(ref_idx));
        let r0 = root.mul_spec(root);
        mul_add_of(one.sub_spec(r0), powi_of(one.sub_spec(cosine), 5), r0)
    }

    /// The share of light that is reflected head on: the square of
    /// `(1 - ref_idx) / (1 + ref_idx)`.
    pub open spec fn spec_r0(ref_idx: T) -> T {
        let one = from_i32_of::<T>(1);
        let root = one.sub_spec(ref_idx).div_spec(one.add_spec(ref_idx));
        root.mul_spec(root)
    }

    /// Head on, where the cosine is `from_i32(1)`, the reflectance is the
    /// share that is reflected head on; for an index with which one less
    /// one is nothing, nothing to the fifth power is nothing, and nothing
    /// times a factor, added to that share, is that share.
    pub proof fn lemma_reflectance_head_on(ref_idx: T)
        requires
            from_i32_of::<T>(1).sub_spec(from_i32_of::<T>(1)) == from_i32_of::<T>(0),
            powi_of(from_i32_of::<T>(0), 5) == from_i32_of::<T>(0),
            mul_add_of(
                from_i32_of::<T>(1).sub_spec(Self::spec_r0(ref_idx)),
                from_i32_of::<T>(0),
                Self::spec_r0(ref_idx),
            ) == Self::spec_r0(ref_idx),
        ensures
            Self::spec_reflectance(from_i32_of::<T>(1), ref_idx) == Self::spec_r0(ref_idx),
    {
    }

    pub fn reflectance(cosine: T, ref_idx: T) -> (r: T)
        requires
            total::<T>(),
        ensures
            faithful::<T>() ==> r == Self::spec_reflectance(cosine, ref_idx),
    {
        let one = T::from_i32(1);
        let r0 = (one - ref_idx) / (one + ref_idx);
        let r0 = r0 * r0;
        (one - r0).mul_add((one - cosine).powi(5), r0)
    }

    /// The ratio of the refractive indices that the ray crosses: into the
    /// medium `1 / ir`, out of it `ir`.
    pub open spec fn spec_refraction_ratio(self, rec: HitRecord<T>) -> T {
        if rec.front_face {
            from_i32_of::<T>(1).div_spec(self.ir)
        } else {
            self.ir
        }
    }

    /// The cosine of the angle between the incoming ray and the normal, at
    /// most `from_i32(1)`.
    pub open spec fn spec_cos_theta(r_in: Ray<T>, rec: HitRecord<T>) -> T {
        spec_min(
            from_i32_of::<T>(1),
            rec.normal.spec_dot(r_in.direction.spec_normalized()).neg_spec(),
        )
    }

    /// Whether Snell's law has no solution, so that all light is reflected:
    /// the ratio of the indices times the sine of the angle is above
    /// `from_i32(1)`.
    pub open spec fn spec_cannot_refract(self, r_in: Ray<T>, rec: HitRecord<T>) -> bool {
        let cos_theta = Self::spec_cos_theta(r_in, rec);
        let sin_theta = sqrt_of(mul_add_of(cos_theta, cos_theta.neg_spec(), from_i32_of::<T>(1)));
        gt(self.spec_refraction_ratio(rec).mul_spec(sin_theta), from_i32_of::<T>(1))
    }

    pub fn cannot_refract(&self, r_in: &Ray<T>, rec: &HitRecord<T>) -> (r: bool)
        requires
            total::<T>(),
        ensures
            faithful::<T>() ==> r == self.spec_cannot_refract(*r_in, *rec),
    {
        let one = T::from_i32(1);
        let refraction_ratio = if rec.front_face {
            one / self.ir
        } else {
            self.ir
        };
        let unit_direction = r_in.direction().normalized();
        let cos_theta = min(one, rec.normal.dot(unit_direction).neg());
        let sin_theta = cos_theta.mul_add(cos_theta.neg(), one).sqrt();
        refraction_ratio * sin_theta > one
    }

    /// Whether a ray that could be refracted is reflected all the same: the
    /// reflectance is above the random number `sample`.
    pub open spec fn spec_reflects(self, r_in: Ray<T>, rec: HitRecord<T>, sample: T) -> bool {
        gt(
            Self::spec_reflectance(Self::spec_cos_theta(r_in, rec), self.spec_refraction_ratio(rec)),
            sample,
        )
    }

    /// The ray that leaves: reflected or refracted, from the place hit.
    pub open spec fn spec_scattered(self, r_in: Ray<T>, rec: HitRecord<T>, reflects: bool) -> Ray<
        T,
    > {
        let unit_direction = r_in.direction.spec_normalized();
        Ray {
            origin: rec.p,
            direction: if reflects {
                spec_reflect(unit_direction, rec.normal)
            } else {
                spec_refract(unit_direction, rec.normal, self.spec_refraction_ratio(rec))
            },
            time: r_in.time,
        }
    }

    /// The ray that leaves where the random number, if one is needed, is
    /// `sample`.
    pub open spec fn spec_scatter_with(self, r_in: Ray<T>, rec: HitRecord<T>, sample: T) -> Ray<T> {
        self.spec_scattered(
            r_in,
            rec,
            self.spec_cannot_refract(r_in, rec) || self.spec_reflects(r_in, rec, sample),
        )
    }

    fn bend(&self, r_in: &Ray<T>, rec: &HitRecord<T>, reflects: bool) -> (r: Ray<T>)
        requires
            total::<T>(),
        ensures
            faithful::<T>() ==> r == self.spec_scattered(*r_in, *rec, reflects),
    {
        let refraction_ratio = if rec.front_face {
            T::from_i32(1) / self.ir
        } else {
            self.ir
        };
        let unit_direction = r_in.direction().normalized();
        let direction = if reflects {
            reflect(unit_direction, rec.normal)
        } else {
            refract(unit_direction, rec.normal, refraction_ratio)
        };
        Ray::new(rec.p, direction, r_in.time())
    }

    fn reflects(&self, r_in: &Ray<T>, rec: &HitRecord<T>, sample: T) -> (r: bool)
        requires
            total::<T>(),
        ensures
            faithful::<T>() ==> r == self.spec_reflects(*r_in, *rec, sample),
    {
        let one = T::from_i32(1);
        let refraction_ratio = if rec.front_face {
            one / self.ir
        } else {
            self.ir
        };
        let unit_direction = r_in.direction().normalized();
        let cos_theta = min(one, rec.normal.dot(unit_direction).neg());
        Self::reflectance(cos_theta, refraction_ratio) > sample
    }

    /// Reflects or refracts the ray, with `sample` in the place of the
    /// random number.
    pub fn scatter_with(&self, r_in: &Ray<T>, rec: &HitRecord<T>, sample: T) -> (r: Ray<T>)
        requires
            total::<T>(),
        ensures
            faithful::<T>() ==> r == self.spec_scatter_with(*r_in, *rec, sample),
    {
        let reflects = self.cannot_refract(r_in, rec) || self.reflects(r_in, rec, sample);
        self.bend(r_in, rec, reflects)
    }

    /// The colour that a clear medium dims light by: none of it.
    pub open spec fn spec_attenuation() -> Color<T> {
        Vec3 { x: from_i32_of::<T>(1), y: from_i32_of::<T>(1), z: from_i32_of::<T>(1) }
    }

    /// A random number, asked from zero up to one, is read only where the
    /// ray could be refracted.
    pub open spec fn spec_scatter(
        self,
        r_in: Ray<T>,
        rec: HitRecord<T>,
        f: Seq<Draw<T>>,
        at: int,
    ) -> Scattering<T> {
        if self.spec_cannot_refract(r_in, rec) {
            Scattering {
                scatters: true,
                attenuation: Self::spec_attenuation(),
                scattered: self.spec_scattered(r_in, rec, true),
                next: at,
            }
        } else {
            Scattering {
                scatters: true,
                attenuation: Self::spec_attenuation(),
                scattered: self.spec_scatter_with(r_in, rec, share_at(f, at)),
                next: at + 1,
            }
        }
    }

    /// Always sends the ray on.
    pub fn scatter<R: RandomSource<T>>(
        &self,
        r_in: &Ray<T>,
        rec: &HitRecord<T>,
        attenuation: &mut Color<T>,
        scattered: &mut Ray<T>,
        rng: &mut Stream<T, R>,
    ) -> (scatters: bool)
        requires
            total::<T>(),
        ensures
            scatters,
            old(rng).leads_to(final(rng).tape()),
            faithful::<T>() ==> forall|f: Seq<Draw<T>>| #[trigger]
                final(rng).leads_to(f) ==> self.spec_scatter(
                    *r_in,
                    *rec,
                    f,
                    old(rng).tape().len() as int,
                ) == (Scattering {
                    scatters,
                    attenuation: *final(attenuation),
                    scattered: *final(scattered),
                    next: final(rng).tape().len() as int,
                }),
    {
        *attenuation = Vec3::new(T::from_i32(1), T::from_i32(1), T::from_i32(1));
        if self.cannot_refract(r_in, rec) {
            *scattered = self.bend(r_in, rec, true);
        } else {
            let ghost start = rng.tape().len() as int;
            let sample = number(rng, T::from_i32(0), T::from_i32(1));
            *scattered = self.scatter_with(r_in, rec, sample);
            proof {
                let tape = rng.tape();
                if faithful::<T>() {
                    assert forall|f: Seq<Draw<T>>| #[trigger] rng.leads_to(f) implies share_at(
                        f,
                        start,
                    ) == sample by {
                        assert(f[start] == tape[start]);
                    }
                }
            }
        }
        true
    }
}

} // verus!
