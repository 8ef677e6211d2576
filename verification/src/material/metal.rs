//! Polished and brushed metal.

use crate::color::Color;
use crate::hittable::HitRecord;
use crate::material::Scattering;
use crate::random::spec_unit_vector;
use crate::random::unit_vector;
use crate::random::Draw;
use crate::random::RandomSource;
use crate::random::Stream;
use crate::ray::Direction;
use crate::ray::Ray;
use crate::scalar::faithful;
use crate::scalar::from_i32_of;
use crate::scalar::ge;
use crate::scalar::gt;
use crate::scalar::is_number;
use crate::scalar::le;
use crate::scalar::lt;
use crate::scalar::ordered;
use crate::scalar::total;
use crate::scalar::Scalar;
use crate::utility::reflect;
use crate::utility::spec_reflect;
use vstd::prelude::*;
use vstd::std_specs::ops::AddSpec;
use vstd::std_specs::ops::MulSpec;

verus! {

/// A metal of some colour, the rougher the higher its `fuzz`.
#[derive(Debug)]
pub struct Metal<T: Scalar> {
    pub albedo: Color<T>,
    pub fuzz: T,
}

impl<T: Scalar> Metal<T> {
    /// The roughness that `f` asks for, held between `from_i32(0)` and
    /// `from_i32(1)`: what is not below one counts as one, what is below
    /// zero as zero.
    pub open spec fn spec_fuzz(f: T) -> T {
        if lt(f, from_i32_of::<T>(1)) {
            if lt(f, from_i32_of::<T>(0)) {
                from_i32_of::<T>(0)
            } else {
                f
            }
        } else {
            from_i32_of::<T>(1)
        }
    }

    /// Metal of colour `a` and roughness `f`.
    pub open spec fn spec_new(a: Color<T>, f: T) -> Self {
        Metal { albedo: a, fuzz: Self::spec_fuzz(f) }
    }

    pub fn new(a: &Color<T>, f: T) -> (r: Self)
        ensures
            faithful::<T>() ==> r == Self::spec_new(*a, f),
    {
        let one = T::from_i32(1);
        let zero = T::from_i32(0);
        Self {
            albedo: *a,
            fuzz: if f < one {
                if f < zero {
                    zero
                } else {
                    f
                }
            } else {
                one
            },
        }
    }

    /// The roughness of a metal lies between `from_i32(0)` and
    /// `from_i32(1)`, where these are numbers in that order.
    pub proof fn lemma_fuzz_is_held(f: T)
        requires
            ordered::<T>(),
            le(from_i32_of::<T>(0), from_i32_of::<T>(1)),
        ensures
            le(from_i32_of::<T>(0), Self::spec_fuzz(f)),
            le(Self::spec_fuzz(f), from_i32_of::<T>(1)),
    {
        let zero = from_i32_of::<T>(0);
        let one = from_i32_of::<T>(1);
        if lt(f, one) && !lt(f, zero) {
            assert(le(f, one));
            assert(is_number(f) && is_number(zero));
            assert(le(f, zero) || le(zero, f));
            assert(ge(f, zero) <==> le(zero, f));
        }
    }

    /// The ray that leaves, given the random direction `unit`: the mirror
    /// image of the incoming direction, pushed aside by `unit` times the
    /// roughness.
    pub open spec fn spec_scattered(self, r_in: Ray<T>, rec: HitRecord<T>, unit: Direction<T>) -> Ray<
        T,
    > {
        let reflected = spec_reflect(r_in.direction.spec_normalized(), rec.normal);
        Ray {
            origin: rec.p,
            direction: reflected.spec_plus(unit.spec_scaled(self.fuzz)),
            time: r_in.time,
        }
    }

    /// Adding `push` times `from_i32(0)` to `mirrored` leaves every
    /// component of `mirrored` as it is.
    pub open spec fn spec_adds_nothing(mirrored: Direction<T>, push: Direction<T>) -> bool {
        let zero = from_i32_of::<T>(0);
        &&& mirrored.x.add_spec(push.x.mul_spec(zero)) == mirrored.x
        &&& mirrored.y.add_spec(push.y.mul_spec(zero)) == mirrored.y
        &&& mirrored.z.add_spec(push.z.mul_spec(zero)) == mirrored.z
    }

    /// A metal without roughness is a mirror: the ray leaves from the place
    /// hit, at the time of the incoming ray, in the mirror image of the
    /// incoming direction; where adding nothing of the random direction
    /// leaves that image as it is.
    pub proof fn lemma_mirror_without_fuzz(
        self,
        r_in: Ray<T>,
        rec: HitRecord<T>,
        unit: Direction<T>,
    )
        requires
            self.fuzz == from_i32_of::<T>(0),
            Self::spec_adds_nothing(
                spec_reflect(r_in.direction.spec_normalized(), rec.normal),
                unit,
            ),
        ensures
            self.spec_scattered(r_in, rec, unit) == (Ray {
                origin: rec.p,
                direction: spec_reflect(r_in.direction.spec_normalized(), rec.normal),
                time: r_in.time,
            }),
    {
    }

    /// Whether the ray goes on, the metal's colour, and the ray that leaves.
    /// The ray goes on where it leaves on the side of the normal.
    pub open spec fn spec_scatter_with(self, r_in: Ray<T>, rec: HitRecord<T>, unit: Direction<T>) -> (
        bool,
        Color<T>,
        Ray<T>,
    ) {
        let scattered = self.spec_scattered(r_in, rec, unit);
        (gt(scattered.direction.spec_dot(rec.normal), from_i32_of::<T>(0)), self.albedo, scattered)
    }

    /// Reflects the ray, with `unit` in the place of the random direction.
    pub fn scatter_with(&self, r_in: &Ray<T>, rec: &HitRecord<T>, unit: Direction<T>) -> (r: (
        bool,
        Color<T>,
        Ray<T>,
    ))
        requires
            total::<T>(),
        ensures
            faithful::<T>() ==> r == self.spec_scatter_with(*r_in, *rec, unit),
    {
        let reflected = reflect(r_in.direction().normalized(), rec.normal);
        let scattered = Ray::new(rec.p, reflected + unit * self.fuzz, r_in.time());
        let outward = scattered.direction().dot(rec.normal) > T::from_i32(0);
        (outward, self.albedo, scattered)
    }

    /// What becomes of the ray, with the random direction read from place
    /// `at` of tape `f`.
    pub open spec fn spec_scatter(
        self,
        r_in: Ray<T>,
        rec: HitRecord<T>,
        f: Seq<Draw<T>>,
        at: int,
    ) -> Scattering<T> {
        let (unit, next) = spec_unit_vector(f, at);
        let (scatters, attenuation, scattered) = self.spec_scatter_with(r_in, rec, unit);
        Scattering { scatters, attenuation, scattered, next }
    }

    /// Reflects the ray, roughly by `fuzz`, and absorbs it where it would
    /// leave into the surface.
    pub fn scatter<R: RandomSource<T>>(
        &self,
        r_in: &Ray<T>,
        rec: &HitRecord<T>,
        attenuation: &mut Color<T>,
        scattered: &mut Ray<T>,
        rng: &mut Stream<T, R>,
    ) -> (scatters: bool)
        requires
            total::<T>(),
        ensures
            old(rng).leads_to(final(rng).tape()),
            faithful::<T>() ==> forall|f: Seq<Draw<T>>| #[trigger]
                final(rng).leads_to(f) ==> self.spec_scatter(
                    *r_in,
                    *rec,
                    f,
                    old(rng).tape().len() as int,
                ) == (Scattering {
                    scatters,
                    attenuation: *final(attenuation),
                    scattered: *final(scattered),
                    next: final(rng).tape().len() as int,
                }),
    {
        let unit = unit_vector(rng);
        let (outward, colour, ray) = self.scatter_with(r_in, rec, unit);
        *scattered = ray;
        *attenuation = colour;
        outward
    }
}

} // verus!
