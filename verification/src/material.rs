//! How surfaces send light on.

use crate::color::Color;
use crate::hittable::HitRecord;
use crate::random::Draw;
use crate::random::RandomSource;
use crate::random::Stream;
use crate::ray::Ray;
use crate::scalar::faithful;
use crate::scalar::ratio;
use crate::scalar::ratio_of;
use crate::scalar::total;
use crate::scalar::Scalar;
use crate::texture::solid_color::SolidColor;
use crate::texture::Texture;
use vstd::prelude::*;

pub mod dielectric;
pub mod lambertian;
pub mod metal;

verus! {

/// What a surface is made of.
#[derive(Debug)]
pub enum Material<T: Scalar> {
    Lambertian(lambertian::Lambertian<T>),
    Metal(metal::Metal<T>),
    Dielectric(dielectric::Dielectric<T>),
}

/// What became of a ray at a surface: whether it goes on, the colour it is
/// dimmed by, the ray that leaves, and the place on the tape behind the random
/// numbers that were used.
pub struct Scattering<T: Scalar> {
    pub scatters: bool,
    pub attenuation: Color<T>,
    pub scattered: Ray<T>,
    pub next: int,
}

impl<T: Scalar> Material<T> {
    pub fn lambertian(a: Color<T>) -> (r: Self)
        ensures
            r == Material::Lambertian(
                lambertian::Lambertian {
                    albedo: Texture::SolidColor(SolidColor { color_value: a }),
                },
            ),
    {
        Self::Lambertian(lambertian::Lambertian::new(a))
    }

    pub fn lambertian_with_texture(a: Texture<T>) -> (r: Self)
        ensures
            r == Material::Lambertian(lambertian::Lambertian { albedo: a }),
    {
        Self::Lambertian(lambertian::Lambertian::new_with_texture(a))
    }

    pub fn metal(a: Color<T>, f: T) -> (r: Self)
        ensures
            faithful::<T>() ==> r == Material::Metal(metal::Metal::spec_new(a, f)),
    {
        Self::Metal(metal::Metal::new(&a, f))
    }

    pub fn dielectric(index_of_refraction: T) -> (r: Self)
        ensures
            r == Material::Dielectric(dielectric::Dielectric { ir: index_of_refraction }),
    {
        Self::Dielectric(dielectric::Dielectric::new(index_of_refraction))
    }

    /// Glass: a dielectric whose index of refraction is three halves.
    pub open spec fn spec_default() -> Self {
        Material::Dielectric(dielectric::Dielectric { ir: ratio_of::<T>(3, 2) })
    }

    pub fn default() -> (r: Self)
        requires
            total::<T>(),
        ensures
            faithful::<T>() ==> r == Self::spec_default(),
    {
        Self::dielectric(ratio(3, 2))
    }

    /// What the material does to the ray `r_in` that hit as `rec` records,
    /// with random numbers read from place `at` of tape `f`.
    pub open spec fn spec_scatter(
        self,
        r_in: Ray<T>,
        rec: HitRecord<T>,
        f: Seq<Draw<T>>,
        at: int,
    ) -> Scattering<T> {
        match self {
            Material::Lambertian(lamb) => lamb.spec_scatter(r_in, rec, f, at),
            Material::Metal(met) => met.spec_scatter(r_in, rec, f, at),
            Material::Dielectric(die) => die.spec_scatter(r_in, rec, f, at),
        }
    }

    /// Sends the ray on or absorbs it. Returns whether it goes on; the
    /// colour and the new ray are written in either case.
    pub fn scatter<R: RandomSource<T>>(
        &self,
        r_in: &Ray<T>,
        rec: &HitRecord<T>,
        attenuation: &mut Color<T>,
        scattered: &mut Ray<T>,
        rng: &mut Stream<T, R>,
    ) -> (scatters: bool)
        requires
            total::<T>(),
        ensures
            old(rng).leads_to(final(rng).tape()),
            faithful::<T>() ==> forall|f: Seq<Draw<T>>| #[trigger]
                final(rng).leads_to(f) ==> self.spec_scatter(
                    *r_in,
                    *rec,
                    f,
                    old(rng).tape().len() as int,
                ) == (Scattering {
                    scatters,
                    attenuation: *final(attenuation),
                    scattered: *final(scattered),
                    next: final(rng).tape().len() as int,
                }),
    {
        match self {
            Self::Lambertian(lamb) => lamb.scatter(r_in, rec, attenuation, scattered, rng),
            Self::Metal(met) => met.scatter(r_in, rec, attenuation, scattered, rng),
            Self::Dielectric(die) => die.scatter(r_in, rec, attenuation, scattered, rng),
        }
    }
}

impl<T: Scalar> Clone for Material<T> {
    fn clone(&self) -> (r: Self)
        ensures
            r == *self,
    {
        match self {
            Self::Lambertian(lamb) => Self::Lambertian(
                lambertian::Lambertian { albedo: lamb.albedo.clone() },
            ),
            Self::Metal(met) => Self::Metal(metal::Metal { albedo: met.albedo, fuzz: met.fuzz }),
            Self::Dielectric(die) => Self::Dielectric(dielectric::Dielectric { ir: die.ir }),
        }
    }
}

/// What sends light on.
pub trait Scatter<T: Scalar> {
    /// What becomes of the ray `r_in` that hit as `rec` records, with random
    /// numbers read from place `at` of tape `f`.
    spec fn spec_outcome(
        &self,
        r_in: Ray<T>,
        rec: HitRecord<T>,
        f: Seq<Draw<T>>,
        at: int,
    ) -> Scattering<T>;

    /// Sends the ray on or absorbs it. Returns whether it goes on; the
    /// colour and the new ray are written in either case.
    fn scatter<R: RandomSource<T>>(
        &self,
        r_in: &Ray<T>,
        rec: &HitRecord<T>,
        attenuation: &mut Color<T>,
        scattered: &mut Ray<T>,
        rng: &mut Stream<T, R>,
    ) -> (scatters: bool)
        requires
            total::<T>(),
        ensures
            old(rng).leads_to(final(rng).tape()),
            faithful::<T>() ==> forall|f: Seq<Draw<T>>| #[trigger]
                final(rng).leads_to(f) ==> self.spec_outcome(
                    *r_in,
                    *rec,
                    f,
                    old(rng).tape().len() as int,
                ) == (Scattering {
                    scatters,
                    attenuation: *final(attenuation),
                    scattered: *final(scattered),
                    next: final(rng).tape().len() as int,
                }),
    ;
}

impl<T: Scalar> Scatter<T> for Material<T> {
    open spec fn spec_outcome(
        &self,
        r_in: Ray<T>,
        rec: HitRecord<T>,
        f: Seq<Draw<T>>,
        at: int,
    ) -> Scattering<T> {
        self.spec_scatter(r_in, rec, f, at)
    }

    fn scatter<R: RandomSource<T>>(
        &self,
        r_in: &Ray<T>,
        rec: &HitRecord<T>,
        attenuation: &mut Color<T>,
        scattered: &mut Ray<T>,
        rng: &mut Stream<T, R>,
    ) -> (scatters: bool) {
        Material::scatter(self, r_in, rec, attenuation, scattered, rng)
    }
}

impl<T: Scalar> Scatter<T> for lambertian::Lambertian<T> {
    open spec fn spec_outcome(
        &self,
        r_in: Ray<T>,
        rec: HitRecord<T>,
        f: Seq<Draw<T>>,
        at: int,
    ) -> Scattering<T> {
        self.spec_scatter(r_in, rec, f, at)
    }

    fn scatter<R: RandomSource<T>>(
        &self,
        r_in: &Ray<T>,
        rec: &HitRecord<T>,
        attenuation: &mut Color<T>,
        scattered: &mut Ray<T>,
        rng: &mut Stream<T, R>,
    ) -> (scatters: bool) {
        lambertian::Lambertian::scatter(self, r_in, rec, attenuation, scattered, rng)
    }
}

impl<T: Scalar> Scatter<T> for metal::Metal<T> {
    open spec fn spec_outcome(
        &self,
        r_in: Ray<T>,
        rec: HitRecord<T>,
        f: Seq<Draw<T>>,
        at: int,
    ) -> Scattering<T> {
        self.spec_scatter(r_in, rec, f, at)
    }

    fn scatter<R: RandomSource<T>>(
        &self,
        r_in: &Ray<T>,
        rec: &HitRecord<T>,
        attenuation: &mut Color<T>,
        scattered: &mut Ray<T>,
        rng: &mut Stream<T, R>,
    ) -> (scatters: bool) {
        metal::Metal::scatter(self, r_in, rec, attenuation, scattered, rng)
    }
}

impl<T: Scalar> Scatter<T> for dielectric::Dielectric<T> {
    open spec fn spec_outcome(
        &self,
        r_in: Ray<T>,
        rec: HitRecord<T>,
        f: Seq<Draw<T>>,
        at: int,
    ) -> Scattering<T> {
        self.spec_scatter(r_in, rec, f, at)
    }

    fn scatter<R: RandomSource<T>>(
        &self,
        r_in: &Ray<T>,
        rec: &HitRecord<T>,
        attenuation: &mut Color<T>,
        scattered: &mut Ray<T>,
        rng: &mut Stream<T, R>,
    ) -> (scatters: bool) {
        dielectric::Dielectric::scatter(self, r_in, rec, attenuation, scattered, rng)
    }
}

} // verus!
