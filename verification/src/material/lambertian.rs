//! Matt surfaces, which send light on in every direction.

use crate::color::Color;
use crate::hittable::HitRecord;
use crate::material::Scattering;
use crate::random::spec_unit_vector;
use crate::random::unit_vector;
use crate::random::Draw;
use crate::random::RandomSource;
use crate::random::Stream;
use crate::ray::Direction;
use crate::ray::Ray;
use crate::scalar::faithful;
use crate::scalar::ratio;
use crate::scalar::ratio_of;
use crate::scalar::total;
use crate::scalar::Scalar;
use crate::texture::solid_color::SolidColor;
use crate::texture::Texture;
use crate::vec3::Vec3;
use vstd::prelude::*;

verus! {

/// A matt surface, coloured by a texture.
#[derive(Debug)]
pub struct Lambertian<T: Scalar> {
    pub albedo: Texture<T>,
}

impl<T: Scalar> Lambertian<T> {
    pub fn new(a: Color<T>) -> (r: Self)
        ensures
            r == (Lambertian { albedo: Texture::SolidColor(SolidColor { color_value: a }) }),
    {
        Self::new_with_texture(Texture::solid_color(a))
    }

    pub fn new_with_texture(a: Texture<T>) -> (r: Self)
        ensures
            r == (Lambertian { albedo: a }),
    {
        Self { albedo: a }
    }

    /// The direction a ray leaves in, given the random direction `unit`:
    /// the surface normal plus `unit`, or the normal alone where the sum
    /// comes within a hundred-millionth of nothing.
    pub open spec fn spec_direction(rec: HitRecord<T>, unit: Direction<T>) -> Direction<T> {
        let sum = rec.normal.spec_plus(unit);
        if sum.spec_abs_diff_eq(Vec3::spec_zero(), ratio_of::<T>(1, 100_000_000)) {
            rec.normal
        } else {
            sum
        }
    }

    /// What leaves the surface, given the random direction `unit`: the
    /// colour of the texture at the place hit, and a ray from there.
    pub open spec fn spec_scatter_with(
        self,
        r_in: Ray<T>,
        rec: HitRecord<T>,
        unit: Direction<T>,
    ) -> (Color<T>, Ray<T>) {
        (
            self.albedo.spec_value(rec.u, rec.v, rec.p),
            Ray { origin: rec.p, direction: Self::spec_direction(rec, unit), time: r_in.time },
        )
    }

    /// Sends the ray on, with `unit` in the place of the random direction.
    pub fn scatter_with(&self, r_in: &Ray<T>, rec: &HitRecord<T>, unit: Direction<T>) -> (r: (
        Color<T>,
        Ray<T>,
    ))
        requires
            total::<T>(),
        ensures
            faithful::<T>() ==> r == self.spec_scatter_with(*r_in, *rec, unit),
    {
        let mut scatter_direction = rec.normal + unit;

        if scatter_direction.abs_diff_eq(Vec3::zero(), ratio(1, 100_000_000)) {
            scatter_direction = rec.normal;
        }
        let scattered = Ray::new(rec.p, scatter_direction, r_in.time());
        let attenuation = self.albedo.value(rec.u, rec.v, &rec.p);
        (attenuation, scattered)
    }

    /// What leaves the surface, with the random direction read from place
    /// `at` of tape `f`.
    pub open spec fn spec_scatter(
        self,
        r_in: Ray<T>,
        rec: HitRecord<T>,
        f: Seq<Draw<T>>,
        at: int,
    ) -> Scattering<T> {
        let (unit, next) = spec_unit_vector(f, at);
        let (attenuation, scattered) = self.spec_scatter_with(r_in, rec, unit);
        Scattering { scatters: true, attenuation, scattered, next }
    }

    /// Always sends the ray on.
    pub fn scatter<R: RandomSource<T>>(
        &self,
        r_in: &Ray<T>,
        rec: &HitRecord<T>,
        attenuation: &mut Color<T>,
        scattered: &mut Ray<T>,
        rng: &mut Stream<T, R>,
    ) -> (scatters: bool)
        requires
            total::<T>(),
        ensures
            scatters,
            old(rng).leads_to(final(rng).tape()),
            faithful::<T>() ==> forall|f: Seq<Draw<T>>| #[trigger]
                final(rng).leads_to(f) ==> self.spec_scatter(
                    *r_in,
                    *rec,
                    f,
                    old(rng).tape().len() as int,
                ) == (Scattering {
                    scatters,
                    attenuation: *final(attenuation),
                    scattered: *final(scattered),
                    next: final(rng).tape().len() as int,
                }),
    {
        let unit = unit_vector(rng);
        let (colour, ray) = self.scatter_with(r_in, rec, unit);
        *scattered = ray;
        *attenuation = colour;
        true
    }
}

} // verus!
