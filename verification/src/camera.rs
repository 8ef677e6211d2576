//! The camera: from a configuration to the rays of each pixel, to the
//! colour each ray brings back, to the image file.

use crate::color::lemma_header_is_three_lines;
use crate::color::lemma_lines_add;
use crate::color::lemma_pixel_line_is_one_line;
use crate::color::spec_header;
use crate::color::spec_lines;
use crate::color::spec_pixel_line;
use crate::color::write_color;
use crate::color::write_header;
use crate::color::Color;
use crate::hittable::HitRecord;
use crate::hittable::Hittable;
use crate::interval::Interval;
use crate::random::lemma_tape_continues;
use crate::random::number;
use crate::random::share_at;
use crate::random::spec_in_unit_disk;
use crate::random::spec_within;
use crate::random::vec3_in_unit_disk;
use crate::random::Draw;
use crate::random::MAX_REJECTIONS;
use crate::random::RandomSource;
use crate::random::Stream;
use crate::ray::Direction;
use crate::ray::Point;
use crate::ray::Ray;
use crate::scalar::faithful;
use crate::scalar::from_i32_of;
use crate::scalar::infinity_of;
use crate::scalar::le;
use crate::scalar::lt;
use crate::scalar::pi_of;
use crate::scalar::ratio;
use crate::scalar::ratio_of;
use crate::scalar::tan_of;
use crate::scalar::to_i32_of;
use crate::scalar::total;
use crate::scalar::Scalar;
use crate::vec3::Vec3;
use std::ops::Neg;
use vstd::prelude::*;
use vstd::std_specs::ops::AddSpec;
use vstd::std_specs::ops::DivSpec;
use vstd::std_specs::ops::MulSpec;
use vstd::std_specs::ops::NegSpec;
use vstd::std_specs::ops::SubSpec;

verus! {

/// Why a configuration cannot be rendered.
#[derive(Debug, Clone, Copy, PartialEq, Eq, Structural)]
pub enum ConfigError {
    /// The image would be no pixel wide.
    NonPositiveWidth,
    /// No sample would be taken per pixel.
    NoSamples,
}

/// Someone who wants to know how far the rendering has come.
pub trait Progress {
    /// Row `row` of `rows` is finished.
    fn row_done(&mut self, row: u16, rows: u16);
}

/// Nobody wants to know.
pub struct Silent;

impl Progress for Silent {
    fn row_done(&mut self, row: u16, rows: u16) {
    }
}

/// A listener together with the record of the rows it was told of.
pub struct Reporter<P: Progress> {
    sink: P,
    told: Ghost<Seq<u16>>,
}

impl<P: Progress> Reporter<P> {
    /// The rows that the listener was told of, in the order of the telling.
    pub closed spec fn told(&self) -> Seq<u16> {
        self.told@
    }

    /// The listener.
    pub closed spec fn sink(&self) -> P {
        self.sink
    }

    /// A reporter that has told nothing yet.
    pub fn new(sink: P) -> (r: Self)
        ensures
            r.told() == Seq::<u16>::empty(),
            r.sink() == sink,
    {
        Reporter { sink, told: Ghost(Seq::empty()) }
    }

    /// Tells the listener that row `row` of `rows` is finished.
    pub fn row_done(&mut self, row: u16, rows: u16)
        ensures
            final(self).told() == old(self).told().push(row),
    {
        self.sink.row_done(row, rows);
        proof {
            self.told@ = self.told@.push(row);
        }
    }

    /// Gives the listener back.
    pub fn into_sink(self) -> (r: P)
        ensures
            r == self.sink(),
    {
        self.sink
    }
}

/// The rows of an image `height` high, from the top.
pub open spec fn spec_rows_from_top(height: u16) -> Seq<u16> {
    Seq::new(height as nat, |j: int| j as u16)
}

/// What to render and how: the configuration, which the caller sets, and
/// what [`Camera::initialize`] works out from it.
pub struct Camera<T: Scalar> {
    /// Width of the image over its height.
    pub aspect_ratio: T,
    /// Width of the image in pixels.
    pub image_width: u16,
    pub samples_per_pixel: u16,
    /// How often a ray may be sent on.
    pub max_depth: u16,
    /// The vertical angle of view, in degrees.
    pub vfov: T,
    pub look_from: Point<T>,
    pub look_at: Point<T>,
    /// The direction that is up in the image.
    pub vup: Direction<T>,
    /// The angle of the cone from the point in focus to the lens, in degrees.
    pub defocus_angle: T,
    /// How far from the camera things are in focus.
    pub focus_dist: T,
    pub image_height: u16,
    pub center: Point<T>,
    pub pixel00_location: Point<T>,
    pub pixel_delta_u: Direction<T>,
    pub pixel_delta_v: Direction<T>,
    pub u: Direction<T>,
    pub v: Direction<T>,
    pub w: Direction<T>,
    pub defocus_disk_u: Direction<T>,
    pub defocus_disk_v: Direction<T>,
}

/// The angle of `degrees` degrees in radians.
pub open spec fn spec_to_radians<T: Scalar>(degrees: T) -> T {
    degrees.mul_spec(pi_of::<T>().div_spec(from_i32_of::<T>(180)))
}

pub fn to_radians<T: Scalar>(degrees: T) -> (r: T)
    requires
        total::<T>(),
    ensures
        faithful::<T>() ==> r == spec_to_radians(degrees),
{
    degrees * (T::pi() / T::from_i32(180))
}

/// The height in pixels of an image `width` wide: the width over the aspect
/// ratio, cut to a whole number, at least one and at most what fits.
pub open spec fn spec_image_height<T: Scalar>(width: u16, aspect_ratio: T) -> u16 {
    let height = to_i32_of(from_i32_of::<T>(width as i32).div_spec(aspect_ratio));
    if height < 1 {
        1
    } else if height > 0xffff {
        0xffff
    } else {
        height as u16
    }
}

impl<T: Scalar> Camera<T> {
    /// The camera with every number at `from_i32(0)`.
    pub open spec fn spec_default() -> Self {
        let zero = from_i32_of::<T>(0);
        let origin = Vec3 { x: zero, y: zero, z: zero };
        Camera {
            aspect_ratio: zero,
            image_width: 0,
            samples_per_pixel: 0,
            max_depth: 0,
            vfov: zero,
            look_from: origin,
            look_at: origin,
            vup: origin,
            defocus_angle: zero,
            focus_dist: zero,
            image_height: 0,
            center: origin,
            pixel00_location: origin,
            pixel_delta_u: origin,
            pixel_delta_v: origin,
            u: origin,
            v: origin,
            w: origin,
            defocus_disk_u: origin,
            defocus_disk_v: origin,
        }
    }

    pub fn default() -> (r: Self)
        ensures
            r.image_width == 0,
            r.samples_per_pixel == 0,
            r.max_depth == 0,
            r.image_height == 0,
            faithful::<T>() ==> r == Self::spec_default(),
    {
        let zero = T::from_i32(0);
        let origin = Vec3::new(zero, zero, zero);
        Camera {
            aspect_ratio: zero,
            image_width: 0,
            samples_per_pixel: 0,
            max_depth: 0,
            vfov: zero,
            look_from: origin,
            look_at: origin,
            vup: origin,
            defocus_angle: zero,
            focus_dist: zero,
            image_height: 0,
            center: origin,
            pixel00_location: origin,
            pixel_delta_u: origin,
            pixel_delta_v: origin,
            u: origin,
            v: origin,
            w: origin,
            defocus_disk_u: origin,
            defocus_disk_v: origin,
        }
    }

    /// What is wrong with the configuration, if anything.
    pub open spec fn spec_check(self) -> Option<ConfigError> {
        if self.image_width == 0 {
            Some(ConfigError::NonPositiveWidth)
        } else if self.samples_per_pixel == 0 {
            Some(ConfigError::NoSamples)
        } else {
            None
        }
    }

    /// The camera with everything worked out that the configuration
    /// implies: the height of the image; the frame `u`, `v`, `w` with `w`
    /// pointing back from the target, `u` to the right and `v` up; the
    /// viewport at the focus distance, the step from pixel to pixel on it
    /// and the place of the first pixel; and the lens.
    pub open spec fn spec_initialized(self) -> Self {
        let image_height = spec_image_height(self.image_width, self.aspect_ratio);
        let center = self.look_from;
        let width = from_i32_of::<T>(self.image_width as i32);
        let height = from_i32_of::<T>(image_height as i32);
        let two = from_i32_of::<T>(2);
        let h = tan_of(spec_to_radians(self.vfov).div_spec(two));
        let viewport_height = two.mul_spec(h).mul_spec(self.focus_dist);
        let viewport_width = viewport_height.mul_spec(width.div_spec(height));
        let w = self.look_from.spec_minus(self.look_at).spec_normalized();
        let u = self.vup.spec_cross(w).spec_normalized();
        let v = w.spec_cross(u);
        let viewport_u = u.spec_scaled(viewport_width);
        let viewport_v = v.spec_scaled(viewport_height.neg_spec());
        let pixel_delta_u = viewport_u.spec_divided(width);
        let pixel_delta_v = viewport_v.spec_divided(height);
        let viewport_upper_left = center.spec_minus(w.spec_scaled(self.focus_dist)).spec_minus(
            viewport_u.spec_divided(two),
        ).spec_minus(viewport_v.spec_divided(two));
        let pixel00_location = viewport_upper_left.spec_plus(
            pixel_delta_u.spec_plus(pixel_delta_v).spec_scaled(ratio_of::<T>(1, 2)),
        );
        let defocus_radius = self.focus_dist.mul_spec(
            tan_of(spec_to_radians(self.defocus_angle.div_spec(two))),
        );
        Camera {
            image_height,
            center,
            pixel00_location,
            pixel_delta_u,
            pixel_delta_v,
            u,
            v,
            w,
            defocus_disk_u: u.spec_scaled(defocus_radius),
            defocus_disk_v: v.spec_scaled(defocus_radius),
            ..self
        }
    }

    /// Works out what the configuration implies, or says what is wrong
    /// with it and leaves the camera as it was.
    pub fn initialize(&mut self) -> (r: Result<(), ConfigError>)
        requires
            total::<T>(),
        ensures
            match old(self).spec_check() {
                Some(error) => r == Err::<(), ConfigError>(error) && *final(self) == *old(self),
                None => r.is_ok() && final(self).image_height >= 1 && final(self).image_width
                    == old(self).image_width && final(self).samples_per_pixel == old(
                    self,
                ).samples_per_pixel && final(self).max_depth == old(self).max_depth && (faithful::<
                    T,
                >() ==> *final(self) == old(self).spec_initialized()),
            },
    {
        if self.image_width == 0 {
            return Err(ConfigError::NonPositiveWidth);
        }
        if self.samples_per_pixel == 0 {
            return Err(ConfigError::NoSamples);
        }
        let width = T::from_i32(self.image_width as i32);
        let rows = (width / self.aspect_ratio).to_i32();
        self.image_height = if rows < 1 {
            1
        } else if rows > 0xffff {
            0xffff
        } else {
            rows as u16
        };
        let height = T::from_i32(self.image_height as i32);

        self.center = self.look_from;

        let two = T::from_i32(2);
        let theta = to_radians(self.vfov);
        let h = (theta / two).tan();
        let viewport_height = two * h * self.focus_dist;
        let viewport_width = viewport_height * (width / height);

        self.w = (self.look_from - self.look_at).normalized();
        self.u = self.vup.cross(self.w).normalized();
        self.v = self.w.cross(self.u);

        let viewport_u = self.u * viewport_width;
        let viewport_v = self.v * viewport_height.neg();

        self.pixel_delta_u = viewport_u / width;
        self.pixel_delta_v = viewport_v / height;

        let viewport_upper_left = self.center - (self.w * self.focus_dist) - (viewport_u / two) - (
        viewport_v / two);
        self.pixel00_location = viewport_upper_left + (self.pixel_delta_u + self.pixel_delta_v)
            * ratio::<T>(1, 2);

        let defocus_radius = self.focus_dist * to_radians(self.defocus_angle / two).tan();
        self.defocus_disk_u = self.u * defocus_radius;
        self.defocus_disk_v = self.v * defocus_radius;
        Ok(())
    }

    /// A random place in the square of one pixel around its centre, as a
    /// step from the centre; read from two scalars at place `at` of tape
    /// `f`, each asked from zero up to one.
    pub open spec fn spec_pixel_sample_square(self, f: Seq<Draw<T>>, at: int) -> Direction<T> {
        let px = ratio_of::<T>(-1i32, 2).add_spec(share_at(f, at));
        let py = ratio_of::<T>(-1i32, 2).add_spec(share_at(f, at + 1));
        self.pixel_delta_u.spec_scaled(px).spec_plus(self.pixel_delta_v.spec_scaled(py))
    }

    fn pixel_sample_square<R: RandomSource<T>>(&self, rng: &mut Stream<T, R>) -> (r: Direction<T>)
        requires
            total::<T>(),
        ensures
            old(rng).leads_to(final(rng).tape()),
            final(rng).tape().len() == old(rng).tape().len() + 2,
            faithful::<T>() ==> forall|f: Seq<Draw<T>>| #[trigger]
                final(rng).leads_to(f) ==> r == self.spec_pixel_sample_square(
                    f,
                    old(rng).tape().len() as int,
                ),
    {
        let ghost start = rng.tape().len() as int;
        let across = number(rng, T::from_i32(0), T::from_i32(1));
        let px = ratio::<T>(-1, 2) + across;
        let down = number(rng, T::from_i32(0), T::from_i32(1));
        let py = ratio::<T>(-1, 2) + down;
        proof {
            let tape = rng.tape();
            if faithful::<T>() {
                assert forall|f: Seq<Draw<T>>| #[trigger] rng.leads_to(f) implies share_at(f, start)
                    == across && share_at(f, start + 1) == down by {
                    assert(f[start] == tape[start]);
                    assert(f[start + 1] == tape[start + 1]);
                }
            }
        }
        self.pixel_delta_u * px + self.pixel_delta_v * py
    }

    /// A random place on the lens, and the place on the tape behind the
    /// numbers read for it.
    pub open spec fn spec_defocus_disk_sample(self, f: Seq<Draw<T>>, at: int) -> (Point<T>, int) {
        let (p, next) = spec_in_unit_disk(f, at, MAX_REJECTIONS as nat);
        (
            self.center.spec_plus(self.defocus_disk_u.spec_scaled(p.x)).spec_plus(
                self.defocus_disk_v.spec_scaled(p.y),
            ),
            next,
        )
    }

    fn defocus_disk_sample<R: RandomSource<T>>(&self, rng: &mut Stream<T, R>) -> (r: Point<T>)
        requires
            total::<T>(),
        ensures
            old(rng).leads_to(final(rng).tape()),
            faithful::<T>() ==> forall|f: Seq<Draw<T>>| #[trigger]
                final(rng).leads_to(f) ==> self.spec_defocus_disk_sample(
                    f,
                    old(rng).tape().len() as int,
                ) == (r, final(rng).tape().len() as int),
    {
        let p = vec3_in_unit_disk(rng);
        self.center + (self.defocus_disk_u * p.x) + (self.defocus_disk_v * p.y)
    }

    /// Where a ray starts that needs no lens.
    pub open spec fn spec_pinhole(self) -> bool {
        le(self.defocus_angle, from_i32_of::<T>(0))
    }

    /// The ray for one sample of the pixel in column `i` of row `j`, and the
    /// place on the tape behind the numbers read for it: through a random
    /// place of the pixel, from the centre of the camera or, with a lens,
    /// from a random place on it, at a random time of the exposure, which
    /// lasts from time zero up to time one.
    pub open spec fn spec_get_ray(self, i: u16, j: u16, f: Seq<Draw<T>>, at: int) -> (Ray<T>, int) {
        let pixel_center = self.pixel00_location.spec_plus(
            self.pixel_delta_u.spec_scaled(from_i32_of::<T>(i as i32)),
        ).spec_plus(self.pixel_delta_v.spec_scaled(from_i32_of::<T>(j as i32)));
        let pixel_sample = pixel_center.spec_plus(self.spec_pixel_sample_square(f, at));
        let (origin, then) = if self.spec_pinhole() {
            (self.center, at + 2)
        } else {
            self.spec_defocus_disk_sample(f, at + 2)
        };
        (
            Ray {
                origin,
                direction: pixel_sample.spec_minus(origin),
                time: share_at(f, then),
            },
            then + 1,
        )
    }

    /// Draws the ray for one sample of the pixel in column `i` of row `j`.
    pub fn get_ray<R: RandomSource<T>>(&self, i: u16, j: u16, rng: &mut Stream<T, R>) -> (r: Ray<T>)
        requires
            total::<T>(),
        ensures
            old(rng).leads_to(final(rng).tape()),
            faithful::<T>() ==> forall|f: Seq<Draw<T>>| #[trigger]
                final(rng).leads_to(f) ==> self.spec_get_ray(i, j, f, old(rng).tape().len() as int)
                    == (r, final(rng).tape().len() as int),
            faithful::<T>() && lt(from_i32_of::<T>(0), from_i32_of::<T>(1)) ==> spec_within(
                r.time,
                from_i32_of::<T>(0),
                from_i32_of::<T>(1),
            ),
            faithful::<T>() && self.spec_pinhole() ==> r.origin == self.center,
    {
        let ghost start = *rng;
        let pixel_center = self.pixel00_location + (self.pixel_delta_u * T::from_i32(i as i32)) + (
        self.pixel_delta_v * T::from_i32(j as i32));
        let pixel_sample = pixel_center + self.pixel_sample_square(rng);
        let ghost jittered = *rng;

        let ray_origin = if self.defocus_angle <= T::from_i32(0) {
            self.center
        } else {
            self.defocus_disk_sample(rng)
        };
        let ghost aimed = *rng;
        let ray_direction = pixel_sample - ray_origin;
        let ray_time = number(rng, T::from_i32(0), T::from_i32(1));
        proof {
            let tape = rng.tape();
            lemma_tape_continues(start.tape(), jittered.tape(), aimed.tape());
            lemma_tape_continues(start.tape(), aimed.tape(), tape);
            assert forall|f: Seq<Draw<T>>| #[trigger] rng.leads_to(f) implies jittered.leads_to(f)
                && aimed.leads_to(f) && (faithful::<T>() ==> share_at(
                f,
                aimed.tape().len() as int,
            ) == ray_time) by {
                lemma_tape_continues(aimed.tape(), tape, f);
                lemma_tape_continues(jittered.tape(), aimed.tape(), f);
                assert(f[aimed.tape().len() as int] == tape[aimed.tape().len() as int]);
            }
        }
        Ray::new(ray_origin, ray_direction, ray_time)
    }

    /// No light at all.
    pub open spec fn spec_black() -> Color<T> {
        Vec3::spec_zero()
    }

    /// The colour of the sky in the direction of `ray`: white at the
    /// horizon, blending into a pale blue straight up.
    pub open spec fn spec_sky(ray: Ray<T>) -> Color<T> {
        let one = from_i32_of::<T>(1);
        let unit_direction = ray.direction.spec_normalized();
        let a = ratio_of::<T>(1, 2).mul_spec(unit_direction.y.add_spec(one));
        let white = Vec3 { x: one, y: one, z: one };
        let blue = Vec3 { x: ratio_of::<T>(1, 2), y: ratio_of::<T>(7, 10), z: one };
        white.spec_scaled(one.sub_spec(a)).spec_plus(blue.spec_scaled(a))
    }

    pub fn sky(ray: &Ray<T>) -> (r: Color<T>)
        requires
            total::<T>(),
        ensures
            faithful::<T>() ==> r == Self::spec_sky(*ray),
    {
        let one = T::from_i32(1);
        let unit_direction = ray.direction().normalized();
        let a = ratio::<T>(1, 2) * (unit_direction.y() + one);
        Vec3::new(one, one, one) * (one - a) + Vec3::new(ratio::<T>(1, 2), ratio::<T>(7, 10), one)
            * a
    }

    /// The range of ray parameters in which a meeting counts: from a
    /// thousandth, to keep a ray from meeting the surface it leaves, to
    /// infinity.
    pub open spec fn spec_reach() -> Interval<T> {
        Interval { min: ratio_of::<T>(1, 1000), max: infinity_of::<T>() }
    }

    /// The light that `ray` brings back, when it may be sent on `depth`
    /// times, and the place on the tape behind the numbers read for it.
    ///
    /// A ray that may not be sent on brings nothing. A ray that meets
    /// nothing brings the sky. A ray that meets a surface brings what the
    /// ray sent on from there brings, dimmed by the surface, or nothing
    /// where the surface absorbs it.
    pub open spec fn spec_ray_color<W: Hittable<T>>(
        ray: Ray<T>,
        depth: nat,
        world: W,
        f: Seq<Draw<T>>,
        at: int,
    ) -> (Color<T>, int)
        decreases depth,
    {
        if depth == 0 {
            (Self::spec_black(), at)
        } else {
            match world.spec_nearest(ray, Self::spec_reach()) {
                Some(rec) => {
                    let outcome = rec.mat.spec_scatter(ray, rec, f, at);
                    if outcome.scatters {
                        let (light, next) = Self::spec_ray_color(
                            outcome.scattered,
                            (depth - 1) as nat,
                            world,
                            f,
                            outcome.next,
                        );
                        (light.spec_product(outcome.attenuation), next)
                    } else {
                        (Self::spec_black(), outcome.next)
                    }
                },
                None => (Self::spec_sky(ray), at),
            }
        }
    }

    /// Follows `ray` through the scene and returns the light it brings back.
    pub fn ray_color<W: Hittable<T>, R: RandomSource<T>>(
        ray: &Ray<T>,
        depth: u16,
        world: &W,
        rng: &mut Stream<T, R>,
    ) -> (r: Color<T>)
        requires
            total::<T>(),
        ensures
            old(rng).leads_to(final(rng).tape()),
            faithful::<T>() ==> forall|f: Seq<Draw<T>>| #[trigger]
                final(rng).leads_to(f) ==> Self::spec_ray_color(
                    *ray,
                    depth as nat,
                    *world,
                    f,
                    old(rng).tape().len() as int,
                ) == (r, final(rng).tape().len() as int),
        decreases depth,
    {
        if depth == 0 {
            return Vec3::zero();
        }
        let mut rec = HitRecord::default();
        if world.hit(ray, Interval::new(ratio(1, 1000), T::infinity()), &mut rec) {
            let mut scattered = *ray;
            let mut attenuation = Vec3::zero();
            let ghost start = *rng;
            if rec.mat.scatter(ray, &rec, &mut attenuation, &mut scattered, rng) {
                let ghost bounced = *rng;
                let light = Self::ray_color(&scattered, depth - 1, world, rng);
                proof {
                    lemma_tape_continues(start.tape(), bounced.tape(), rng.tape());
                    assert forall|f: Seq<Draw<T>>| #[trigger] rng.leads_to(f) implies bounced.leads_to(
                        f,
                    ) by {
                        lemma_tape_continues(bounced.tape(), rng.tape(), f);
                    }
                }
                return light.product(attenuation);
            }
            return Vec3::zero();
        }
        Self::sky(ray)
    }

    /// The sum of the light of the first `samples` samples of the pixel in
    /// column `i` of row `j`, and the place on the tape behind them.
    pub open spec fn spec_pixel_sum<W: Hittable<T>>(
        self,
        world: W,
        i: u16,
        j: u16,
        samples: nat,
        f: Seq<Draw<T>>,
        at: int,
    ) -> (Color<T>, int)
        decreases samples,
    {
        if samples == 0 {
            (Self::spec_black(), at)
        } else {
            let (sum, then) = self.spec_pixel_sum(world, i, j, (samples - 1) as nat, f, at);
            let (ray, aimed) = self.spec_get_ray(i, j, f, then);
            let (light, next) = Self::spec_ray_color(ray, self.max_depth as nat, world, f, aimed);
            (sum.spec_plus(light), next)
        }
    }

    /// `text` with the lines of the first `columns` pixels of row `j` added,
    /// and the place on the tape behind them.
    pub open spec fn spec_row<W: Hittable<T>>(
        self,
        world: W,
        text: Seq<u8>,
        j: u16,
        columns: nat,
        f: Seq<Draw<T>>,
        at: int,
    ) -> (Seq<u8>, int)
        decreases columns,
    {
        if columns == 0 {
            (text, at)
        } else {
            let (before, then) = self.spec_row(world, text, j, (columns - 1) as nat, f, at);
            let (sum, next) = self.spec_pixel_sum(
                world,
                (columns - 1) as u16,
                j,
                self.samples_per_pixel as nat,
                f,
                then,
            );
            (before + spec_pixel_line(sum, self.samples_per_pixel), next)
        }
    }

    /// `text` with the first `rows` rows of the image added, and the place
    /// on the tape behind them.
    pub open spec fn spec_rows<W: Hittable<T>>(
        self,
        world: W,
        text: Seq<u8>,
        rows: nat,
        f: Seq<Draw<T>>,
        at: int,
    ) -> (Seq<u8>, int)
        decreases rows,
    {
        if rows == 0 {
            (text, at)
        } else {
            let (before, then) = self.spec_rows(world, text, (rows - 1) as nat, f, at);
            self.spec_row(world, before, (rows - 1) as u16, self.image_width as nat, f, then)
        }
    }

    /// The image file of the scene `world` as this configuration shows it,
    /// with random numbers read from place `at` of tape `f` on, and the
    /// place behind the last one read: the head, then the pixels row by row
    /// from the top, each row from the left.
    pub open spec fn spec_render<W: Hittable<T>>(self, world: W, f: Seq<Draw<T>>, at: int) -> (
        Seq<u8>,
        int,
    ) {
        let ready = self.spec_initialized();
        ready.spec_rows(
            world,
            spec_header(ready.image_width, ready.image_height),
            ready.image_height as nat,
            f,
            at,
        )
    }

    /// The sum of the light of all samples of one pixel.
    pub fn pixel<W: Hittable<T>, R: RandomSource<T>>(
        &self,
        i: u16,
        j: u16,
        world: &W,
        rng: &mut Stream<T, R>,
    ) -> (sum: Color<T>)
        requires
            total::<T>(),
        ensures
            old(rng).leads_to(final(rng).tape()),
            faithful::<T>() ==> forall|f: Seq<Draw<T>>| #[trigger]
                final(rng).leads_to(f) ==> self.spec_pixel_sum(
                    *world,
                    i,
                    j,
                    self.samples_per_pixel as nat,
                    f,
                    old(rng).tape().len() as int,
                ) == (sum, final(rng).tape().len() as int),
    {
        let mut pixel_color = Vec3::zero();
        let mut sample: u16 = 0;
        while sample < self.samples_per_pixel
            invariant
                total::<T>(),
                sample <= self.samples_per_pixel,
                old(rng).leads_to(rng.tape()),
                faithful::<T>() ==> forall|f: Seq<Draw<T>>| #[trigger]
                    rng.leads_to(f) ==> self.spec_pixel_sum(
                        *world,
                        i,
                        j,
                        sample as nat,
                        f,
                        old(rng).tape().len() as int,
                    ) == (pixel_color, rng.tape().len() as int),
            decreases self.samples_per_pixel - sample,
        {
            let ghost head = *rng;
            let r = self.get_ray(i, j, rng);
            let ghost aimed = *rng;
            let light = Self::ray_color(&r, self.max_depth, world, rng);
            pixel_color = pixel_color + light;
            proof {
                lemma_tape_continues(head.tape(), aimed.tape(), rng.tape());
                lemma_tape_continues(old(rng).tape(), head.tape(), rng.tape());
                assert forall|f: Seq<Draw<T>>| #[trigger] rng.leads_to(f) implies head.leads_to(f)
                    && aimed.leads_to(f) by {
                    lemma_tape_continues(aimed.tape(), rng.tape(), f);
                    lemma_tape_continues(head.tape(), aimed.tape(), f);
                }
            }
            sample = sample + 1;
        }
        pixel_color
    }

    /// Renders the scene `world` to an image file in the plain PPM format,
    /// or says what is wrong with the configuration and does nothing.
    /// `progress` is told of every row as it is finished, from the top.
    pub fn render<W: Hittable<T>, R: RandomSource<T>, P: Progress>(
        &mut self,
        world: &W,
        rng: &mut Stream<T, R>,
        progress: &mut Reporter<P>,
    ) -> (r: Result<Vec<u8>, ConfigError>)
        requires
            total::<T>(),
        ensures
            old(rng).leads_to(final(rng).tape()),
            match old(self).spec_check() {
                Some(error) => {
                    &&& r == Err::<Vec<u8>, ConfigError>(error)
                    &&& *final(self) == *old(self)
                    &&& final(rng).tape() == old(rng).tape()
                    &&& final(progress).told() == old(progress).told()
                },
                None => {
                    &&& r.is_ok()
                    &&& final(progress).told() == old(progress).told() + spec_rows_from_top(
                        final(self).image_height,
                    )
                    &&& faithful::<T>() ==> *final(self) == old(self).spec_initialized()
                    &&& faithful::<T>() ==> forall|f: Seq<Draw<T>>| #[trigger]
                        final(rng).leads_to(f) ==> old(self).spec_render(
                            *world,
                            f,
                            old(rng).tape().len() as int,
                        ) == (r.unwrap()@, final(rng).tape().len() as int)
                },
            },
    {
        match self.initialize() {
            Err(error) => {
                return Err(error);
            },
            Ok(()) => {},
        }
        let mut out: Vec<u8> = Vec::new();
        write_header(&mut out, self.image_width, self.image_height);
        proof {
            assert(out@ =~= spec_header(self.image_width, self.image_height));
        }
        proof {
            assert(progress.told() =~= old(progress).told() + spec_rows_from_top(0));
        }
        let mut j: u16 = 0;
        while j < self.image_height
            invariant
                total::<T>(),
                j <= self.image_height,
                progress.told() == old(progress).told() + spec_rows_from_top(j),
                old(rng).leads_to(rng.tape()),
                faithful::<T>() ==> forall|f: Seq<Draw<T>>| #[trigger]
                    rng.leads_to(f) ==> self.spec_rows(
                        *world,
                        spec_header(self.image_width, self.image_height),
                        j as nat,
                        f,
                        old(rng).tape().len() as int,
                    ) == (out@, rng.tape().len() as int),
            decreases self.image_height - j,
        {
            let ghost row_start = *rng;
            let ghost text = out@;
            let mut i: u16 = 0;
            while i < self.image_width
                invariant
                    total::<T>(),
                    i <= self.image_width,
                    row_start.leads_to(rng.tape()),
                    faithful::<T>() ==> forall|f: Seq<Draw<T>>| #[trigger]
                        rng.leads_to(f) ==> self.spec_row(
                            *world,
                            text,
                            j,
                            i as nat,
                            f,
                            row_start.tape().len() as int,
                        ) == (out@, rng.tape().len() as int),
                decreases self.image_width - i,
            {
                let ghost head = *rng;
                let pixel_color = self.pixel(i, j, world, rng);
                write_color(&mut out, pixel_color, self.samples_per_pixel);
                proof {
                    lemma_tape_continues(row_start.tape(), head.tape(), rng.tape());
                    assert forall|f: Seq<Draw<T>>| #[trigger] rng.leads_to(f) implies head.leads_to(
                        f,
                    ) by {
                        lemma_tape_continues(head.tape(), rng.tape(), f);
                    }
                }
                i = i + 1;
            }
            progress.row_done(j, self.image_height);
            proof {
                assert(spec_rows_from_top(j).push(j) =~= spec_rows_from_top((j + 1) as u16));
                assert(progress.told() =~= old(progress).told() + spec_rows_from_top(
                    (j + 1) as u16,
                ));
                lemma_tape_continues(old(rng).tape(), row_start.tape(), rng.tape());
                assert forall|f: Seq<Draw<T>>| #[trigger] rng.leads_to(f) implies row_start.leads_to(
                    f,
                ) by {
                    lemma_tape_continues(row_start.tape(), rng.tape(), f);
                }
            }
            j = j + 1;
        }
        Ok(out)
    }

    /// A ray that may be sent on and meets nothing brings the sky of its
    /// direction, and reads no random number.
    pub proof fn lemma_miss_brings_sky<W: Hittable<T>>(
        ray: Ray<T>,
        depth: nat,
        world: W,
        f: Seq<Draw<T>>,
        at: int,
    )
        requires
            depth > 0,
            world.spec_nearest(ray, Self::spec_reach()) is None,
        ensures
            Self::spec_ray_color(ray, depth, world, f, at) == (Self::spec_sky(ray), at),
    {
    }

    /// A ray that may not be sent on brings no light, whatever it meets.
    pub proof fn lemma_spent_brings_nothing<W: Hittable<T>>(
        ray: Ray<T>,
        world: W,
        f: Seq<Draw<T>>,
        at: int,
    )
        ensures
            Self::spec_ray_color(ray, 0, world, f, at) == (Self::spec_black(), at),
    {
    }

    /// A row adds one line for every pixel.
    pub proof fn lemma_row_lines<W: Hittable<T>>(
        self,
        world: W,
        text: Seq<u8>,
        j: u16,
        columns: nat,
        f: Seq<Draw<T>>,
        at: int,
    )
        ensures
            spec_lines(self.spec_row(world, text, j, columns, f, at).0) == spec_lines(text)
                + columns,
        decreases columns,
    {
        if columns > 0 {
            let (before, then) = self.spec_row(world, text, j, (columns - 1) as nat, f, at);
            self.lemma_row_lines(world, text, j, (columns - 1) as nat, f, at);
            let (sum, next) = self.spec_pixel_sum(
                world,
                (columns - 1) as u16,
                j,
                self.samples_per_pixel as nat,
                f,
                then,
            );
            lemma_pixel_line_is_one_line(sum, self.samples_per_pixel);
            lemma_lines_add(before, spec_pixel_line(sum, self.samples_per_pixel));
        }
    }

    /// The rows add one line for every pixel of every row.
    pub proof fn lemma_rows_lines<W: Hittable<T>>(
        self,
        world: W,
        text: Seq<u8>,
        rows: nat,
        f: Seq<Draw<T>>,
        at: int,
    )
        ensures
            spec_lines(self.spec_rows(world, text, rows, f, at).0) == spec_lines(text) + rows
                * self.image_width,
        decreases rows,
    {
        if rows > 0 {
            let (before, then) = self.spec_rows(world, text, (rows - 1) as nat, f, at);
            self.lemma_rows_lines(world, text, (rows - 1) as nat, f, at);
            self.lemma_row_lines(
                world,
                before,
                (rows - 1) as u16,
                self.image_width as nat,
                f,
                then,
            );
            assert((rows - 1) * self.image_width + self.image_width == rows * self.image_width)
                by (nonlinear_arith);
        } else {
            assert(0 * self.image_width == 0) by (nonlinear_arith);
        }
    }

    /// An image file holds three lines of head and one line for every
    /// pixel: as many as the image is wide, times as many as it is high.
    pub proof fn lemma_render_lines<W: Hittable<T>>(self, world: W, f: Seq<Draw<T>>, at: int)
        ensures
            spec_lines(self.spec_render(world, f, at).0) == 3 + self.spec_initialized().image_height
                * self.image_width,
    {
        let ready = self.spec_initialized();
        lemma_header_is_three_lines(ready.image_width, ready.image_height);
        ready.lemma_rows_lines(
            world,
            spec_header(ready.image_width, ready.image_height),
            ready.image_height as nat,
            f,
            at,
        );
    }

    /// Rendering repeats: of two renderings of one scene with one
    /// configuration, where the random numbers of the first are the start
    /// of those of the second, both read the same numbers and give the
    /// same image file.
    ///
    /// A rendering is given here by what `render` ensures: the place `at`
    /// where the tape stood before, the tape `drawn` after, and the file.
    pub proof fn lemma_render_repeats<W: Hittable<T>>(
        self,
        world: W,
        at: int,
        drawn_first: Seq<Draw<T>>,
        file_first: Seq<u8>,
        drawn_second: Seq<Draw<T>>,
        file_second: Seq<u8>,
    )
        requires
            forall|f: Seq<Draw<T>>| #[trigger]
                drawn_first.is_prefix_of(f) ==> self.spec_render(world, f, at) == (
                    file_first,
                    drawn_first.len() as int,
                ),
            forall|f: Seq<Draw<T>>| #[trigger]
                drawn_second.is_prefix_of(f) ==> self.spec_render(world, f, at) == (
                    file_second,
                    drawn_second.len() as int,
                ),
            drawn_first.is_prefix_of(drawn_second),
        ensures
            file_first == file_second,
            drawn_first == drawn_second,
    {
        assert(drawn_second.is_prefix_of(drawn_second));
        assert(drawn_first =~= drawn_second);
    }
}

} // verus!
