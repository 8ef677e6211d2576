use rand::Rng;
use rand::SeedableRng;
use raytracer::aabb::Aabb;
use raytracer::camera::Camera;
use raytracer::camera::ConfigError;
use raytracer::camera::Progress;
use raytracer::camera::Reporter;
use raytracer::camera::Silent;
use raytracer::color::channel;
use raytracer::color::push_decimal;
use raytracer::color::write_color;
use raytracer::color::write_header;
use raytracer::hittable::BvhNode;
use raytracer::hittable::HitRecord;
use raytracer::hittable::Hittable;
use raytracer::hittable::HittableList;
use raytracer::hittable::HittableObject;
use raytracer::interval::Interval;
use raytracer::material::dielectric::Dielectric;
use raytracer::material::Material;
use raytracer::material::Scatter;
use raytracer::random::RandomSource;
use raytracer::random::Stream;
use raytracer::ray::Ray;
use raytracer::scalar::Scalar;
use raytracer::texture::Texture;
use raytracer::utility::reflect;
use raytracer::utility::refract;
use raytracer::vec3::Sqrt;
use raytracer::vec3::Vec3;

#[derive(Debug, Clone, Copy, PartialEq, PartialOrd)]
struct F(f32);

impl std::ops::Add for F {
    type Output = F;
    fn add(self, rhs: F) -> F {
        F(self.0 + rhs.0)
    }
}

impl std::ops::Sub for F {
    type Output = F;
    fn sub(self, rhs: F) -> F {
        F(self.0 - rhs.0)
    }
}

impl std::ops::Mul for F {
    type Output = F;
    fn mul(self, rhs: F) -> F {
        F(self.0 * rhs.0)
    }
}

impl std::ops::Div for F {
    type Output = F;
    fn div(self, rhs: F) -> F {
        F(self.0 / rhs.0)
    }
}

impl std::ops::Neg for F {
    type Output = F;
    fn neg(self) -> F {
        F(-self.0)
    }
}

impl Sqrt<F> for F {
    fn sqrt(&self) -> F {
        F(self.0.sqrt())
    }
}

impl Scalar for F {
    fn from_i32(n: i32) -> F {
        F(n as f32)
    }
    fn infinity() -> F {
        F(f32::INFINITY)
    }
    fn neg_infinity() -> F {
        F(f32::NEG_INFINITY)
    }
    fn pi() -> F {
        F(std::f32::consts::PI)
    }
    fn abs(self) -> F {
        F(self.0.abs())
    }
    fn floor(self) -> F {
        F(self.0.floor())
    }
    fn to_i32(self) -> i32 {
        self.0 as i32
    }
    fn tan(self) -> F {
        F(self.0.tan())
    }
    fn acos(self) -> F {
        F(self.0.acos())
    }
    fn atan2(self, other: F) -> F {
        F(self.0.atan2(other.0))
    }
    fn powi(self, n: i32) -> F {
        F(self.0.powi(n))
    }
    fn mul_add(self, a: F, b: F) -> F {
        F(self.0.mul_add(a.0, b.0))
    }
}

struct Seeded(rand::rngs::StdRng);

impl RandomSource<F> for Seeded {
    fn number(&mut self, min: F, max: F) -> F {
        F(self.0.gen_range(min.0..max.0))
    }
}

/// A source that hands out the numbers it was given, round and round. Each
/// must lie in the range that is asked when its turn comes.
struct Replay {
    numbers: Vec<f32>,
    next: usize,
}

impl RandomSource<F> for Replay {
    fn number(&mut self, min: F, max: F) -> F {
        let x = self.numbers[self.next % self.numbers.len()];
        self.next += 1;
        assert!(min.0 <= x && x < max.0);
        F(x)
    }
}

struct Rows(Vec<(u16, u16)>);

impl Progress for Rows {
    fn row_done(&mut self, row: u16, rows: u16) {
        self.0.push((row, rows));
    }
}

fn seeded(seed: u64) -> Stream<F, Seeded> {
    Stream::new(
        Seeded(rand::rngs::StdRng::seed_from_u64(seed)),
        rand::rngs::StdRng::seed_from_u64(seed ^ 0x5eed),
    )
}

fn replay(numbers: &[f32]) -> Stream<F, Replay> {
    Stream::new(
        Replay { numbers: numbers.to_vec(), next: 0 },
        rand::rngs::StdRng::seed_from_u64(numbers.len() as u64),
    )
}

fn v(x: f32, y: f32, z: f32) -> Vec3<F> {
    Vec3::new(F(x), F(y), F(z))
}

fn g(a: Vec3<F>) -> glam::Vec3 {
    glam::Vec3::new(a.x.0, a.y.0, a.z.0)
}

fn same(a: Vec3<F>, b: glam::Vec3) -> bool {
    a.x.0 == b.x && a.y.0 == b.y && a.z.0 == b.z
}

fn grey() -> Material<F> {
    Material::lambertian(v(0.5, 0.5, 0.5))
}

fn ray(origin: Vec3<F>, direction: Vec3<F>) -> Ray<F> {
    Ray::new(origin, direction, F(0.0))
}

#[test]
fn interval_contains_what_lies_between() {
    let i = Interval::new(F(-1.5), F(2.0));
    for x in [-1.5f32, -1.0, 0.0, 1.999, 2.0] {
        assert!(i.contains(F(x)));
    }
    assert!(!i.contains(F(-1.5001)));
    assert!(!i.contains(F(2.0001)));
    assert!(!i.contains(F(f32::NAN)));
}

#[test]
fn interval_surround_leaves_out_the_ends() {
    let i = Interval::new(F(-1.5), F(2.0));
    assert!(i.surround(F(0.0)));
    assert!(!i.surround(F(-1.5)));
    assert!(!i.surround(F(2.0)));
}

#[test]
fn interval_clamp_stays_within() {
    let i = Interval::new(F(0.0), F(0.999));
    assert_eq!(i.clamp(F(-3.0)), F(0.0));
    assert_eq!(i.clamp(F(0.25)), F(0.25));
    assert_eq!(i.clamp(F(7.0)), F(0.999));
    assert_eq!(i.clamp(F(f32::INFINITY)), F(0.999));
    assert_eq!(i.clamp(F(f32::NEG_INFINITY)), F(0.0));
    assert!(i.clamp(F(f32::NAN)).0.is_nan());
}

#[test]
fn interval_merge_with_empty_gives_the_other() {
    let i = Interval::new(F(-4.0), F(9.5));
    let left = Interval::new_with_interval(Interval::empty(), i);
    let right = Interval::new_with_interval(i, Interval::empty());
    assert_eq!((left.min(), left.max()), (F(-4.0), F(9.5)));
    assert_eq!((right.min(), right.max()), (F(-4.0), F(9.5)));
    let nothing = Interval::<F>::new_with_interval(Interval::empty(), Interval::empty());
    assert_eq!((nothing.min, nothing.max), (F(f32::INFINITY), F(f32::NEG_INFINITY)));
    let broken = Interval::new_with_interval(Interval::empty(), Interval::new(F(f32::NAN), F(1.0)));
    assert_eq!((broken.min, broken.max), (F(f32::INFINITY), F(1.0)));
    let all = Interval::<F>::new_with_interval(Interval::empty(), Interval::universe());
    assert_eq!((all.min, all.max), (F(f32::NEG_INFINITY), F(f32::INFINITY)));
}

#[test]
fn interval_merge_is_the_tightest_range_around_both() {
    let a = Interval::new(F(1.0), F(3.0));
    let b = Interval::new(F(-2.0), F(2.0));
    let m = Interval::new_with_interval(a, b);
    assert_eq!((m.min, m.max), (F(-2.0), F(3.0)));
}

#[test]
fn interval_default_is_empty() {
    let d = Interval::<F>::default();
    assert_eq!((d.min, d.max), (F(f32::INFINITY), F(f32::NEG_INFINITY)));
    assert!(!d.contains(F(0.0)));
}

#[test]
fn interval_expand_pads_both_ends_by_half() {
    let e = Interval::new(F(1.0), F(2.0)).expand(F(0.5));
    assert_eq!((e.min, e.max), (F(0.75), F(2.25)));
}

#[test]
fn interval_setters_change_one_end() {
    let mut i = Interval::new(F(1.0), F(2.0));
    i.set_min(F(-1.0));
    assert_eq!((i.min(), i.max()), (F(-1.0), F(2.0)));
    i.set_max(F(5.0));
    assert_eq!((i.min(), i.max()), (F(-1.0), F(5.0)));
}

#[test]
fn min_and_max_pass_over_what_is_no_number() {
    assert_eq!(raytracer::scalar::min(F(f32::NAN), F(2.0)), F(2.0));
    assert_eq!(raytracer::scalar::min(F(2.0), F(f32::NAN)), F(2.0));
    assert_eq!(raytracer::scalar::max(F(f32::NAN), F(2.0)), F(2.0));
    assert_eq!(raytracer::scalar::max(F(2.0), F(f32::NAN)), F(2.0));
    assert_eq!(raytracer::scalar::min(F(1.0), F(2.0)), F(1.0));
    assert_eq!(raytracer::scalar::max(F(1.0), F(2.0)), F(2.0));
    for (a, b) in [(1.5f32, -2.0f32), (0.0, 7.0), (f32::INFINITY, 3.0), (3.0, f32::NAN)] {
        assert_eq!(raytracer::scalar::min(F(a), F(b)).0, a.min(b));
        assert_eq!(raytracer::scalar::max(F(a), F(b)).0, a.max(b));
    }
}

#[test]
fn ratio_is_the_rounded_quotient() {
    assert_eq!(raytracer::scalar::ratio::<F>(1, 1000), F(0.001));
    assert_eq!(raytracer::scalar::ratio::<F>(999, 1000), F(0.999));
    assert_eq!(raytracer::scalar::ratio::<F>(1, 100_000_000), F(1e-8));
    assert_eq!(raytracer::scalar::ratio::<F>(7, 10), F(0.7));
    assert_eq!(raytracer::scalar::ratio::<F>(3, 2), F(1.5));
    assert_eq!(raytracer::scalar::ratio::<F>(-1, 2), F(-0.5));
}

#[test]
fn vectors_agree_with_glam() {
    let a = v(1.1, -2.2, 3.3);
    let b = v(5.1, 1.2, -0.7);
    assert!(same(a + b, g(a) + g(b)));
    assert!(same(a - b, g(a) - g(b)));
    assert!(same(a * F(1.7), g(a) * 1.7));
    assert!(same(a / F(1.7), g(a) / 1.7));
    assert!(same(a.product(b), g(a) * g(b)));
    assert!(same(a.cross(b), g(a).cross(g(b))));
    assert!(same(a.negated(), -g(a)));
    assert!(same(a.normalized(), g(a).normalize()));
    assert_eq!(a.dot(b).0, g(a).dot(g(b)));
    assert_eq!(a.length_squared().0, g(a).length_squared());
    assert_eq!(a.length().0, g(a).length());
    let zero = Vec3::<F>::zero();
    for c in [v(0.0, 0.0, 0.0), v(1e-9, -1e-9, 0.0), v(1e-7, 0.0, 0.0), v(0.0, 0.0, -2e-8)] {
        assert_eq!(c.abs_diff_eq(zero, F(1e-8)), g(c).abs_diff_eq(glam::Vec3::ZERO, 1e-8));
    }
    assert_eq!(a.axis(0), F(1.1));
    assert_eq!(a.axis(1), F(-2.2));
    assert_eq!(a.axis(2), F(3.3));
}

#[test]
fn unit_vector_divides_by_the_length() {
    let a = v(3.0, 0.0, 4.0);
    let u = a.unit_vector();
    assert_eq!((u.x, u.y, u.z), (F(3.0 / 5.0), F(0.0), F(4.0 / 5.0)));
    let mut b = a;
    b.normalize();
    assert_eq!(b, u);
}

#[test]
fn ray_at_walks_along_the_direction() {
    let r = Ray::new(v(1.0, 2.0, 3.0), v(0.5, -1.0, 2.0), F(0.25));
    assert_eq!(r.at(F(2.0)), v(2.0, 0.0, 7.0));
    assert_eq!(r.at(F(0.0)), v(1.0, 2.0, 3.0));
    assert_eq!(r.origin(), v(1.0, 2.0, 3.0));
    assert_eq!(r.direction(), v(0.5, -1.0, 2.0));
    assert_eq!(r.time(), F(0.25));
}

fn unit_box() -> Aabb<F> {
    Aabb::new(v(-1.0, -1.0, -1.0), v(1.0, 1.0, 1.0))
}

#[test]
fn aabb_new_orders_the_corners() {
    let b = Aabb::new(v(1.0, -2.0, 3.0), v(-1.0, 2.0, -3.0));
    assert_eq!((b.x.min, b.x.max), (F(-1.0), F(1.0)));
    assert_eq!((b.y.min, b.y.max), (F(-2.0), F(2.0)));
    assert_eq!((b.z.min, b.z.max), (F(-3.0), F(3.0)));
    assert_eq!(b.axis(0).min, F(-1.0));
    assert_eq!(b.axis(1).min, F(-2.0));
    assert_eq!(b.axis(2).min, F(-3.0));
    assert_eq!(b.axis(7).min, F(-1.0));
}

#[test]
fn aabb_is_hit_from_inside() {
    let b = unit_box();
    let wide = Interval::new(F(0.0), F(f32::INFINITY));
    for d in [v(1.0, 2.0, 3.0), v(-1.0, 0.5, 0.25), v(0.3, -0.2, -0.9), v(1.0, 1.0, 1.0)] {
        for o in [v(0.0, 0.0, 0.0), v(0.5, -0.5, 0.9), v(-0.99, 0.99, 0.0)] {
            assert!(b.hit(&ray(o, d), wide));
        }
    }
}

#[test]
fn aabb_is_hit_along_an_axis() {
    let b = unit_box();
    let wide = Interval::new(F(0.0), F(f32::INFINITY));
    assert!(b.hit(&ray(v(0.0, 0.0, 5.0), v(0.0, 0.0, -1.0)), wide));
    assert!(!b.hit(&ray(v(0.0, 0.0, 5.0), v(0.0, 0.0, 1.0)), wide));
    assert!(!b.hit(&ray(v(2.0, 0.0, 5.0), v(0.0, 0.0, -1.0)), wide));
}

#[test]
fn aabb_is_missed_outside_the_range() {
    let b = unit_box();
    let r = ray(v(0.0, 0.0, 5.0), v(0.0, 0.0, -1.0));
    assert!(b.hit(&r, Interval::new(F(0.0), F(4.5))));
    assert!(!b.hit(&r, Interval::new(F(0.0), F(4.0))));
    assert!(!b.hit(&r, Interval::new(F(6.0), F(9.0))));
    assert!(!b.hit(&r, Interval::new(F(5.0), F(5.0))));
}

#[test]
fn aabb_merge_holds_the_corners_of_both() {
    let a = Aabb::new(v(-1.0, 0.0, 2.0), v(1.0, 1.0, 3.0));
    let b = Aabb::new(v(0.0, -5.0, 2.5), v(4.0, 0.5, 2.75));
    let m = Aabb::new_with_boxes(&a, &b);
    for c in [&a, &b] {
        for x in [c.x.min, c.x.max] {
            for y in [c.y.min, c.y.max] {
                for z in [c.z.min, c.z.max] {
                    assert!(m.x.contains(x) && m.y.contains(y) && m.z.contains(z));
                }
            }
        }
    }
    assert_eq!((m.x.min, m.x.max), (F(-1.0), F(4.0)));
    assert_eq!((m.y.min, m.y.max), (F(-5.0), F(1.0)));
    assert_eq!((m.z.min, m.z.max), (F(2.0), F(3.0)));
}

#[test]
fn sphere_is_hit_at_the_distance_to_its_surface() {
    let s = HittableObject::sphere(v(0.0, 0.0, -5.0), F(2.0), grey());
    let mut rec = HitRecord::default();
    let r = ray(v(0.0, 0.0, 0.0), v(0.0, 0.0, -1.0));
    assert!(s.hit(&r, Interval::new(F(0.001), F(f32::INFINITY)), &mut rec));
    assert_eq!(rec.t, F(3.0));
    assert_eq!(rec.p, v(0.0, 0.0, -3.0));
    assert_eq!(rec.normal, v(0.0, 0.0, 1.0));
    assert!(rec.front_face);

    let r = ray(v(9.0, 0.0, -5.0), v(-2.0, 0.0, 0.0));
    assert!(s.hit(&r, Interval::new(F(0.001), F(f32::INFINITY)), &mut rec));
    assert_eq!(rec.t, F(3.5));
    assert_eq!(rec.normal, v(1.0, 0.0, 0.0));
}

#[test]
fn sphere_is_missed_where_the_discriminant_is_negative() {
    let s = HittableObject::sphere(v(0.0, 0.0, -5.0), F(2.0), grey());
    let mut rec = HitRecord::default();
    rec.t = F(42.0);
    let r = ray(v(0.0, 3.0, 0.0), v(0.0, 0.0, -1.0));
    assert!(!s.hit(&r, Interval::new(F(0.001), F(f32::INFINITY)), &mut rec));
    assert_eq!(rec.t, F(42.0));
}

#[test]
fn sphere_is_hit_from_inside_at_the_far_root() {
    let s = HittableObject::sphere(v(0.0, 0.0, 0.0), F(2.0), grey());
    let mut rec = HitRecord::default();
    let r = ray(v(0.0, 0.0, 0.0), v(0.0, 1.0, 0.0));
    assert!(s.hit(&r, Interval::new(F(0.001), F(f32::INFINITY)), &mut rec));
    assert_eq!(rec.t, F(2.0));
    assert!(!rec.front_face);
    assert_eq!(rec.normal, v(0.0, -1.0, 0.0));
}

#[test]
fn sphere_accepts_the_end_of_the_range_and_not_its_start() {
    let s = HittableObject::sphere(v(0.0, 0.0, -5.0), F(2.0), grey());
    let mut rec = HitRecord::default();
    let r = ray(v(0.0, 0.0, 0.0), v(0.0, 0.0, -1.0));
    assert!(s.hit(&r, Interval::new(F(0.0), F(3.0)), &mut rec));
    assert_eq!(rec.t, F(3.0));
    assert!(s.hit(&r, Interval::new(F(3.0), F(10.0)), &mut rec));
    assert_eq!(rec.t, F(7.0));
    assert!(!s.hit(&r, Interval::new(F(3.0), F(6.5)), &mut rec));
    assert!(!s.hit(&r, Interval::new(F(0.0), F(2.5)), &mut rec));
}

#[test]
fn sphere_normal_is_a_unit_against_the_ray() {
    let s = HittableObject::sphere(v(0.5, -0.25, -4.0), F(1.5), grey());
    let mut source = seeded(11);
    let mut hits = 0;
    for _ in 0..200 {
        let aim = raytracer::random::vec3(&mut source, F(-1.2), F(1.2));
        let o = raytracer::random::vec3(&mut source, F(-9.0), F(9.0));
        let r = ray(o, v(0.5, -0.25, -4.0) + aim - o);
        let mut rec = HitRecord::default();
        if s.hit(&r, Interval::new(F(0.001), F(f32::INFINITY)), &mut rec) {
            hits += 1;
            assert!((rec.normal.length().0 - 1.0).abs() < 1e-5);
            assert!(r.direction().dot(rec.normal).0 <= 0.0);
        }
    }
    assert!(hits > 10);
}

#[test]
fn sphere_surface_coordinates() {
    let (mut u, mut w) = (F(0.0), F(0.0));
    raytracer::hittable::hittable_object::sphere::Sphere::get_sphere_uv(
        &v(1.0, 0.0, 0.0),
        &mut u,
        &mut w,
    );
    assert_eq!((u, w), (F(0.5), F(0.5)));
    raytracer::hittable::hittable_object::sphere::Sphere::get_sphere_uv(
        &v(0.0, 1.0, 0.0),
        &mut u,
        &mut w,
    );
    assert_eq!((u, w), (F(0.5), F(1.0)));
    raytracer::hittable::hittable_object::sphere::Sphere::get_sphere_uv(
        &v(0.0, -1.0, 0.0),
        &mut u,
        &mut w,
    );
    assert_eq!(w, F(0.0));
    raytracer::hittable::hittable_object::sphere::Sphere::get_sphere_uv(
        &v(0.0, 0.0, 1.0),
        &mut u,
        &mut w,
    );
    assert!((u.0 - 0.25).abs() < 1e-6);
}

#[test]
fn moving_sphere_is_where_its_time_puts_it() {
    let s = HittableObject::moving_sphere(v(0.0, 0.0, -5.0), v(0.0, 2.0, -5.0), F(1.0), grey());
    let reach = Interval::new(F(0.001), F(f32::INFINITY));
    let mut rec = HitRecord::default();
    let at_rest = Ray::new(v(0.0, 0.0, 0.0), v(0.0, 0.0, -1.0), F(0.0));
    assert!(s.hit(&at_rest, reach, &mut rec));
    assert_eq!(rec.t, F(4.0));
    let later = Ray::new(v(0.0, 0.0, 0.0), v(0.0, 0.0, -1.0), F(1.0));
    assert!(!s.hit(&later, reach, &mut rec));
    let aimed = Ray::new(v(0.0, 2.0, 0.0), v(0.0, 0.0, -1.0), F(1.0));
    assert!(s.hit(&aimed, reach, &mut rec));
    assert_eq!(rec.t, F(4.0));
    let b = s.bounding_box();
    assert_eq!((b.y.min, b.y.max), (F(-1.0), F(3.0)));
    assert_eq!((b.x.min, b.x.max), (F(-1.0), F(1.0)));
}

fn scattered_spheres(n: usize) -> Vec<HittableObject<F>> {
    let mut objects = Vec::new();
    let side = 6;
    for k in 0..n {
        let x = (k % side) as f32 * 3.0 - 7.0;
        let y = ((k / side) % side) as f32 * 3.0 - 7.0;
        let z = (k / (side * side)) as f32 * 3.0 - 20.0;
        objects.push(HittableObject::sphere(v(x, y, z), F(1.0), grey()));
    }
    objects
}

#[test]
fn bvh_finds_what_the_list_finds() {
    for n in [1usize, 2, 3, 4, 5, 8, 17, 40, 100] {
        let mut list = HittableList::default();
        for o in scattered_spheres(n) {
            list.add(o);
        }
        let mut objects = scattered_spheres(n);
        let mut source = seeded(n as u64);
        let tree = HittableObject::BvhNode(BvhNode::new_from_vector(&mut objects, &mut source));
        let reach = Interval::new(F(0.001), F(f32::INFINITY));
        let mut found = 0;
        for _ in 0..400 {
            let target = raytracer::random::vec3(&mut source, F(-8.0), F(8.0));
            let origin = v(0.0, 0.0, 10.0);
            let r = ray(origin, target - v(0.0, 0.0, 18.0) - origin);
            let mut a = HitRecord::default();
            let mut b = HitRecord::default();
            let in_list = list.hit(&r, reach, &mut a);
            let in_tree = tree.hit(&r, reach, &mut b);
            assert_eq!(in_list, in_tree);
            if in_list {
                found += 1;
                assert_eq!(a.t, b.t);
                assert_eq!(a.p, b.p);
                assert_eq!(a.normal, b.normal);
            }
        }
        assert!(found > 0);
    }
}

fn centre_x(o: &HittableObject<F>) -> f32 {
    (o.bounding_box().x.min.0 + o.bounding_box().x.max.0) / 2.0
}

#[test]
fn bvh_of_one_object_has_it_on_both_sides() {
    let mut objects = vec![HittableObject::sphere(v(3.0, 0.0, 0.0), F(1.0), grey())];
    let node = BvhNode::new_from_vector(&mut objects, &mut replay(&[0.0]));
    assert_eq!(centre_x(&node.left), 3.0);
    assert_eq!(centre_x(&node.right), 3.0);
    assert_eq!((node.bbox.x.min, node.bbox.x.max), (F(2.0), F(4.0)));
}

#[test]
fn bvh_of_two_objects_has_the_lower_one_left() {
    for seed in 0..12 {
        let mut objects = vec![
            HittableObject::sphere(v(3.0, 3.0, 3.0), F(1.0), grey()),
            HittableObject::sphere(v(-3.0, -3.0, -3.0), F(1.0), grey()),
        ];
        let node = BvhNode::new_from_vector(&mut objects, &mut seeded(seed));
        assert_eq!(centre_x(&node.left), -3.0);
        assert_eq!(centre_x(&node.right), 3.0);
        assert_eq!((node.bbox.x.min, node.bbox.x.max), (F(-4.0), F(4.0)));
        assert_eq!(centre_x(&objects[0]), 3.0);
    }
    let mut level = vec![
        HittableObject::sphere(v(1.0, 5.0, 5.0), F(1.0), grey()),
        HittableObject::sphere(v(2.0, 5.0, 5.0), F(1.0), grey()),
    ];
    let mut by_x = 0;
    let mut by_another = 0;
    for seed in 0..40 {
        let node = BvhNode::new_from_vector(&mut level, &mut seeded(seed));
        if centre_x(&node.left) == 1.0 {
            assert_eq!(centre_x(&node.right), 2.0);
            by_x += 1;
        } else {
            assert_eq!(centre_x(&node.left), 2.0);
            assert_eq!(centre_x(&node.right), 1.0);
            by_another += 1;
        }
    }
    assert!(by_x > 0 && by_another > 0);
}

#[test]
fn bvh_sorts_and_halves_more_objects() {
    let mut objects = Vec::new();
    for x in [5.0f32, 1.0, 4.0, 2.0, 3.0] {
        objects.push(HittableObject::sphere(v(x * 3.0, x * 3.0, x * 3.0), F(1.0), grey()));
    }
    let node = BvhNode::new_from_vector(&mut objects, &mut seeded(4));
    let order: Vec<f32> = objects.iter().map(centre_x).collect();
    assert_eq!(order, vec![3.0, 6.0, 9.0, 12.0, 15.0]);
    assert_eq!((node.left.bounding_box().x.min, node.left.bounding_box().x.max), (F(2.0), F(7.0)));
    assert_eq!(
        (node.right.bounding_box().x.min, node.right.bounding_box().x.max),
        (F(8.0), F(16.0))
    );
    assert_eq!((node.bbox.x.min, node.bbox.x.max), (F(2.0), F(16.0)));
}

#[test]
fn sort_range_leaves_the_rest_alone() {
    let mut objects = Vec::new();
    for x in [9.0f32, 5.0, 1.0, 4.0, 0.0] {
        objects.push(HittableObject::sphere(v(x, 0.0, 0.0), F(0.5), grey()));
    }
    BvhNode::sort_range(&mut objects, 1, 4, 0);
    let order: Vec<f32> = objects.iter().map(centre_x).collect();
    assert_eq!(order, vec![9.0, 1.0, 4.0, 5.0, 0.0]);
}

#[test]
fn list_reports_the_nearest_object() {
    let mut list = HittableList::new(HittableObject::sphere(v(0.0, 0.0, -9.0), F(1.0), grey()));
    list.add(HittableObject::sphere(v(0.0, 0.0, -3.0), F(1.0), grey()));
    list.add(HittableObject::sphere(v(0.0, 0.0, -6.0), F(1.0), grey()));
    let mut rec = HitRecord::default();
    let r = ray(v(0.0, 0.0, 0.0), v(0.0, 0.0, -1.0));
    assert!(list.hit(&r, Interval::new(F(0.001), F(f32::INFINITY)), &mut rec));
    assert_eq!(rec.t, F(2.0));
    assert!(list.hit(&r, Interval::new(F(4.5), F(f32::INFINITY)), &mut rec));
    assert_eq!(rec.t, F(5.0));
    assert!(!list.hit(&r, Interval::new(F(10.5), F(f32::INFINITY)), &mut rec));
    assert_eq!(rec.t, F(5.0));
    assert!(!HittableList::<F>::default().hit(&r, Interval::universe(), &mut rec));
}

#[test]
fn list_of_one_object_has_its_box() {
    let list = HittableList::new(HittableObject::sphere(v(1.0, 2.0, -9.0), F(1.0), grey()));
    let b = Hittable::bounding_box(&list);
    assert_eq!((b.x.min, b.x.max), (F(0.0), F(2.0)));
    assert_eq!((b.y.min, b.y.max), (F(1.0), F(3.0)));
    assert_eq!((b.z.min, b.z.max), (F(-10.0), F(-8.0)));
    let mut list = list;
    list.add(HittableObject::sphere(v(5.0, 2.0, -9.0), F(1.0), grey()));
    let b = Hittable::bounding_box(&list);
    assert_eq!((b.x.min, b.x.max), (F(0.0), F(6.0)));
    for o in &list.objects {
        let inner = o.bounding_box();
        assert!(b.x.min <= inner.x.min && inner.x.max <= b.x.max);
        assert!(b.y.min <= inner.y.min && inner.y.max <= b.y.max);
        assert!(b.z.min <= inner.z.min && inner.z.max <= b.z.max);
    }
}

#[test]
fn list_box_grows_with_what_is_added() {
    let mut list = HittableList::default();
    list.add(HittableObject::sphere(v(0.0, 0.0, -3.0), F(1.0), grey()));
    list.add(HittableObject::sphere(v(4.0, 0.0, -6.0), F(2.0), grey()));
    let b = Hittable::bounding_box(&list);
    assert_eq!((b.x.min, b.x.max), (F(-1.0), F(6.0)));
    assert_eq!((b.z.min, b.z.max), (F(-8.0), F(-2.0)));
    assert_eq!(list.objects.len(), 2);
}

fn hit_at(p: Vec3<F>, normal: Vec3<F>, front_face: bool) -> HitRecord<F> {
    let mut rec = HitRecord::default();
    rec.p = p;
    rec.normal = normal;
    rec.front_face = front_face;
    rec.t = F(1.0);
    rec
}

#[test]
fn face_normal_turns_against_the_ray() {
    let mut rec = HitRecord::<F>::default();
    let r = ray(v(0.0, 0.0, 0.0), v(0.0, 0.0, -1.0));
    rec.set_face_normal(&r, &v(0.0, 0.0, 1.0));
    assert!(rec.front_face);
    assert_eq!(rec.normal, v(0.0, 0.0, 1.0));
    rec.set_face_normal(&r, &v(0.0, 0.0, -1.0));
    assert!(!rec.front_face);
    assert_eq!(rec.normal, v(0.0, 0.0, 1.0));
}

#[test]
fn reflect_mirrors_at_the_normal() {
    assert_eq!(reflect(v(1.0, -1.0, 0.0), v(0.0, 1.0, 0.0)), v(1.0, 1.0, 0.0));
    assert_eq!(reflect(v(0.0, 0.0, -2.0), v(0.0, 0.0, 1.0)), v(0.0, 0.0, 2.0));
    assert_eq!(reflect(v(1.0, 0.0, 0.0), v(0.0, 1.0, 0.0)), v(1.0, 0.0, 0.0));
}

#[test]
fn refract_between_equal_media_goes_straight() {
    let n = v(0.0, 1.0, 0.0);
    for d in [v(0.0, -1.0, 0.0), v(0.6, -0.8, 0.0), v(0.0, -0.6, 0.8)] {
        let out = refract(d, n, F(1.0));
        assert!((out - d).length().0 < 1e-6);
    }
    let bent = refract(v(0.6, -0.8, 0.0), n, F(0.5));
    assert!((bent.x.0 - 0.3).abs() < 1e-6);
    assert!((bent.y.0 + (1.0f32 - 0.09).sqrt()).abs() < 1e-6);
}

#[test]
fn metal_without_fuzz_is_a_mirror() {
    let m = Material::metal(v(0.8, 0.6, 0.2), F(0.0));
    let mut source = seeded(3);
    for d in [v(1.0, -1.0, 0.0), v(0.2, -3.0, 0.5), v(-4.0, -0.1, 2.0)] {
        let n = v(0.0, 1.0, 0.0);
        let rec = hit_at(v(1.0, 2.0, 3.0), n, true);
        let r_in = Ray::new(v(0.0, 9.0, 0.0), d, F(0.5));
        let mut attenuation = Vec3::zero();
        let mut scattered = r_in;
        assert!(m.scatter(&r_in, &rec, &mut attenuation, &mut scattered, &mut source));
        let mirror = reflect(d.normalized(), n);
        assert!((scattered.direction() - mirror).length().0 == 0.0);
        assert_eq!(scattered.origin(), v(1.0, 2.0, 3.0));
        assert_eq!(scattered.time(), F(0.5));
        assert_eq!(attenuation, v(0.8, 0.6, 0.2));
    }
}

#[test]
fn metal_fuzz_is_held_at_one() {
    match Material::metal(v(1.0, 1.0, 1.0), F(3.0)) {
        Material::Metal(m) => assert_eq!(m.fuzz, F(1.0)),
        _ => panic!("not a metal"),
    }
    match Material::metal(v(1.0, 1.0, 1.0), F(0.25)) {
        Material::Metal(m) => assert_eq!(m.fuzz, F(0.25)),
        _ => panic!("not a metal"),
    }
    match Material::metal(v(1.0, 1.0, 1.0), F(-0.5)) {
        Material::Metal(m) => assert_eq!(m.fuzz, F(0.0)),
        _ => panic!("not a metal"),
    }
    for f in [0.0f32, 1.0, f32::NAN, f32::INFINITY, f32::NEG_INFINITY] {
        match Material::metal(v(1.0, 1.0, 1.0), F(f)) {
            Material::Metal(m) => assert!(0.0 <= m.fuzz.0 && m.fuzz.0 <= 1.0),
            _ => panic!("not a metal"),
        }
    }
}

#[test]
fn metal_absorbs_what_would_leave_into_the_surface() {
    let metal = match Material::metal(v(1.0, 1.0, 1.0), F(1.0)) {
        Material::Metal(m) => m,
        _ => panic!("not a metal"),
    };
    let n = v(0.0, 1.0, 0.0);
    let rec = hit_at(v(0.0, 0.0, 0.0), n, true);
    let r_in = ray(v(-1.0, 0.01, 0.0), v(1.0, -0.01, 0.0));
    let (goes_on, colour, out) = metal.scatter_with(&r_in, &rec, v(0.0, -1.0, 0.0));
    assert!(!goes_on);
    assert_eq!(colour, v(1.0, 1.0, 1.0));
    assert!(out.direction().y.0 < 0.0);
    let (goes_on, _, _) = metal.scatter_with(&r_in, &rec, v(0.0, 1.0, 0.0));
    assert!(goes_on);
}

#[test]
fn lambertian_falls_back_to_the_normal() {
    let lamb = match Material::lambertian(v(0.1, 0.2, 0.3)) {
        Material::Lambertian(l) => l,
        _ => panic!("not a lambertian"),
    };
    let n = v(0.0, 0.0, 1.0);
    let rec = hit_at(v(5.0, 5.0, 5.0), n, true);
    let r_in = Ray::new(v(0.0, 0.0, 9.0), v(0.0, 0.0, -1.0), F(0.75));
    let (colour, out) = lamb.scatter_with(&r_in, &rec, v(0.0, 0.0, -1.0));
    assert_eq!(out.direction(), n);
    assert_eq!(colour, v(0.1, 0.2, 0.3));
    let (_, out) = lamb.scatter_with(&r_in, &rec, v(1.0, 0.0, 0.0));
    assert_eq!(out.direction(), v(1.0, 0.0, 1.0));
    assert_eq!(out.origin(), v(5.0, 5.0, 5.0));
    assert_eq!(out.time(), F(0.75));
}

#[test]
fn lambertian_always_scatters() {
    let m = Material::lambertian(v(0.1, 0.2, 0.3));
    let mut source = seeded(5);
    let rec = hit_at(v(0.0, 0.0, 0.0), v(0.0, 1.0, 0.0), true);
    let r_in = ray(v(0.0, 1.0, 0.0), v(0.0, -1.0, 0.0));
    for _ in 0..50 {
        let mut attenuation = Vec3::zero();
        let mut scattered = r_in;
        assert!(m.scatter(&r_in, &rec, &mut attenuation, &mut scattered, &mut source));
        assert_eq!(attenuation, v(0.1, 0.2, 0.3));
        assert!(scattered.direction().dot(rec.normal).0 >= 0.0);
    }
}

#[test]
fn dielectric_matched_to_vacuum_lets_rays_through() {
    let vacuum = Dielectric::new(F(1.0));
    let n = v(0.0, 1.0, 0.0);
    for d in [v(0.0, -1.0, 0.0), v(0.6, -0.8, 0.0), v(0.3, -0.5, 0.2), v(-2.0, -1.0, 4.0)] {
        for front_face in [true, false] {
            let rec = hit_at(v(1.0, 0.0, 1.0), n, front_face);
            let r_in = Ray::new(v(0.0, 1.0, 0.0), d, F(0.5));
            assert!(!vacuum.cannot_refract(&r_in, &rec));
            let through = vacuum.scatter_with(&r_in, &rec, F(0.9999));
            assert!((through.direction() - d.normalized()).length().0 < 1e-6);
            assert_eq!(through.origin(), v(1.0, 0.0, 1.0));
            assert_eq!(through.time(), F(0.5));
        }
    }
    let head_on = Ray::new(v(0.0, 1.0, 0.0), v(0.0, -1.0, 0.0), F(0.5));
    let rec = hit_at(v(1.0, 0.0, 1.0), n, true);
    let m = Material::dielectric(F(1.0));
    let mut source = seeded(9);
    for _ in 0..50 {
        let mut attenuation = Vec3::zero();
        let mut scattered = head_on;
        assert!(m.scatter(&head_on, &rec, &mut attenuation, &mut scattered, &mut source));
        assert_eq!(attenuation, v(1.0, 1.0, 1.0));
        assert_eq!(scattered.direction(), v(0.0, -1.0, 0.0));
    }
}

#[test]
fn dielectric_may_reflect_a_slanted_ray() {
    let vacuum = Dielectric::new(F(1.0));
    let n = v(0.0, 1.0, 0.0);
    let d = v(-2.0, -1.0, 4.0);
    let rec = hit_at(v(1.0, 0.0, 1.0), n, true);
    let r_in = Ray::new(v(0.0, 1.0, 0.0), d, F(0.5));
    let cos = -d.normalized().y.0;
    let share = Dielectric::reflectance(F(cos), F(1.0));
    assert!(0.2 < share.0 && share.0 < 0.4);
    let back = vacuum.scatter_with(&r_in, &rec, F(0.1));
    assert_eq!(back.direction(), reflect(d.normalized(), n));
    assert!(back.direction().y.0 > 0.0);
    let on = vacuum.scatter_with(&r_in, &rec, F(0.5));
    assert!(on.direction().y.0 < 0.0);
}

#[test]
fn dielectric_reflectance_head_on_is_r0() {
    for ir in [1.0f32, 1.5, 2.4, 0.6667] {
        let r0 = ((1.0 - ir) / (1.0 + ir)) * ((1.0 - ir) / (1.0 + ir));
        assert_eq!(Dielectric::reflectance(F(1.0), F(ir)), F(r0));
    }
    assert_eq!(Dielectric::reflectance(F(0.0), F(1.5)), F(1.0));
    let r0 = 0.04f32;
    let expected = (1.0f32 - r0).mul_add((1.0f32 - 0.5).powi(5), r0);
    assert!((Dielectric::reflectance(F(0.5), F(1.5)).0 - expected).abs() < 1e-7);
}

#[test]
fn dielectric_reflects_all_past_the_critical_angle() {
    let glass = Dielectric::new(F(1.5));
    let n = v(0.0, 1.0, 0.0);
    let rec = hit_at(v(0.0, 0.0, 0.0), n, false);
    let grazing = ray(v(-1.0, 0.2, 0.0), v(1.0, -0.2, 0.0));
    assert!(glass.cannot_refract(&grazing, &rec));
    let mut stream = replay(&[0.99]);
    let mut attenuation = Vec3::zero();
    let mut scattered = grazing;
    assert!(Material::Dielectric(Dielectric::new(F(1.5))).scatter(
        &grazing,
        &rec,
        &mut attenuation,
        &mut scattered,
        &mut stream
    ));
    let mirror = reflect(grazing.direction().normalized(), n);
    assert_eq!(scattered.direction(), mirror);
    assert_eq!(stream.into_source().next, 0);

    let steep = ray(v(0.0, 1.0, 0.0), v(0.1, -1.0, 0.0));
    assert!(!glass.cannot_refract(&steep, &rec));
    let through = glass.scatter_with(&steep, &rec, F(0.99));
    assert!(through.direction().y.0 < 0.0);
    let back = glass.scatter_with(&steep, &rec, F(0.0));
    assert!(back.direction().y.0 > 0.0);
}

#[test]
fn checker_alternates_by_cell() {
    let t = Texture::checker(F(1.0), v(1.0, 0.0, 0.0), v(0.0, 0.0, 1.0));
    let even = v(1.0, 0.0, 0.0);
    let odd = v(0.0, 0.0, 1.0);
    assert_eq!(t.value(F(0.0), F(0.0), &v(0.5, 0.5, 0.5)), even);
    assert_eq!(t.value(F(0.0), F(0.0), &v(1.5, 0.5, 0.5)), odd);
    assert_eq!(t.value(F(0.0), F(0.0), &v(1.5, 1.5, 0.5)), even);
    assert_eq!(t.value(F(0.0), F(0.0), &v(-0.5, 0.5, 0.5)), odd);
    assert_eq!(t.value(F(0.0), F(0.0), &v(-0.5, -0.5, -0.5)), odd);
    assert_eq!(t.value(F(0.0), F(0.0), &v(-1.5, -0.5, 0.5)), odd);
    let fine = Texture::checker(F(0.5), v(1.0, 0.0, 0.0), v(0.0, 0.0, 1.0));
    assert_eq!(fine.value(F(0.0), F(0.0), &v(0.75, 0.25, 0.25)), odd);
    let far = v(3.0e9, 3.0e9, 3.0e9);
    assert_eq!(t.value(F(0.0), F(0.0), &far), odd);
}

#[test]
fn solid_colour_is_the_same_everywhere() {
    let t = Texture::solid_color(v(0.2, 0.4, 0.6));
    assert_eq!(t.value(F(0.3), F(0.9), &v(7.0, -8.0, 9.0)), v(0.2, 0.4, 0.6));
    assert_eq!(Texture::<F>::default().value(F(0.0), F(0.0), &v(0.0, 0.0, 0.0)), v(0.0, 0.0, 0.0));
    assert_eq!(t.clone().value(F(0.0), F(0.0), &v(0.0, 0.0, 0.0)), v(0.2, 0.4, 0.6));
}

#[test]
fn decimal_writes_numbers_without_leading_zeros() {
    for n in [0u32, 7, 10, 99, 100, 255, 65535, 4294967295] {
        let mut out = Vec::new();
        push_decimal(&mut out, n);
        assert_eq!(String::from_utf8(out).unwrap(), format!("{}", n));
    }
}

#[test]
fn channel_takes_the_root_of_the_mean() {
    assert_eq!(channel(F(0.0), 1), 0);
    assert_eq!(channel(F(0.25), 1), 128);
    assert_eq!(channel(F(1.0), 1), 255);
    assert_eq!(channel(F(50.0), 1), 255);
    assert_eq!(channel(F(-1.0), 1), 0);
    assert_eq!(channel(F(25.0), 100), 128);
    assert_eq!(channel(F(f32::NAN), 1), 0);
    assert_eq!(channel(F(0.5), 1), (256.0 * 0.5f32.sqrt()) as u8);
}

#[test]
fn write_color_writes_one_line() {
    let mut out = Vec::new();
    write_color(&mut out, v(1.0, 0.25, 0.0), 1);
    assert_eq!(String::from_utf8(out).unwrap(), "255 128 0\n");
    let mut out = b"x".to_vec();
    write_color(&mut out, v(4.0, 1.0, 0.04), 4);
    assert_eq!(String::from_utf8(out).unwrap(), "x255 128 25\n");
}

#[test]
fn header_names_format_size_and_depth() {
    let mut out = Vec::new();
    write_header(&mut out, 400, 225);
    assert_eq!(String::from_utf8(out).unwrap(), "P3\n400 225\n255\n");
}

fn camera(width: u16, samples: u16, depth: u16) -> Camera<F> {
    let mut cam = Camera::default();
    cam.aspect_ratio = F(2.0);
    cam.image_width = width;
    cam.samples_per_pixel = samples;
    cam.max_depth = depth;
    cam.vfov = F(90.0);
    cam.look_from = v(0.0, 0.0, 0.0);
    cam.look_at = v(0.0, 0.0, -1.0);
    cam.vup = v(0.0, 1.0, 0.0);
    cam.defocus_angle = F(0.0);
    cam.focus_dist = F(1.0);
    cam
}

#[test]
fn camera_refuses_a_bad_configuration() {
    let world = HittableList::<F>::default();
    let mut cam = camera(0, 1, 1);
    assert_eq!(cam.initialize(), Err(ConfigError::NonPositiveWidth));
    assert_eq!(
        cam.render(&world, &mut seeded(1), &mut Reporter::new(Silent)),
        Err(ConfigError::NonPositiveWidth)
    );
    let mut cam = camera(4, 0, 1);
    assert_eq!(cam.initialize(), Err(ConfigError::NoSamples));
    assert_eq!(cam.render(&world, &mut seeded(1), &mut Reporter::new(Silent)), Err(ConfigError::NoSamples));
    let mut cam = camera(0, 0, 1);
    assert_eq!(cam.initialize(), Err(ConfigError::NonPositiveWidth));
    assert_eq!(cam.image_height, 0);
}

#[test]
fn camera_frame_and_viewport() {
    let mut cam = camera(4, 1, 1);
    assert_eq!(cam.initialize(), Ok(()));
    assert_eq!(cam.image_height, 2);
    assert_eq!(cam.center, v(0.0, 0.0, 0.0));
    assert_eq!(cam.w, v(0.0, 0.0, 1.0));
    assert_eq!(cam.u, v(1.0, 0.0, 0.0));
    assert_eq!(cam.v, v(0.0, 1.0, 0.0));
    let h = (90.0f32.to_radians() / 2.0).tan();
    assert!((h - 1.0).abs() < 1e-6);
    assert!((cam.pixel_delta_u - v(1.0, 0.0, 0.0)).length().0 < 1e-6);
    assert!((cam.pixel_delta_v - v(0.0, -1.0, 0.0)).length().0 < 1e-6);
    assert!((cam.pixel00_location - v(-1.5, 0.5, -1.0)).length().0 < 1e-6);
}

#[test]
fn camera_height_is_at_least_one() {
    let mut cam = camera(3, 1, 1);
    cam.aspect_ratio = F(100.0);
    assert_eq!(cam.initialize(), Ok(()));
    assert_eq!(cam.image_height, 1);
    let mut cam = camera(400, 1, 1);
    cam.aspect_ratio = F(16.0 / 9.0);
    assert_eq!(cam.initialize(), Ok(()));
    assert_eq!(cam.image_height, 225);
}

#[test]
fn camera_rays_pass_through_their_pixel() {
    let mut cam = camera(4, 1, 1);
    assert_eq!(cam.initialize(), Ok(()));
    let mut stream = replay(&[0.5, 0.5, 0.25]);
    let r = cam.get_ray(0, 0, &mut stream);
    assert_eq!(r.origin(), v(0.0, 0.0, 0.0));
    assert!((r.direction() - v(-1.5, 0.5, -1.0)).length().0 < 1e-6);
    assert_eq!(r.time(), F(0.25));
    let r = cam.get_ray(3, 1, &mut stream);
    assert!((r.direction() - v(1.5, -0.5, -1.0)).length().0 < 1e-6);
    assert_eq!(stream.into_source().next, 6);
}

#[test]
fn camera_with_a_lens_starts_rays_on_it() {
    let mut cam = camera(4, 1, 1);
    cam.defocus_angle = F(10.0);
    cam.focus_dist = F(2.0);
    assert_eq!(cam.initialize(), Ok(()));
    let radius = 2.0 * (5.0f32.to_radians()).tan();
    assert!((cam.defocus_disk_u - v(radius, 0.0, 0.0)).length().0 < 1e-6);
    let mut stream = replay(&[0.5, 0.5, 0.9, 0.9, 0.5, -0.25, 0.75]);
    let r = cam.get_ray(1, 1, &mut stream);
    assert!((r.origin() - v(0.5 * radius, -0.25 * radius, 0.0)).length().0 < 1e-6);
    assert_eq!(r.time(), F(0.75));
    assert_eq!(stream.into_source().next, 7);
}

fn sky(y: f32) -> Vec3<F> {
    let a = 0.5 * (y + 1.0);
    v(1.0 * (1.0 - a) + 0.5 * a, 1.0 * (1.0 - a) + 0.7 * a, 1.0 * (1.0 - a) + 1.0 * a)
}

#[test]
fn ray_that_misses_brings_the_sky() {
    let world = HittableObject::sphere(v(0.0, 0.0, -1.0), F(100.0), grey());
    let mut source = seeded(1);
    let up = ray(v(0.0, 200.0, 0.0), v(0.0, 1.0, 0.0));
    assert_eq!(Camera::ray_color(&up, 1, &world, &mut source), sky(1.0));
    assert_eq!(Camera::ray_color(&up, 1, &world, &mut source), v(0.5, 0.7, 1.0));
    let level = ray(v(0.0, 200.0, 0.0), v(3.0, 0.0, 0.0));
    assert_eq!(Camera::ray_color(&level, 1, &world, &mut source), sky(0.0));
    let slanted = ray(v(0.0, 200.0, 0.0), v(3.0, 4.0, 0.0));
    let unit_y = (v(3.0, 4.0, 0.0).normalized()).y.0;
    assert_eq!(Camera::ray_color(&slanted, 1, &world, &mut source), sky(unit_y));
    assert_eq!(Camera::<F>::sky(&slanted), sky(unit_y));
}

#[test]
fn ray_out_of_depth_brings_nothing() {
    let world = HittableObject::sphere(v(0.0, 0.0, -1.0), F(100.0), grey());
    let mut source = seeded(1);
    let up = ray(v(0.0, 200.0, 0.0), v(0.0, 1.0, 0.0));
    assert_eq!(Camera::ray_color(&up, 0, &world, &mut source), v(0.0, 0.0, 0.0));
    let inside = ray(v(0.0, 0.0, 0.0), v(0.0, 1.0, 0.0));
    assert_eq!(Camera::ray_color(&inside, 1, &world, &mut source), v(0.0, 0.0, 0.0));
}

#[test]
fn ray_is_dimmed_at_every_bounce() {
    let world = HittableObject::sphere(
        v(0.0, -100.0, 0.0),
        F(100.0),
        Material::metal(v(0.5, 0.25, 1.0), F(0.0)),
    );
    let mut source = seeded(1);
    let down = ray(v(0.0, 5.0, 0.0), v(0.0, -1.0, 0.0));
    let light = Camera::ray_color(&down, 2, &world, &mut source);
    let s = sky(1.0);
    assert_eq!(light, v(s.x.0 * 0.5, s.y.0 * 0.25, s.z.0 * 1.0));
}

#[test]
fn render_of_an_empty_scene_is_the_sky() {
    let world = HittableList::<F>::default();
    let mut cam = camera(2, 1, 1);
    let mut stream = replay(&[0.5, 0.5, 0.0]);
    let out = cam.render(&world, &mut stream, &mut Reporter::new(Silent)).unwrap();
    let mut expected = String::from("P3\n2 1\n255\n");
    for x in [-1.0f32, 1.0] {
        let y = v(x, 0.0, -1.0).normalized().y.0;
        let s = sky(y);
        expected.push_str(&format!(
            "{} {} {}\n",
            (256.0 * s.x.0.sqrt().clamp(0.0, 0.999)) as u8,
            (256.0 * s.y.0.sqrt().clamp(0.0, 0.999)) as u8,
            (256.0 * s.z.0.sqrt().clamp(0.0, 0.999)) as u8
        ));
    }
    assert_eq!(String::from_utf8(out).unwrap(), expected);
}

fn small_scene() -> HittableObject<F> {
    let mut objects = vec![
        HittableObject::sphere(
            v(0.0, -100.5, -1.0),
            F(100.0),
            Material::lambertian_with_texture(Texture::checker(
                F(0.32),
                v(0.2, 0.3, 0.1),
                v(0.9, 0.9, 0.9),
            )),
        ),
        HittableObject::sphere(v(0.0, 0.0, -1.2), F(0.5), Material::lambertian(v(0.1, 0.2, 0.5))),
        HittableObject::sphere(v(-1.0, 0.0, -1.0), F(0.5), Material::dielectric(F(1.5))),
        HittableObject::sphere(v(1.0, 0.0, -1.0), F(0.5), Material::metal(v(0.8, 0.6, 0.2), F(0.3))),
        HittableObject::moving_sphere(
            v(0.0, 1.0, -1.0),
            v(0.0, 1.3, -1.0),
            F(0.2),
            Material::lambertian(v(0.7, 0.1, 0.1)),
        ),
    ];
    HittableObject::BvhNode(BvhNode::new_from_vector(&mut objects, &mut seeded(99)))
}

#[test]
fn render_has_the_shape_of_a_ppm_file() {
    let world = small_scene();
    let mut cam = camera(8, 3, 5);
    cam.defocus_angle = F(2.0);
    let mut rows = Reporter::new(Rows(Vec::new()));
    let out = cam.render(&world, &mut seeded(7), &mut rows).unwrap();
    let text = String::from_utf8(out).unwrap();
    let lines: Vec<&str> = text.lines().collect();
    assert_eq!(lines[0], "P3");
    assert_eq!(lines[1], "8 4");
    assert_eq!(lines[2], "255");
    assert_eq!(lines.len(), 3 + 8 * 4);
    assert!(text.ends_with('\n'));
    for line in &lines[3..] {
        let channels: Vec<&str> = line.split(' ').collect();
        assert_eq!(channels.len(), 3);
        for c in channels {
            let value: u32 = c.parse().unwrap();
            assert!(value <= 255);
            assert_eq!(format!("{}", value), c);
        }
    }
    assert_eq!(rows.into_sink().0, vec![(0, 4), (1, 4), (2, 4), (3, 4)]);
}

#[test]
fn render_twice_with_the_same_seed_gives_the_same_bytes() {
    let world = small_scene();
    let first = camera(10, 4, 8).render(&world, &mut seeded(2024), &mut Reporter::new(Silent)).unwrap();
    let second = camera(10, 4, 8).render(&world, &mut seeded(2024), &mut Reporter::new(Silent)).unwrap();
    assert_eq!(first, second);
    let other = camera(10, 4, 8).render(&world, &mut seeded(2025), &mut Reporter::new(Silent)).unwrap();
    assert_ne!(first, other);
}

#[test]
fn random_points_fall_where_they_should() {
    let mut source = seeded(17);
    for _ in 0..200 {
        let p = raytracer::random::vec3_in_unit_sphere(&mut source);
        assert!(p.length_squared().0 < 1.0);
        let d = raytracer::random::vec3_in_unit_disk(&mut source);
        assert!(d.length_squared().0 < 1.0);
        assert_eq!(d.z, F(0.0));
        let u = raytracer::random::unit_vector(&mut source);
        assert!((u.length().0 - 1.0).abs() < 1e-5);
        let x = raytracer::random::number(&mut source, F(2.0), F(3.0));
        assert!(2.0 <= x.0 && x.0 < 3.0);
        let c = raytracer::random::vec3(&mut source, F(-1.0), F(0.0));
        assert!(-1.0 <= c.x.0 && c.x.0 < 0.0 && -1.0 <= c.z.0 && c.z.0 < 0.0);
        assert!(raytracer::random::index(&mut source, 3) < 3);
    }
}

#[test]
fn random_search_throws_away_what_falls_outside() {
    let mut stream = replay(&[0.9, 0.9, 0.9, 0.1, 0.2, 0.3]);
    assert_eq!(raytracer::random::vec3_in_unit_sphere(&mut stream), v(0.1, 0.2, 0.3));
    assert_eq!(stream.into_source().next, 6);
    let mut stream = replay(&[0.9, 0.9, 0.8, 0.7, 0.5, -0.5]);
    assert_eq!(raytracer::random::vec3_in_unit_disk(&mut stream), v(0.5, -0.5, 0.0));
    assert_eq!(stream.into_source().next, 6);
    let mut stream = replay(&[7.0]);
    for bound in 1..9 {
        assert!(raytracer::random::index(&mut stream, bound) < bound);
    }
    assert_eq!(stream.into_source().next, 0);
}

#[test]
fn two_spheres_scene_is_as_described() {
    let scene = raytracer::scenes::two_spheres::<F, Seeded>(&mut seeded(1));
    assert_eq!(scene.camera.image_width, 400);
    assert_eq!(scene.camera.samples_per_pixel, 100);
    assert_eq!(scene.camera.max_depth, 50);
    assert_eq!(scene.camera.aspect_ratio, F(16.0 / 9.0));
    assert_eq!(scene.camera.vfov, F(20.0));
    assert_eq!(scene.camera.look_from, v(13.0, 2.0, 3.0));
    assert_eq!(scene.camera.look_at, v(0.0, 0.0, 0.0));
    assert_eq!(scene.camera.vup, v(0.0, 1.0, 0.0));
    assert_eq!(scene.camera.defocus_angle, F(0.0));
    let b = scene.world.bounding_box();
    assert_eq!((b.y.min, b.y.max), (F(-20.0), F(20.0)));
    assert_eq!((b.x.min, b.x.max), (F(-10.0), F(10.0)));
    let mut rec = HitRecord::default();
    let down = ray(v(0.0, 30.0, 0.0), v(0.0, -1.0, 0.0));
    assert!(scene.world.hit(&down, Interval::new(F(0.001), F(f32::INFINITY)), &mut rec));
    assert_eq!(rec.t, F(10.0));
}

#[test]
fn random_spheres_scene_is_as_described() {
    let scene = raytracer::scenes::random_spheres::<F, Seeded>(&mut seeded(5));
    assert_eq!(scene.camera.defocus_angle, F(0.6));
    assert_eq!(scene.camera.focus_dist, F(10.0));
    assert_eq!(scene.camera.image_width, 400);
    let b = scene.world.bounding_box();
    assert_eq!((b.y.min, b.y.max), (F(-2000.0), F(2.0)));
    assert_eq!((b.x.min, b.x.max), (F(-1000.0), F(1000.0)));
    let reach = Interval::new(F(0.001), F(f32::INFINITY));
    let mut rec = HitRecord::default();
    let at_glass = ray(v(0.0, 1.0, 9.0), v(0.0, 0.0, -1.0));
    assert!(scene.world.hit(&at_glass, reach, &mut rec));
    assert!(rec.t.0 <= 8.0);
    let at_metal = ray(v(4.0, 9.0, 0.0), v(0.0, -1.0, 0.0));
    assert!(scene.world.hit(&at_metal, reach, &mut rec));
    assert_eq!(rec.t, F(7.0));
    assert!(matches!(rec.mat, Material::Metal(_)));
    let again = raytracer::scenes::random_spheres::<F, Seeded>(&mut seeded(5));
    let mut other = HitRecord::default();
    for k in 0..50 {
        let r = ray(v(13.0, 2.0, 3.0), v(-13.0 + 0.1 * k as f32, -2.0, -3.0));
        assert_eq!(
            scene.world.hit(&r, reach, &mut rec),
            again.world.hit(&r, reach, &mut other)
        );
        assert_eq!(rec.t, other.t);
    }
}

#[test]
fn scene_cell_picks_material_by_the_first_number() {
    let matt = raytracer::scenes::cell::<F, Replay>(
        0,
        0,
        &mut replay(&[0.5, 0.5, 0.5, 0.2, 0.4, 0.6, 0.5, 0.5, 0.5, 0.25]),
    );
    match matt {
        Some(HittableObject::Sphere(s)) => {
            assert!(matches!(s.mat, Material::Lambertian(_)));
            assert!(s.is_moving);
            assert_eq!(s.center1, v(0.45, 0.2, 0.45));
            assert_eq!(s.center_vec, v(0.0, (0.2f32 + 0.25) - 0.2, 0.0));
            assert_eq!(s.radius, F(0.2));
        }
        _ => panic!("no sphere"),
    }
    let metal = raytracer::scenes::cell::<F, Replay>(
        -3,
        7,
        &mut replay(&[0.9, 0.0, 0.0, 0.6, 0.7, 0.8, 0.125]),
    );
    match metal {
        Some(HittableObject::Sphere(s)) => {
            match s.mat {
                Material::Metal(m) => {
                    assert_eq!(m.albedo, v(0.6, 0.7, 0.8));
                    assert_eq!(m.fuzz, F(0.125));
                }
                _ => panic!("no metal"),
            }
            assert!(!s.is_moving);
            assert_eq!(s.center1, v(-3.0, 0.2, 7.0));
        }
        _ => panic!("no sphere"),
    }
    let glass = raytracer::scenes::cell::<F, Replay>(1, 1, &mut replay(&[0.97, 0.0, 0.0]));
    match glass {
        Some(HittableObject::Sphere(s)) => match s.mat {
            Material::Dielectric(d) => assert_eq!(d.ir, F(1.5)),
            _ => panic!("no glass"),
        },
        _ => panic!("no sphere"),
    }
    let mut stream = replay(&[0.1, 0.5, 0.5]);
    assert!(raytracer::scenes::cell::<F, Replay>(4, 0, &mut stream).is_none());
    assert_eq!(stream.into_source().next, 3);
}

fn samples() -> Vec<F> {
    let mut values = vec![
        f32::NAN,
        f32::NEG_INFINITY,
        f32::MIN,
        -1.0e20,
        -7.5,
        -1.0,
        -1.0e-20,
        -f32::MIN_POSITIVE,
        -1.0e-45,
        -0.0,
        0.0,
        1.0e-45,
        f32::MIN_POSITIVE,
        1.0e-20,
        0.001,
        0.5,
        1.0,
        3.0,
        7.5,
        1.0e20,
        f32::MAX,
        f32::INFINITY,
    ];
    let mut source = seeded(31);
    for _ in 0..12 {
        values.push(raytracer::random::number(&mut source, F(-100.0), F(100.0)).0);
    }
    values.into_iter().map(F).collect()
}

fn number(x: F) -> bool {
    x <= x
}

fn same_number(a: F, b: F) -> bool {
    a <= b && b <= a
}

fn same_bits(a: F, b: F) -> bool {
    a.0.to_bits() == b.0.to_bits()
}

#[test]
fn test_scalar_is_ordered_as_a_line() {
    let all = samples();
    for &a in &all {
        for &b in &all {
            assert_eq!(a < b, b > a);
            assert_eq!(a <= b, b >= a);
            if a <= b {
                assert!(number(a) && number(b));
            }
            if number(a) && number(b) {
                assert!(a <= b || b <= a);
            }
            for &c in &all {
                if a <= b && b <= c {
                    assert!(a <= c);
                }
                if a < b && b <= c {
                    assert!(a < c);
                }
                if a <= b && b < c {
                    assert!(a < c);
                }
            }
        }
    }
}

#[test]
fn test_scalar_has_infinities_that_bound() {
    let top = F::infinity();
    let bottom = F::neg_infinity();
    assert!(number(top) && number(bottom));
    for x in samples() {
        if number(x) {
            assert!(x <= top && bottom <= x);
        }
        if top <= x {
            assert!(same_bits(x, top));
        }
        if x <= bottom {
            assert!(same_bits(x, bottom));
        }
    }
}

#[test]
fn test_scalar_mirrors_negation() {
    let all = samples();
    let zero = F::from_i32(0);
    for &a in &all {
        if number(a) {
            assert!(same_bits(a * F::from_i32(-1), -a));
            assert!(number(-a));
        }
        if zero <= a {
            assert!(-a <= zero);
        }
        for &b in &all {
            if number(a * b) {
                assert!(same_bits(a * (-b), -(a * b)));
                assert!(number(a) && number(b));
            }
            if number(a + b) {
                assert!(number(a) && number(b));
                assert!(same_number((-a) + (-b), -(a + b)));
            }
        }
    }
    assert!(same_number(F(0.0) + F(-0.0), -(F(-0.0) + F(0.0))));
    assert!(!same_bits(F(1.0) + F(-1.0), -(F(-1.0) + F(1.0))));
}

#[test]
fn test_scalar_arithmetic_is_monotone() {
    let all = samples();
    let zero = F::from_i32(0);
    for &x in &all {
        for &y in &all {
            if !(x <= y) {
                continue;
            }
            for &k in &all {
                if number(x - k) && number(y - k) {
                    assert!(x - k <= y - k);
                }
                if number(x * k) && number(y * k) {
                    if k < zero {
                        assert!(y * k <= x * k);
                    } else {
                        assert!(x * k <= y * k);
                    }
                }
            }
        }
    }
}

#[test]
fn aabb_is_hit_from_inside_within_a_range_from_zero() {
    let b = Aabb::new(v(-1.0, -2.0, -3.0), v(1.0, 2.0, 3.0));
    let from_zero = Interval::new(F(0.0), F(f32::INFINITY));
    let origins = [v(0.0, 0.0, 0.0), v(0.9, -1.9, 2.9), v(-0.5, 1.0, -2.0)];
    let parts = [0.0f32, -0.0, 1.0, -1.0, 0.001, -250.0, 1.0e-20, 1.0e20];
    for o in origins {
        for &x in &parts {
            for &y in &parts {
                for &z in &parts {
                    assert!(b.hit(&ray(o, v(x, y, z)), from_zero));
                    assert!(b.hit(&ray(o, v(x, y, z)), Interval::new(F(-5.0), F(0.5))));
                }
            }
        }
    }
}

#[test]
fn aabb_hit_from_inside_fails_where_products_vanish() {
    let tiny = Aabb::new(v(-1.0e-30, -1.0e-30, -1.0e-30), v(1.0e-30, 1.0e-30, 1.0e-30));
    let fast = ray(v(0.0, 0.0, 0.0), v(1.0e20, 1.0e20, 1.0e20));
    assert!(!tiny.hit(&fast, Interval::new(F(-1.0), F(1.0))));
    let slow = ray(v(0.0, 0.0, 0.0), v(1.0, 1.0, 1.0));
    assert!(tiny.hit(&slow, Interval::new(F(-1.0), F(1.0))));
}

#[test]
fn list_gives_its_objects_to_the_hierarchy() {
    let mut list = HittableList::new(HittableObject::sphere(v(0.0, 0.0, -9.0), F(1.0), grey()));
    list.add(HittableObject::sphere(v(0.0, 0.0, -3.0), F(1.0), grey()));
    list.add(HittableObject::sphere(v(0.0, 0.0, -6.0), F(1.0), grey()));
    let tree = HittableObject::bvh_node(list.objects(), &mut seeded(8));
    assert_eq!(list.objects.len(), 3);
    let mut kept: Vec<f32> = list.objects.iter().map(|o| o.bounding_box().z.min.0).collect();
    kept.sort_by(|a, b| a.total_cmp(b));
    assert_eq!(kept, vec![-10.0, -7.0, -4.0]);
    let r = ray(v(0.0, 0.0, 0.0), v(0.0, 0.0, -1.0));
    let reach = Interval::new(F(0.001), F(f32::INFINITY));
    let mut in_tree = HitRecord::default();
    let mut in_list = HitRecord::default();
    assert!(Hittable::hit(&tree, &r, reach, &mut in_tree));
    assert!(Hittable::hit(&list, &r, reach, &mut in_list));
    assert_eq!(in_tree.t, F(2.0));
    assert_eq!(in_list.t, F(2.0));
    let b = Hittable::bounding_box(&tree);
    assert_eq!((b.z.min, b.z.max), (F(-10.0), F(-2.0)));
    let whole = BvhNode::new(list, &mut seeded(8));
    assert_eq!((whole.bbox.z.min, whole.bbox.z.max), (F(-10.0), F(-2.0)));
    assert!(Hittable::hit(&whole, &r, reach, &mut in_tree));
    assert_eq!(in_tree.t, F(2.0));
}

#[test]
fn materials_scatter_through_the_trait() {
    let rec = hit_at(v(0.0, 0.0, 0.0), v(0.0, 1.0, 0.0), true);
    let r_in = ray(v(0.0, 1.0, 0.0), v(0.0, -1.0, 0.0));
    let mut source = seeded(21);
    for m in [
        Material::lambertian(v(0.5, 0.5, 0.5)),
        Material::metal(v(0.5, 0.5, 0.5), F(0.0)),
        Material::dielectric(F(1.5)),
        Material::default(),
    ] {
        let mut attenuation = Vec3::zero();
        let mut scattered = r_in;
        assert!(Scatter::scatter(&m, &r_in, &rec, &mut attenuation, &mut scattered, &mut source));
        assert_eq!(scattered.origin(), v(0.0, 0.0, 0.0));
        let copy = m.clone();
        let mut again = r_in;
        assert!(copy.scatter(&r_in, &rec, &mut attenuation, &mut again, &mut source));
    }
}

#[test]
fn vectors_are_drawn_from_the_stream() {
    let mut stream = replay(&[0.9, 0.9, 0.9, 0.0, 0.6, 0.8]);
    assert_eq!(Vec3::random(&mut stream, F(0.0), F(1.0)), v(0.9, 0.9, 0.9));
    let mut stream = replay(&[0.9, 0.9, 0.9, 0.0, 0.3, 0.4]);
    assert_eq!(Vec3::random_in_unit_shpere(&mut stream), v(0.0, 0.3, 0.4));
    let mut stream = replay(&[0.9, 0.9, 0.9, 0.0, 0.3, 0.4]);
    assert_eq!(Vec3::random_unit_vector(&mut stream), v(0.0, 0.3 / 0.5, 0.4 / 0.5));
    let mut stream = replay(&[0.0, 0.3, 0.4]);
    let up = Vec3::random_on_hemisphere(&mut stream, &v(0.0, 1.0, 0.0));
    assert_eq!(up, v(0.0, 0.3 / 0.5, 0.4 / 0.5));
    let mut stream = replay(&[0.0, 0.3, 0.4]);
    let down = Vec3::random_on_hemisphere(&mut stream, &v(0.0, -1.0, 0.0));
    assert_eq!(down, v(-0.0, -(0.3 / 0.5), -(0.4 / 0.5)));
    let mut stream = replay(&[0.0, 0.3, 0.4]);
    let unit = raytracer::random::unit_vector(&mut stream);
    assert!((unit - v(0.0, 0.6, 0.8)).length().0 < 1e-6);
}

fn glam_sphere_hit(
    center: glam::Vec3,
    radius: f32,
    origin: glam::Vec3,
    direction: glam::Vec3,
    lo: f32,
    hi: f32,
) -> Option<(f32, glam::Vec3, glam::Vec3, bool)> {
    let oc = origin - center;
    let a = direction.length_squared();
    let half_b = oc.dot(direction);
    let c = radius.mul_add(-radius, oc.length_squared());
    let discriminant = half_b.mul_add(half_b, -a * c);
    if discriminant < 0.0 {
        return None;
    }
    let sqrtd = discriminant.sqrt();
    let mut root = (-half_b - sqrtd) / a;
    if !(lo < root && root <= hi) {
        root = (-half_b + sqrtd) / a;
        if !(lo < root && root <= hi) {
            return None;
        }
    }
    let p = origin + direction * root;
    let outward = (p - center) / radius;
    let front = direction.dot(outward) < 0.0;
    let normal = if front { outward } else { outward * -1.0 };
    Some((root, p, normal, front))
}

#[test]
fn sphere_hit_agrees_with_the_same_steps_in_glam() {
    let mut source = seeded(77);
    let mut hits = 0;
    for _ in 0..500 {
        let center = raytracer::random::vec3(&mut source, F(-2.0), F(2.0));
        let radius = raytracer::random::number(&mut source, F(0.1), F(3.0));
        let origin = raytracer::random::vec3(&mut source, F(-6.0), F(6.0));
        let aim = raytracer::random::vec3(&mut source, F(-2.0), F(2.0));
        let direction = aim - origin;
        let s = HittableObject::sphere(center, radius, grey());
        let mut rec = HitRecord::default();
        let found = s.hit(&ray(origin, direction), Interval::new(F(0.001), F(50.0)), &mut rec);
        match glam_sphere_hit(g(center), radius.0, g(origin), g(direction), 0.001, 50.0) {
            Some((t, p, normal, front)) => {
                hits += 1;
                assert!(found);
                assert_eq!(rec.t.0, t);
                assert!(same(rec.p, p));
                assert!(same(rec.normal, normal));
                assert_eq!(rec.front_face, front);
            }
            None => assert!(!found),
        }
    }
    assert!(hits > 100);
}

fn glam_box_hit(
    low: glam::Vec3,
    high: glam::Vec3,
    origin: glam::Vec3,
    direction: glam::Vec3,
    lo: f32,
    hi: f32,
) -> bool {
    let (mut t_min, mut t_max) = (lo, hi);
    for a in 0..3 {
        let inv_d = 1.0 / direction[a];
        let mut t0 = (low[a] - origin[a]) * inv_d;
        let mut t1 = (high[a] - origin[a]) * inv_d;
        if inv_d < 0.0 {
            (t0, t1) = (t1, t0);
        }
        if t0 > t_min {
            t_min = t0;
        }
        if t1 < t_max {
            t_max = t1;
        }
        if t_max <= t_min {
            return false;
        }
    }
    true
}

#[test]
fn aabb_hit_agrees_with_the_same_steps_in_glam() {
    let mut source = seeded(78);
    let (mut inside, mut outside) = (0, 0);
    for k in 0..600 {
        let a = raytracer::random::vec3(&mut source, F(-3.0), F(3.0));
        let b = raytracer::random::vec3(&mut source, F(-3.0), F(3.0));
        let origin = raytracer::random::vec3(&mut source, F(-6.0), F(6.0));
        let mut direction = raytracer::random::vec3(&mut source, F(-1.0), F(1.0));
        if k % 2 == 0 {
            direction = (a + b) / F(2.0) + direction - origin;
        }
        if k % 7 == 0 {
            direction.x = F(0.0);
        }
        if k % 11 == 0 {
            direction.z = F(-0.0);
        }
        let bounds = Aabb::new(a, b);
        let low = g(a).min(g(b));
        let high = g(a).max(g(b));
        let found = bounds.hit(&ray(origin, direction), Interval::new(F(0.001), F(f32::INFINITY)));
        assert_eq!(found, glam_box_hit(low, high, g(origin), g(direction), 0.001, f32::INFINITY));
        if found {
            inside += 1;
        } else {
            outside += 1;
        }
    }
    assert!(inside > 50 && outside > 50);
}

#[test]
fn camera_rays_are_cast_within_the_exposure() {
    let mut cam = camera(6, 1, 1);
    assert_eq!(cam.initialize(), Ok(()));
    let mut source = seeded(41);
    for k in 0..300u16 {
        let r = cam.get_ray(k % 6, k % 3, &mut source);
        assert!(0.0 <= r.time().0 && r.time().0 < 1.0);
        assert_eq!(r.origin(), cam.center);
    }
    cam.defocus_angle = F(3.0);
    assert_eq!(cam.initialize(), Ok(()));
    for k in 0..300u16 {
        let r = cam.get_ray(k % 6, k % 3, &mut source);
        assert!(0.0 <= r.time().0 && r.time().0 < 1.0);
    }
}

#[test]
fn numbers_are_drawn_from_the_range_asked() {
    let mut source = seeded(43);
    for (lo, hi) in [(0.0f32, 1.0f32), (-1.0, 1.0), (0.0, 0.5), (0.5, 1.0), (-8.0, -7.5)] {
        for _ in 0..200 {
            let x = raytracer::random::number(&mut source, F(lo), F(hi));
            assert!(lo <= x.0 && x.0 < hi);
            let p = raytracer::random::vec3(&mut source, F(lo), F(hi));
            assert!(lo <= p.x.0 && p.x.0 < hi && lo <= p.y.0 && p.y.0 < hi);
            assert!(lo <= p.z.0 && p.z.0 < hi);
        }
    }
    for _ in 0..200 {
        let p = Vec3::random_in_unit_shpere(&mut source);
        assert!(p.length_squared().0 < 1.0);
        assert!(-1.0 <= p.x.0 && p.x.0 < 1.0 && -1.0 <= p.y.0 && p.y.0 < 1.0);
        assert!(-1.0 <= p.z.0 && p.z.0 < 1.0);
    }
}
