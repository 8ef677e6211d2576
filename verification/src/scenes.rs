//! Two scenes to look at, each with the camera that shows it.

use crate::camera::Camera;
use crate::hittable::hittable_object::bvh_node::BvhNode;
use crate::hittable::HittableList;
use crate::hittable::HittableObject;
use crate::material::Material;
use crate::random::lemma_tape_continues;
use crate::random::number;
use crate::random::scalar_at;
use crate::random::share_at;
use crate::random::spec_vec3;
use crate::random::vec3;
use crate::random::Draw;
use crate::random::RandomSource;
use crate::random::Stream;
use crate::scalar::faithful;
use crate::scalar::from_i32_of;
use crate::scalar::gt;
use crate::scalar::lt;
use crate::scalar::mul_add_of;
use crate::scalar::ratio;
use crate::scalar::ratio_of;
use crate::scalar::total;
use crate::scalar::Scalar;
use crate::texture::Texture;
use crate::vec3::Vec3;
use vstd::prelude::*;

verus! {

/// A scene and the camera that shows it.
pub struct Scene<T: Scalar> {
    pub world: HittableObject<T>,
    pub camera: Camera<T>,
}

/// The vector with the whole numbers `x`, `y`, `z` as components.
pub open spec fn spec_whole<T: Scalar>(x: i32, y: i32, z: i32) -> Vec3<T> {
    Vec3 { x: from_i32_of::<T>(x), y: from_i32_of::<T>(y), z: from_i32_of::<T>(z) }
}

pub fn whole<T: Scalar>(x: i32, y: i32, z: i32) -> (r: Vec3<T>)
    ensures
        faithful::<T>() ==> r == spec_whole::<T>(x, y, z),
{
    Vec3::new(T::from_i32(x), T::from_i32(y), T::from_i32(z))
}

/// The vector of tenths `x / 10`, `y / 10`, `z / 10`.
pub open spec fn spec_tenths<T: Scalar>(x: i32, y: i32, z: i32) -> Vec3<T> {
    Vec3 { x: ratio_of::<T>(x, 10), y: ratio_of::<T>(y, 10), z: ratio_of::<T>(z, 10) }
}

pub fn tenths<T: Scalar>(x: i32, y: i32, z: i32) -> (r: Vec3<T>)
    requires
        total::<T>(),
    ensures
        faithful::<T>() ==> r == spec_tenths::<T>(x, y, z),
{
    Vec3::new(ratio(x, 10), ratio(y, 10), ratio(z, 10))
}

/// Dark green and near-white cubes of side `scale_hundredths / 100`.
pub open spec fn spec_checker<T: Scalar>(scale_hundredths: i32) -> Texture<T> {
    Texture::Checker(
        crate::texture::checker::Checker::spec_new_using_color(
            ratio_of::<T>(scale_hundredths, 100),
            spec_tenths::<T>(2, 3, 1),
            spec_tenths::<T>(9, 9, 9),
        ),
    )
}

/// The camera of both scenes: a picture 400 wide and 16 to 9, with 100
/// samples a pixel and rays sent on up to 50 times, looking from
/// `(13, 2, 3)` at the origin, 20 degrees high, in focus at a distance of
/// 10, with a lens that opens `lens_tenths / 10` degrees.
pub open spec fn spec_camera<T: Scalar>(lens_tenths: i32) -> Camera<T> {
    Camera {
        aspect_ratio: ratio_of::<T>(16, 9),
        image_width: 400,
        samples_per_pixel: 100,
        max_depth: 50,
        vfov: from_i32_of::<T>(20),
        look_from: spec_whole::<T>(13, 2, 3),
        look_at: spec_whole::<T>(0, 0, 0),
        vup: spec_whole::<T>(0, 1, 0),
        defocus_angle: ratio_of::<T>(lens_tenths, 10),
        focus_dist: from_i32_of::<T>(10),
        ..Camera::spec_default()
    }
}

pub fn camera<T: Scalar>(lens_tenths: i32) -> (r: Camera<T>)
    requires
        total::<T>(),
    ensures
        r.image_width == 400,
        r.samples_per_pixel == 100,
        r.max_depth == 50,
        faithful::<T>() ==> r == spec_camera::<T>(lens_tenths),
{
    let mut cam = Camera::default();
    cam.aspect_ratio = ratio(16, 9);
    cam.image_width = 400;
    cam.samples_per_pixel = 100;
    cam.max_depth = 50;

    cam.vfov = T::from_i32(20);
    cam.look_from = whole(13, 2, 3);
    cam.look_at = whole(0, 0, 0);
    cam.vup = whole(0, 1, 0);

    cam.defocus_angle = ratio(lens_tenths, 10);
    cam.focus_dist = T::from_i32(10);
    cam
}

/// The two spheres of the second scene: one of radius 10 below the
/// origin and one above, both chequered.
pub open spec fn spec_two_spheres_objects<T: Scalar>() -> Seq<HittableObject<T>> {
    seq![
        HittableObject::spec_sphere(
            spec_whole::<T>(0, -10i32, 0),
            from_i32_of::<T>(10),
            Material::Lambertian(
                crate::material::lambertian::Lambertian { albedo: spec_checker::<T>(80) },
            ),
        ),
        HittableObject::spec_sphere(
            spec_whole::<T>(0, 10, 0),
            from_i32_of::<T>(10),
            Material::Lambertian(
                crate::material::lambertian::Lambertian { albedo: spec_checker::<T>(80) },
            ),
        ),
    ]
}

/// Two chequered spheres that touch at the origin, seen without a lens; the
/// hierarchy takes its axis from place `at` of tape `f`.
pub open spec fn spec_two_spheres<T: Scalar>(f: Seq<Draw<T>>, at: int) -> (Scene<T>, int) {
    let built = BvhNode::spec_build(spec_two_spheres_objects::<T>(), 0, 2, f, at);
    (
        Scene { world: HittableObject::BvhNode(built.node), camera: spec_camera::<T>(0) },
        built.next,
    )
}

/// Builds the scene of the two chequered spheres.
pub fn two_spheres<T: Scalar, R: RandomSource<T>>(rng: &mut Stream<T, R>) -> (r: Scene<T>)
    requires
        total::<T>(),
    ensures
        old(rng).leads_to(final(rng).tape()),
        r.camera.spec_check() is None,
        faithful::<T>() ==> forall|f: Seq<Draw<T>>| #[trigger]
            final(rng).leads_to(f) ==> spec_two_spheres::<T>(f, old(rng).tape().len() as int) == (
                r,
                final(rng).tape().len() as int,
            ),
{
    let mut world = HittableList::default();

    let checker = Texture::checker(ratio(80, 100), tenths(2, 3, 1), tenths(9, 9, 9));

    world.add(
        HittableObject::sphere(
            whole(0, -10, 0),
            T::from_i32(10),
            Material::lambertian_with_texture(checker.clone()),
        ),
    );
    world.add(
        HittableObject::sphere(
            whole(0, 10, 0),
            T::from_i32(10),
            Material::lambertian_with_texture(checker),
        ),
    );
    proof {
        if faithful::<T>() {
            assert(world.objects@ =~= spec_two_spheres_objects::<T>());
        }
    }
    let world = HittableObject::bvh_node(&mut world.objects, rng);
    Scene { world, camera: camera(0) }
}

/// The small sphere that may stand in cell `(a, b)` of the ground, and the
/// place on the tape behind the numbers read for it.
///
/// Its centre lies up to nine tenths from `(a, 0.2, b)` in x and z. A
/// sphere that would come within nine tenths of `(4, 0.2, 0)` is left out.
/// Of the others, the first number read decides the material: below eight
/// tenths a matt one in a random colour, the sphere moving up by at most a
/// half; below nineteen twentieths a metal in a light colour with a
/// roughness of at most a half; else glass. The numbers are asked from
/// zero up to one, but the rise and the roughness from zero up to a half
/// and the colour of a metal from a half up to one.
pub open spec fn spec_cell<T: Scalar>(a: i32, b: i32, f: Seq<Draw<T>>, at: int) -> (
    Option<HittableObject<T>>,
    int,
) {
    let zero = from_i32_of::<T>(0);
    let one = from_i32_of::<T>(1);
    let half = ratio_of::<T>(1, 2);
    let choose_mat = share_at(f, at);
    let center = Vec3 {
        x: mul_add_of(ratio_of::<T>(9, 10), share_at(f, at + 1), from_i32_of::<T>(a)),
        y: ratio_of::<T>(2, 10),
        z: mul_add_of(ratio_of::<T>(9, 10), share_at(f, at + 2), from_i32_of::<T>(b)),
    };
    let radius = ratio_of::<T>(2, 10);
    let reserved = Vec3 {
        x: from_i32_of::<T>(4),
        y: ratio_of::<T>(2, 10),
        z: from_i32_of::<T>(0),
    };
    if !gt(center.spec_minus(reserved).spec_length(), ratio_of::<T>(9, 10)) {
        (None, at + 3)
    } else if lt(choose_mat, ratio_of::<T>(8, 10)) {
        let albedo = spec_vec3(f, at + 3, zero, one).spec_product(spec_vec3(f, at + 6, zero, one));
        let center2 = center.spec_plus(
            Vec3 { x: zero, y: scalar_at(f, at + 9, zero, half), z: zero },
        );
        (
            Some(
                HittableObject::spec_moving_sphere(
                    center,
                    center2,
                    radius,
                    Material::Lambertian(
                        crate::material::lambertian::Lambertian {
                            albedo: Texture::SolidColor(
                                crate::texture::solid_color::SolidColor { color_value: albedo },
                            ),
                        },
                    ),
                ),
            ),
            at + 10,
        )
    } else if lt(choose_mat, ratio_of::<T>(95, 100)) {
        (
            Some(
                HittableObject::spec_sphere(
                    center,
                    radius,
                    Material::Metal(
                        crate::material::metal::Metal::spec_new(
                            spec_vec3(f, at + 3, half, one),
                            scalar_at(f, at + 6, zero, half),
                        ),
                    ),
                ),
            ),
            at + 7,
        )
    } else {
        (Some(HittableObject::spec_sphere(center, radius, Material::spec_default())), at + 3)
    }
}

/// Draws the small sphere of cell `(a, b)`, if the cell gets one.
pub fn cell<T: Scalar, R: RandomSource<T>>(a: i32, b: i32, rng: &mut Stream<T, R>) -> (r: Option<
    HittableObject<T>,
>)
    requires
        total::<T>(),
    ensures
        old(rng).leads_to(final(rng).tape()),
        faithful::<T>() ==> forall|f: Seq<Draw<T>>| #[trigger]
            final(rng).leads_to(f) ==> spec_cell::<T>(a, b, f, old(rng).tape().len() as int) == (
                r,
                final(rng).tape().len() as int,
            ),
{
    let ghost start = rng.tape().len() as int;
    let zero = T::from_i32(0);
    let one = T::from_i32(1);
    let choose_mat = number(rng, zero, one);
    let east = number(rng, zero, one);
    let x = ratio::<T>(9, 10).mul_add(east, T::from_i32(a));
    let south = number(rng, zero, one);
    let z = ratio::<T>(9, 10).mul_add(south, T::from_i32(b));
    let center = Vec3::new(x, ratio(2, 10), z);
    let ghost placed = *rng;
    proof {
        let tape = rng.tape();
        if faithful::<T>() {
            assert forall|f: Seq<Draw<T>>| #[trigger] placed.leads_to(f) implies share_at(f, start)
                == choose_mat && share_at(f, start + 1) == east && share_at(f, start + 2)
                == south by {
                assert(f[start] == tape[start]);
                assert(f[start + 1] == tape[start + 1]);
                assert(f[start + 2] == tape[start + 2]);
            }
        }
    }
    let reserved = Vec3::new(T::from_i32(4), ratio(2, 10), zero);
    if (center - reserved).length() > ratio(9, 10) {
        if choose_mat < ratio(8, 10) {
            let first = vec3(rng, zero, one);
            let ghost once = *rng;
            let second = vec3(rng, zero, one);
            let ghost twice = *rng;
            let albedo = first.product(second);
            let sphere_material = Material::lambertian(albedo);
            let rise = number(rng, zero, ratio(1, 2));
            let center2 = center + Vec3::new(zero, rise, zero);
            proof {
                let tape = rng.tape();
                lemma_tape_continues(placed.tape(), once.tape(), twice.tape());
                lemma_tape_continues(placed.tape(), twice.tape(), tape);
                lemma_tape_continues(old(rng).tape(), placed.tape(), tape);
                assert forall|f: Seq<Draw<T>>| #[trigger] rng.leads_to(f) implies placed.leads_to(
                    f,
                ) && once.leads_to(f) && twice.leads_to(f) && (faithful::<T>() ==> scalar_at(
                    f,
                    start + 9,
                    from_i32_of::<T>(0),
                    ratio_of::<T>(1, 2),
                ) == rise) by {
                    lemma_tape_continues(twice.tape(), tape, f);
                    lemma_tape_continues(once.tape(), twice.tape(), f);
                    lemma_tape_continues(placed.tape(), once.tape(), f);
                    assert(f[start + 9] == tape[start + 9]);
                }
            }
            Some(HittableObject::moving_sphere(center, center2, ratio(2, 10), sphere_material))
        } else if choose_mat < ratio(95, 100) {
            let albedo = vec3(rng, ratio(1, 2), one);
            let ghost coloured = *rng;
            let fuzz = number(rng, zero, ratio(1, 2));
            let sphere_material = Material::metal(albedo, fuzz);
            proof {
                let tape = rng.tape();
                lemma_tape_continues(placed.tape(), coloured.tape(), tape);
                lemma_tape_continues(old(rng).tape(), placed.tape(), tape);
                assert forall|f: Seq<Draw<T>>| #[trigger] rng.leads_to(f) implies placed.leads_to(
                    f,
                ) && coloured.leads_to(f) && (faithful::<T>() ==> scalar_at(
                    f,
                    start + 6,
                    from_i32_of::<T>(0),
                    ratio_of::<T>(1, 2),
                ) == fuzz) by {
                    lemma_tape_continues(coloured.tape(), tape, f);
                    lemma_tape_continues(placed.tape(), coloured.tape(), f);
                    assert(f[start + 6] == tape[start + 6]);
                }
            }
            Some(HittableObject::sphere(center, ratio(2, 10), sphere_material))
        } else {
            let sphere_material = Material::default();
            Some(HittableObject::sphere(center, ratio(2, 10), sphere_material))
        }
    } else {
        None
    }
}

/// `objects` with the small spheres of the first `columns` cells of row `a`
/// added, and the place on the tape behind them. The cells of a row run
/// from `b = -11` up.
pub open spec fn spec_cells<T: Scalar>(
    objects: Seq<HittableObject<T>>,
    a: i32,
    columns: nat,
    f: Seq<Draw<T>>,
    at: int,
) -> (Seq<HittableObject<T>>, int)
    decreases columns,
{
    if columns == 0 {
        (objects, at)
    } else {
        let (before, then) = spec_cells(objects, a, (columns - 1) as nat, f, at);
        let (found, next) = spec_cell::<T>(a, (columns - 12) as i32, f, then);
        (
            match found {
                Some(object) => before.push(object),
                None => before,
            },
            next,
        )
    }
}

/// `objects` with the small spheres of the first `rows` rows of cells
/// added, and the place on the tape behind them. The rows run from
/// `a = -11` up, 22 cells each.
pub open spec fn spec_grid<T: Scalar>(
    objects: Seq<HittableObject<T>>,
    rows: nat,
    f: Seq<Draw<T>>,
    at: int,
) -> (Seq<HittableObject<T>>, int)
    decreases rows,
{
    if rows == 0 {
        (objects, at)
    } else {
        let (before, then) = spec_grid(objects, (rows - 1) as nat, f, at);
        spec_cells(before, (rows - 12) as i32, 22, f, then)
    }
}

/// The ground of the first scene: a chequered sphere of radius 1000.
pub open spec fn spec_ground<T: Scalar>() -> HittableObject<T> {
    HittableObject::spec_sphere(
        spec_whole::<T>(0, -1000i32, 0),
        from_i32_of::<T>(1000),
        Material::Lambertian(
            crate::material::lambertian::Lambertian { albedo: spec_checker::<T>(32) },
        ),
    )
}

/// The three large spheres of the first scene: glass in the middle, a
/// matt brown one behind and a polished metal one in front.
pub open spec fn spec_large<T: Scalar>() -> Seq<HittableObject<T>> {
    seq![
        HittableObject::spec_sphere(
            spec_whole::<T>(0, 1, 0),
            from_i32_of::<T>(1),
            Material::spec_default(),
        ),
        HittableObject::spec_sphere(
            spec_whole::<T>(-4i32, 1, 0),
            from_i32_of::<T>(1),
            Material::Lambertian(
                crate::material::lambertian::Lambertian {
                    albedo: Texture::SolidColor(
                        crate::texture::solid_color::SolidColor {
                            color_value: spec_tenths::<T>(4, 2, 1),
                        },
                    ),
                },
            ),
        ),
        HittableObject::spec_sphere(
            spec_whole::<T>(4, 1, 0),
            from_i32_of::<T>(1),
            Material::Metal(
                crate::material::metal::Metal::spec_new(
                    spec_tenths::<T>(7, 6, 5),
                    from_i32_of::<T>(0),
                ),
            ),
        ),
    ]
}

/// A chequered ground strewn with small spheres, three large ones among
/// them, seen through a lens; and the place on the tape behind the numbers
/// read for the spheres and then for the hierarchy over them.
pub open spec fn spec_random_spheres<T: Scalar>(f: Seq<Draw<T>>, at: int) -> (Scene<T>, int) {
    let (strewn, then) = spec_grid(seq![spec_ground::<T>()], 22, f, at);
    let all = strewn + spec_large::<T>();
    let built = BvhNode::spec_build(all, 0, all.len() as int, f, then);
    (
        Scene { world: HittableObject::BvhNode(built.node), camera: spec_camera::<T>(6) },
        built.next,
    )
}

/// Builds the scene of the ground strewn with spheres.
pub fn random_spheres<T: Scalar, R: RandomSource<T>>(rng: &mut Stream<T, R>) -> (r: Scene<T>)
    requires
        total::<T>(),
    ensures
        old(rng).leads_to(final(rng).tape()),
        r.camera.spec_check() is None,
        faithful::<T>() ==> forall|f: Seq<Draw<T>>| #[trigger]
            final(rng).leads_to(f) ==> spec_random_spheres::<T>(f, old(rng).tape().len() as int)
                == (r, final(rng).tape().len() as int),
{
    let mut world = HittableList::default();

    let checker = Texture::checker(ratio(32, 100), tenths(2, 3, 1), tenths(9, 9, 9));
    world.add(
        HittableObject::sphere(
            whole(0, -1000, 0),
            T::from_i32(1000),
            Material::lambertian_with_texture(checker),
        ),
    );
    proof {
        if faithful::<T>() {
            assert(world.objects@ =~= seq![spec_ground::<T>()]);
        }
    }
    let mut a: i32 = -11;
    while a < 11
        invariant
            total::<T>(),
            -11 <= a <= 11,
            world.objects@.len() >= 1,
            old(rng).leads_to(rng.tape()),
            faithful::<T>() ==> forall|f: Seq<Draw<T>>| #[trigger]
                rng.leads_to(f) ==> spec_grid(
                    seq![spec_ground::<T>()],
                    (a + 11) as nat,
                    f,
                    old(rng).tape().len() as int,
                ) == (world.objects@, rng.tape().len() as int),
        decreases 11 - a,
    {
        let ghost row_start = *rng;
        let ghost before = world.objects@;
        let mut b: i32 = -11;
        while b < 11
            invariant
                total::<T>(),
                -11 <= b <= 11,
                world.objects@.len() >= 1,
                row_start.leads_to(rng.tape()),
                faithful::<T>() ==> forall|f: Seq<Draw<T>>| #[trigger]
                    rng.leads_to(f) ==> spec_cells(
                        before,
                        a,
                        (b + 11) as nat,
                        f,
                        row_start.tape().len() as int,
                    ) == (world.objects@, rng.tape().len() as int),
            decreases 11 - b,
        {
            let ghost head = *rng;
            match cell(a, b, rng) {
                Some(object) => {
                    world.add(object);
                },
                None => {},
            }
            proof {
                lemma_tape_continues(row_start.tape(), head.tape(), rng.tape());
                assert forall|f: Seq<Draw<T>>| #[trigger] rng.leads_to(f) implies head.leads_to(
                    f,
                ) by {
                    lemma_tape_continues(head.tape(), rng.tape(), f);
                }
            }
            b = b + 1;
        }
        proof {
            lemma_tape_continues(old(rng).tape(), row_start.tape(), rng.tape());
            assert forall|f: Seq<Draw<T>>| #[trigger] rng.leads_to(f) implies row_start.leads_to(
                f,
            ) by {
                lemma_tape_continues(row_start.tape(), rng.tape(), f);
            }
        }
        a = a + 1;
    }
    let ghost strewn = world.objects@;
    let ghost sown = *rng;

    let material1 = Material::default();
    world.add(HittableObject::sphere(whole(0, 1, 0), T::from_i32(1), material1));

    let material2 = Material::lambertian(tenths(4, 2, 1));
    world.add(HittableObject::sphere(whole(-4, 1, 0), T::from_i32(1), material2));

    let material3 = Material::metal(tenths(7, 6, 5), T::from_i32(0));
    world.add(HittableObject::sphere(whole(4, 1, 0), T::from_i32(1), material3));
    proof {
        if faithful::<T>() {
            assert(world.objects@ =~= strewn + spec_large::<T>());
        }
    }
    let world = HittableObject::bvh_node(&mut world.objects, rng);
    proof {
        lemma_tape_continues(old(rng).tape(), sown.tape(), rng.tape());
        assert forall|f: Seq<Draw<T>>| #[trigger] rng.leads_to(f) implies sown.leads_to(f) by {
            lemma_tape_continues(sown.tape(), rng.tape(), f);
        }
    }
    Scene { world, camera: camera(6) }
}

} // verus!
