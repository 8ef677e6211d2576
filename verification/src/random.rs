//! Random numbers, drawn from sources that the caller brings.
//!
//! Random scalars come from a [`RandomSource`], random whole numbers from
//! the standard generator of the `rand` crate. A [`Stream`] hands both on
//! and keeps a ghost record of what they gave, the tape. Whatever is
//! computed from random numbers is specified as a function of a tape and of
//! the place on it where reading starts, and every function that draws
//! says that its result is that function of any tape that starts as the
//! stream's tape stands after the call. The same numbers thus always give
//! the same result.
//!
//! The tape holds beside each number the range that it was asked from, and
//! a number is read off the tape by naming that range: a function that
//! asked for another range than its description names does not meet it.

use crate::scalar::faithful;
use crate::scalar::from_i32_of;
use crate::scalar::gt;
use crate::scalar::le;
use crate::scalar::lt;
use crate::scalar::obeys_order;
use crate::scalar::total;
use crate::scalar::Scalar;
use crate::vec3::Vec3;
use rand::rngs::StdRng;
use rand::Rng;
use vstd::prelude::*;

verus! {

/// `x` lies in the range from `min` up to, but not including, `max`.
pub open spec fn spec_within<T: Scalar>(x: T, min: T, max: T) -> bool {
    le(min, x) && lt(x, max)
}

/// A source of uniform random scalars. It is taken on trust of whoever
/// implements it that a number asked from a range that is not empty lies in
/// that range.
pub trait RandomSource<T: Scalar> {
    /// A number of the range from `min` up to, but not including, `max`.
    fn number(&mut self, min: T, max: T) -> (r: T)
        ensures
            obeys_order::<T>() && lt(min, max) ==> spec_within(r, min, max),
    ;
}

/// The standard generator of the `rand` crate. Nothing is known of its
/// state.
#[verifier::external_type_specification]
#[verifier::external_body]
pub struct ExStdRng(rand::rngs::StdRng);

/// `rand::Rng::gen_range` on the range from zero up to `bound`. It is taken
/// on trust that the number drawn lies in that range, as the crate
/// documents; an empty range, on which the crate panics, is kept out.
#[verifier::external_body]
fn below(generator: &mut StdRng, bound: usize) -> (r: usize)
    requires
        bound > 0,
    ensures
        r < bound,
{
    generator.gen_range(0..bound)
}

/// One number that a source gave, and what it was asked for.
pub enum Draw<T> {
    /// A scalar, asked of the [`RandomSource`] from `min` up to `max`.
    Scalar { value: T, min: T, max: T },
    /// A whole number, asked of the generator below `bound`.
    Index { value: usize, bound: usize },
}

/// A source of random scalars and a generator of whole numbers, together
/// with the record of what they were asked and gave.
pub struct Stream<T: Scalar, R: RandomSource<T>> {
    source: R,
    picker: StdRng,
    drawn: Ghost<Seq<Draw<T>>>,
}

/// How often a search for a random point may throw its candidate away.
pub const MAX_REJECTIONS: u32 = 0xffff_ffff;

/// The scalar at place `at` of tape `f` that was asked from `min` up to
/// `max`. Where the tape holds at that place what was asked otherwise,
/// nothing is known of the result.
pub open spec fn scalar_at<T>(f: Seq<Draw<T>>, at: int, min: T, max: T) -> T {
    match f[at] {
        Draw::Scalar { value, min: from, max: to } => if from == min && to == max {
            value
        } else {
            arbitrary()
        },
        Draw::Index { .. } => arbitrary(),
    }
}

/// The whole number at place `at` of tape `f` that was asked below `bound`.
/// Where the tape holds at that place what was asked otherwise, nothing is
/// known of the result.
pub open spec fn index_at<T>(f: Seq<Draw<T>>, at: int, bound: usize) -> usize {
    match f[at] {
        Draw::Scalar { .. } => arbitrary(),
        Draw::Index { value, bound: below } => if below == bound {
            value
        } else {
            arbitrary()
        },
    }
}

/// The scalar at place `at` of tape `f` that was asked from `from_i32(0)`
/// up to `from_i32(1)`.
pub open spec fn share_at<T: Scalar>(f: Seq<Draw<T>>, at: int) -> T {
    scalar_at(f, at, from_i32_of::<T>(0), from_i32_of::<T>(1))
}

/// The vector whose components are the three scalars from place `at` on,
/// each asked from `min` up to `max`.
pub open spec fn spec_vec3<T: Scalar>(f: Seq<Draw<T>>, at: int, min: T, max: T) -> Vec3<T> {
    Vec3 {
        x: scalar_at(f, at, min, max),
        y: scalar_at(f, at + 1, min, max),
        z: scalar_at(f, at + 2, min, max),
    }
}

/// A candidate for a point inside the unit sphere: three scalars from place
/// `at` on, each asked from `from_i32(-1)` up to `from_i32(1)`.
pub open spec fn spec_cube_candidate<T: Scalar>(f: Seq<Draw<T>>, at: int) -> Vec3<T> {
    spec_vec3(f, at, from_i32_of::<T>(-1i32), from_i32_of::<T>(1))
}

/// A candidate for a point of the unit disk: two scalars from place `at` on,
/// each asked from `from_i32(-1)` up to `from_i32(1)`, and `from_i32(0)`.
pub open spec fn spec_disk_candidate<T: Scalar>(f: Seq<Draw<T>>, at: int) -> Vec3<T> {
    Vec3 {
        x: scalar_at(f, at, from_i32_of::<T>(-1i32), from_i32_of::<T>(1)),
        y: scalar_at(f, at + 1, from_i32_of::<T>(-1i32), from_i32_of::<T>(1)),
        z: from_i32_of::<T>(0),
    }
}

/// Whether a candidate is kept: its squared length is below `from_i32(1)`.
pub open spec fn spec_accepts<T: Scalar>(p: Vec3<T>) -> bool {
    lt(p.spec_length_squared(), from_i32_of::<T>(1))
}

/// The first candidate from place `at` on that is kept, or the one read
/// after `budget` were thrown away; and the place behind it.
pub open spec fn spec_in_unit_sphere<T: Scalar>(f: Seq<Draw<T>>, at: int, budget: nat) -> (
    Vec3<T>,
    int,
)
    decreases budget,
{
    let p = spec_cube_candidate(f, at);
    if spec_accepts(p) || budget == 0 {
        (p, at + 3)
    } else {
        spec_in_unit_sphere(f, at + 3, (budget - 1) as nat)
    }
}

/// As [`spec_in_unit_sphere`], with candidates of the unit disk.
pub open spec fn spec_in_unit_disk<T: Scalar>(f: Seq<Draw<T>>, at: int, budget: nat) -> (
    Vec3<T>,
    int,
)
    decreases budget,
{
    let p = spec_disk_candidate(f, at);
    if spec_accepts(p) || budget == 0 {
        (p, at + 2)
    } else {
        spec_in_unit_disk(f, at + 2, (budget - 1) as nat)
    }
}

/// Candidate number `k`, counted from zero, of a search for a point inside
/// the unit sphere that reads from place `at` on.
pub open spec fn spec_sphere_candidate<T: Scalar>(f: Seq<Draw<T>>, at: int, k: nat) -> Vec3<T> {
    spec_cube_candidate(f, at + 3 * k)
}

/// Candidate number `k`, counted from zero, of a search for a point of the
/// unit disk that reads from place `at` on.
pub open spec fn spec_disk_candidate_number<T: Scalar>(f: Seq<Draw<T>>, at: int, k: nat) -> Vec3<
    T,
> {
    spec_disk_candidate(f, at + 2 * k)
}

/// A search for a point inside the unit sphere gives the first candidate
/// that is kept, where there is one within the budget; and it stops
/// reading behind that candidate.
pub proof fn lemma_in_unit_sphere_is_first_kept<T: Scalar>(
    f: Seq<Draw<T>>,
    at: int,
    budget: nat,
    k: nat,
)
    requires
        k <= budget,
        spec_accepts(spec_sphere_candidate(f, at, k)),
        forall|j: nat| j < k ==> !spec_accepts(#[trigger] spec_sphere_candidate(f, at, j)),
    ensures
        spec_in_unit_sphere(f, at, budget) == (spec_sphere_candidate(f, at, k), at + 3 * (k + 1)),
    decreases k,
{
    if k > 0 {
        assert(!spec_accepts(spec_sphere_candidate(f, at, 0)));
        assert forall|j: nat| j < k - 1 implies !spec_accepts(
            #[trigger] spec_sphere_candidate(f, at + 3, j),
        ) by {
            assert(spec_sphere_candidate(f, at + 3, j) == spec_sphere_candidate(f, at, j + 1));
        }
        assert(spec_sphere_candidate(f, at + 3, (k - 1) as nat) == spec_sphere_candidate(f, at, k));
        lemma_in_unit_sphere_is_first_kept(f, at + 3, (budget - 1) as nat, (k - 1) as nat);
    }
}

/// A search for a point inside the unit sphere gives a point inside it,
/// where a candidate within the budget is kept.
pub proof fn lemma_in_unit_sphere_is_inside<T: Scalar>(
    f: Seq<Draw<T>>,
    at: int,
    budget: nat,
    k: nat,
)
    requires
        k <= budget,
        spec_accepts(spec_sphere_candidate(f, at, k)),
    ensures
        spec_accepts(spec_in_unit_sphere(f, at, budget).0),
    decreases k,
{
    if !spec_accepts(spec_cube_candidate(f, at)) {
        assert(spec_sphere_candidate(f, at, 0) == spec_cube_candidate(f, at));
        assert(spec_sphere_candidate(f, at + 3, (k - 1) as nat) == spec_sphere_candidate(f, at, k));
        lemma_in_unit_sphere_is_inside(f, at + 3, (budget - 1) as nat, (k - 1) as nat);
    }
}

/// A search for a point of the unit disk gives the first candidate that is
/// kept, where there is one within the budget; and it stops reading behind
/// that candidate.
pub proof fn lemma_in_unit_disk_is_first_kept<T: Scalar>(
    f: Seq<Draw<T>>,
    at: int,
    budget: nat,
    k: nat,
)
    requires
        k <= budget,
        spec_accepts(spec_disk_candidate_number(f, at, k)),
        forall|j: nat| j < k ==> !spec_accepts(#[trigger] spec_disk_candidate_number(f, at, j)),
    ensures
        spec_in_unit_disk(f, at, budget) == (
            spec_disk_candidate_number(f, at, k),
            at + 2 * (k + 1),
        ),
    decreases k,
{
    if k > 0 {
        assert(!spec_accepts(spec_disk_candidate_number(f, at, 0)));
        assert forall|j: nat| j < k - 1 implies !spec_accepts(
            #[trigger] spec_disk_candidate_number(f, at + 2, j),
        ) by {
            assert(spec_disk_candidate_number(f, at + 2, j) == spec_disk_candidate_number(
                f,
                at,
                j + 1,
            ));
        }
        assert(spec_disk_candidate_number(f, at + 2, (k - 1) as nat)
            == spec_disk_candidate_number(f, at, k));
        lemma_in_unit_disk_is_first_kept(f, at + 2, (budget - 1) as nat, (k - 1) as nat);
    }
}

/// A search for a point of the unit disk gives a point of it, where a
/// candidate within the budget is kept.
pub proof fn lemma_in_unit_disk_is_inside<T: Scalar>(
    f: Seq<Draw<T>>,
    at: int,
    budget: nat,
    k: nat,
)
    requires
        k <= budget,
        spec_accepts(spec_disk_candidate_number(f, at, k)),
    ensures
        spec_accepts(spec_in_unit_disk(f, at, budget).0),
    decreases k,
{
    if !spec_accepts(spec_disk_candidate(f, at)) {
        assert(spec_disk_candidate_number(f, at, 0) == spec_disk_candidate(f, at));
        assert(spec_disk_candidate_number(f, at + 2, (k - 1) as nat)
            == spec_disk_candidate_number(f, at, k));
        lemma_in_unit_disk_is_inside(f, at + 2, (budget - 1) as nat, (k - 1) as nat);
    }
}

/// A random direction: a point of the unit sphere, scaled to unit length.
pub open spec fn spec_unit_vector<T: Scalar>(f: Seq<Draw<T>>, at: int) -> (Vec3<T>, int) {
    let (p, next) = spec_in_unit_sphere(f, at, MAX_REJECTIONS as nat);
    (p.spec_normalized(), next)
}

/// A tape that continues a continuation of `a` continues `a`.
pub proof fn lemma_tape_continues<T>(a: Seq<Draw<T>>, b: Seq<Draw<T>>, c: Seq<Draw<T>>)
    requires
        a.is_prefix_of(b),
        b.is_prefix_of(c),
    ensures
        a.is_prefix_of(c),
{
    assert forall|i: int| 0 <= i < a.len() implies a[i] == c[i] by {
        assert(a[i] == b[i]);
    }
}

impl<T: Scalar, R: RandomSource<T>> Stream<T, R> {
    /// Everything the source has given so far, oldest first.
    pub closed spec fn tape(&self) -> Seq<Draw<T>> {
        self.drawn@
    }

    /// `f` is a tape that starts as this stream's tape does now.
    pub open spec fn leads_to(&self, f: Seq<Draw<T>>) -> bool {
        self.tape().is_prefix_of(f)
    }

    /// The source of the scalars.
    pub closed spec fn source(&self) -> R {
        self.source
    }

    /// A stream that has given nothing yet. Scalars will come from
    /// `source`, whole numbers from `picker`.
    pub fn new(source: R, picker: StdRng) -> (r: Self)
        ensures
            r.tape() == Seq::<Draw<T>>::empty(),
            r.source() == source,
    {
        Stream { source, picker, drawn: Ghost(Seq::empty()) }
    }

    /// Gives the source of the scalars back.
    pub fn into_source(self) -> (r: R)
        ensures
            r == self.source(),
    {
        self.source
    }
}

/// Draws a number of the range from `min` up to `max`, which lies in that
/// range where the range is not empty. What an empty range gives is up to
/// the source.
pub fn number<T: Scalar, R: RandomSource<T>>(rng: &mut Stream<T, R>, min: T, max: T) -> (r: T)
    ensures
        final(rng).tape() == old(rng).tape().push(Draw::Scalar { value: r, min, max }),
        obeys_order::<T>() && lt(min, max) ==> spec_within(r, min, max),
{
    let r = rng.source.number(min, max);
    proof {
        rng.drawn@ = rng.drawn@.push(Draw::Scalar { value: r, min, max });
    }
    r
}

/// Draws a whole number below `bound`.
pub fn index<T: Scalar, R: RandomSource<T>>(rng: &mut Stream<T, R>, bound: usize) -> (r: usize)
    requires
        bound > 0,
    ensures
        r < bound,
        final(rng).tape() == old(rng).tape().push(Draw::Index { value: r, bound }),
{
    let r = below(&mut rng.picker, bound);
    proof {
        rng.drawn@ = rng.drawn@.push(Draw::Index { value: r, bound });
    }
    r
}

/// Every number on tape `f` from place `from` up to place `to` is a scalar
/// that was asked from `min` up to `max`.
pub open spec fn spec_asked_between<T>(f: Seq<Draw<T>>, from: int, to: int, min: T, max: T) -> bool {
    forall|i: int|
        from <= i < to ==> (#[trigger] f[i]) == (Draw::Scalar {
            value: f[i]->Scalar_value,
            min,
            max,
        })
}

/// Every component of `p` lies in the range from `min` up to `max`.
pub open spec fn spec_all_within<T: Scalar>(p: Vec3<T>, min: T, max: T) -> bool {
    spec_within(p.x, min, max) && spec_within(p.y, min, max) && spec_within(p.z, min, max)
}

/// Draws a vector, each component from `min` up to `max`.
pub fn vec3<T: Scalar, R: RandomSource<T>>(rng: &mut Stream<T, R>, min: T, max: T) -> (r: Vec3<T>)
    ensures
        final(rng).tape().len() == old(rng).tape().len() + 3,
        old(rng).leads_to(final(rng).tape()),
        forall|f: Seq<Draw<T>>| #[trigger]
            final(rng).leads_to(f) ==> r == spec_vec3(f, old(rng).tape().len() as int, min, max),
        spec_asked_between(
            final(rng).tape(),
            old(rng).tape().len() as int,
            final(rng).tape().len() as int,
            min,
            max,
        ),
        obeys_order::<T>() && lt(min, max) ==> spec_all_within(r, min, max),
{
    let ghost start = rng.tape().len() as int;
    let x = number(rng, min, max);
    let y = number(rng, min, max);
    let z = number(rng, min, max);
    proof {
        let tape = rng.tape();
        assert forall|f: Seq<Draw<T>>| #[trigger] rng.leads_to(f) implies Vec3 { x, y, z }
            == spec_vec3(f, start, min, max) by {
            assert(f[start] == tape[start]);
            assert(f[start + 1] == tape[start + 1]);
            assert(f[start + 2] == tape[start + 2]);
        }
    }
    Vec3::new(x, y, z)
}

/// Draws a point of the unit disk in the plane `z = 0`, by throwing away
/// candidates of the square around it until one falls inside.
pub fn vec3_in_unit_disk<T: Scalar, R: RandomSource<T>>(rng: &mut Stream<T, R>) -> (r: Vec3<T>)
    requires
        total::<T>(),
    ensures
        old(rng).leads_to(final(rng).tape()),
        faithful::<T>() ==> forall|f: Seq<Draw<T>>| #[trigger]
            final(rng).leads_to(f) ==> spec_in_unit_disk(
                f,
                old(rng).tape().len() as int,
                MAX_REJECTIONS as nat,
            ) == (r, final(rng).tape().len() as int),
        faithful::<T>() ==> spec_asked_between(
            final(rng).tape(),
            old(rng).tape().len() as int,
            final(rng).tape().len() as int,
            from_i32_of::<T>(-1i32),
            from_i32_of::<T>(1),
        ),
        faithful::<T>() && lt(from_i32_of::<T>(-1i32), from_i32_of::<T>(1)) ==> spec_within(
            r.x,
            from_i32_of::<T>(-1i32),
            from_i32_of::<T>(1),
        ) && spec_within(r.y, from_i32_of::<T>(-1i32), from_i32_of::<T>(1)) && r.z == from_i32_of::<
            T,
        >(0),
{
    let mut left: u32 = MAX_REJECTIONS;
    loop
        invariant
            total::<T>(),
            old(rng).leads_to(rng.tape()),
            faithful::<T>() ==> spec_asked_between(
                rng.tape(),
                old(rng).tape().len() as int,
                rng.tape().len() as int,
                from_i32_of::<T>(-1i32),
                from_i32_of::<T>(1),
            ),
            faithful::<T>() ==> forall|f: Seq<Draw<T>>| #[trigger]
                rng.leads_to(f) ==> spec_in_unit_disk(
                    f,
                    old(rng).tape().len() as int,
                    MAX_REJECTIONS as nat,
                ) == spec_in_unit_disk(f, rng.tape().len() as int, left as nat),
        decreases left,
    {
        let ghost head = *rng;
        let ghost start = rng.tape().len() as int;
        let x = number(rng, T::from_i32(-1), T::from_i32(1));
        let y = number(rng, T::from_i32(-1), T::from_i32(1));
        let p = Vec3::new(x, y, T::from_i32(0));
        let inside = p.length_squared() < T::from_i32(1);
        proof {
            let tape = rng.tape();
            if faithful::<T>() {
                assert forall|f: Seq<Draw<T>>| #[trigger] rng.leads_to(f) implies spec_in_unit_disk(
                    f,
                    old(rng).tape().len() as int,
                    MAX_REJECTIONS as nat,
                ) == (if inside || left == 0 {
                    (p, start + 2)
                } else {
                    spec_in_unit_disk(f, start + 2, (left - 1) as nat)
                }) by {
                    assert(head.leads_to(f));
                    assert(f[start] == tape[start]);
                    assert(f[start + 1] == tape[start + 1]);
                    assert(spec_disk_candidate(f, start) == p);
                }
            }
        }
        if inside || left == 0 {
            return p;
        }
        left = left - 1;
    }
}

/// Draws a point inside the unit sphere, by throwing away candidates of the
/// cube around it until one falls inside.
pub fn vec3_in_unit_sphere<T: Scalar, R: RandomSource<T>>(rng: &mut Stream<T, R>) -> (r: Vec3<T>)
    requires
        total::<T>(),
    ensures
        old(rng).leads_to(final(rng).tape()),
        faithful::<T>() ==> forall|f: Seq<Draw<T>>| #[trigger]
            final(rng).leads_to(f) ==> spec_in_unit_sphere(
                f,
                old(rng).tape().len() as int,
                MAX_REJECTIONS as nat,
            ) == (r, final(rng).tape().len() as int),
        faithful::<T>() ==> spec_asked_between(
            final(rng).tape(),
            old(rng).tape().len() as int,
            final(rng).tape().len() as int,
            from_i32_of::<T>(-1i32),
            from_i32_of::<T>(1),
        ),
        faithful::<T>() && lt(from_i32_of::<T>(-1i32), from_i32_of::<T>(1)) ==> spec_all_within(
            r,
            from_i32_of::<T>(-1i32),
            from_i32_of::<T>(1),
        ),
{
    let mut left: u32 = MAX_REJECTIONS;
    loop
        invariant
            total::<T>(),
            old(rng).leads_to(rng.tape()),
            faithful::<T>() ==> spec_asked_between(
                rng.tape(),
                old(rng).tape().len() as int,
                rng.tape().len() as int,
                from_i32_of::<T>(-1i32),
                from_i32_of::<T>(1),
            ),
            faithful::<T>() ==> forall|f: Seq<Draw<T>>| #[trigger]
                rng.leads_to(f) ==> spec_in_unit_sphere(
                    f,
                    old(rng).tape().len() as int,
                    MAX_REJECTIONS as nat,
                ) == spec_in_unit_sphere(f, rng.tape().len() as int, left as nat),
        decreases left,
    {
        let ghost head = *rng;
        let ghost start = rng.tape().len() as int;
        let p = vec3(rng, T::from_i32(-1), T::from_i32(1));
        let inside = p.length_squared() < T::from_i32(1);
        proof {
            if faithful::<T>() {
                let tape = rng.tape();
                assert forall|i: int| old(rng).tape().len() <= i < tape.len() implies (
                #[trigger] tape[i]) == (Draw::Scalar {
                    value: tape[i]->Scalar_value,
                    min: from_i32_of::<T>(-1i32),
                    max: from_i32_of::<T>(1),
                }) by {
                    if i < start {
                        assert(head.tape()[i] == tape[i]);
                    }
                }
                assert forall|f: Seq<Draw<T>>| #[trigger]
                    rng.leads_to(f) implies spec_in_unit_sphere(
                    f,
                    old(rng).tape().len() as int,
                    MAX_REJECTIONS as nat,
                ) == (if inside || left == 0 {
                    (p, start + 3)
                } else {
                    spec_in_unit_sphere(f, start + 3, (left - 1) as nat)
                }) by {
                    assert(head.leads_to(f));
                    assert(spec_cube_candidate(f, start) == p);
                }
            }
        }
        if inside || left == 0 {
            return p;
        }
        left = left - 1;
    }
}

/// Draws a direction of unit length.
pub fn unit_vector<T: Scalar, R: RandomSource<T>>(rng: &mut Stream<T, R>) -> (r: Vec3<T>)
    requires
        total::<T>(),
    ensures
        old(rng).leads_to(final(rng).tape()),
        faithful::<T>() ==> forall|f: Seq<Draw<T>>| #[trigger]
            final(rng).leads_to(f) ==> spec_unit_vector(f, old(rng).tape().len() as int) == (
                r,
                final(rng).tape().len() as int,
            ),
        faithful::<T>() ==> spec_asked_between(
            final(rng).tape(),
            old(rng).tape().len() as int,
            final(rng).tape().len() as int,
            from_i32_of::<T>(-1i32),
            from_i32_of::<T>(1),
        ),
{
    vec3_in_unit_sphere(rng).normalized()
}

/// A random direction of unit length, by dividing a point of the unit
/// sphere by its length.
pub open spec fn spec_random_unit_vector<T: Scalar>(f: Seq<Draw<T>>, at: int) -> (Vec3<T>, int) {
    let (p, next) = spec_in_unit_sphere(f, at, MAX_REJECTIONS as nat);
    (p.spec_unit_vector(), next)
}

/// A random direction of unit length on the side of `normal`.
pub open spec fn spec_random_on_hemisphere<T: Scalar>(
    normal: Vec3<T>,
    f: Seq<Draw<T>>,
    at: int,
) -> (Vec3<T>, int) {
    let (on_unit_sphere, next) = spec_random_unit_vector(f, at);
    if gt(on_unit_sphere.spec_dot(normal), from_i32_of::<T>(0)) {
        (on_unit_sphere, next)
    } else {
        (on_unit_sphere.spec_scaled(from_i32_of::<T>(-1i32)), next)
    }
}

impl<T: Scalar> Vec3<T> {
    /// Draws a vector, each component from `min` up to `max`.
    pub fn random<R: RandomSource<T>>(rng: &mut Stream<T, R>, min: T, max: T) -> (r: Self)
        ensures
            final(rng).tape().len() == old(rng).tape().len() + 3,
            old(rng).leads_to(final(rng).tape()),
            forall|f: Seq<Draw<T>>| #[trigger]
                final(rng).leads_to(f) ==> r == spec_vec3(
                    f,
                    old(rng).tape().len() as int,
                    min,
                    max,
                ),
            spec_asked_between(
                final(rng).tape(),
                old(rng).tape().len() as int,
                final(rng).tape().len() as int,
                min,
                max,
            ),
            obeys_order::<T>() && lt(min, max) ==> spec_all_within(r, min, max),
    {
        vec3(rng, min, max)
    }

    /// Draws a point inside the unit sphere.
    pub fn random_in_unit_shpere<R: RandomSource<T>>(rng: &mut Stream<T, R>) -> (r: Self)
        requires
            total::<T>(),
        ensures
            old(rng).leads_to(final(rng).tape()),
            faithful::<T>() ==> forall|f: Seq<Draw<T>>| #[trigger]
                final(rng).leads_to(f) ==> spec_in_unit_sphere(
                    f,
                    old(rng).tape().len() as int,
                    MAX_REJECTIONS as nat,
                ) == (r, final(rng).tape().len() as int),
            faithful::<T>() ==> spec_asked_between(
                final(rng).tape(),
                old(rng).tape().len() as int,
                final(rng).tape().len() as int,
                from_i32_of::<T>(-1i32),
                from_i32_of::<T>(1),
            ),
            faithful::<T>() && lt(from_i32_of::<T>(-1i32), from_i32_of::<T>(1))
                ==> spec_all_within(r, from_i32_of::<T>(-1i32), from_i32_of::<T>(1)),
    {
        vec3_in_unit_sphere(rng)
    }

    /// Draws a direction of unit length.
    pub fn random_unit_vector<R: RandomSource<T>>(rng: &mut Stream<T, R>) -> (r: Self)
        requires
            total::<T>(),
        ensures
            old(rng).leads_to(final(rng).tape()),
            faithful::<T>() ==> forall|f: Seq<Draw<T>>| #[trigger]
                final(rng).leads_to(f) ==> spec_random_unit_vector(
                    f,
                    old(rng).tape().len() as int,
                ) == (r, final(rng).tape().len() as int),
            faithful::<T>() ==> spec_asked_between(
                final(rng).tape(),
                old(rng).tape().len() as int,
                final(rng).tape().len() as int,
                from_i32_of::<T>(-1i32),
                from_i32_of::<T>(1),
            ),
    {
        Self::unit_vector(&Self::random_in_unit_shpere(rng))
    }

    /// Draws a direction of unit length on the side of `normal`.
    pub fn random_on_hemisphere<R: RandomSource<T>>(rng: &mut Stream<T, R>, normal: &Vec3<T>) -> (r:
        Self)
        requires
            total::<T>(),
        ensures
            old(rng).leads_to(final(rng).tape()),
            faithful::<T>() ==> forall|f: Seq<Draw<T>>| #[trigger]
                final(rng).leads_to(f) ==> spec_random_on_hemisphere(
                    *normal,
                    f,
                    old(rng).tape().len() as int,
                ) == (r, final(rng).tape().len() as int),
            faithful::<T>() ==> spec_asked_between(
                final(rng).tape(),
                old(rng).tape().len() as int,
                final(rng).tape().len() as int,
                from_i32_of::<T>(-1i32),
                from_i32_of::<T>(1),
            ),
    {
        let on_unit_sphere = Self::random_unit_vector(rng);
        if on_unit_sphere.dot(*normal) > T::from_i32(0) {
            on_unit_sphere
        } else {
            on_unit_sphere * T::from_i32(-1)
        }
    }
}

} // verus!
