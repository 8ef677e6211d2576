//! The bounding-volume hierarchy: a binary tree of boxes over a scene.

use crate::aabb::Aabb;
use crate::hittable::hit_record::HitRecord;
use crate::hittable::hittable_list::HittableList;
use crate::hittable::hittable_object::HittableObject;
use crate::interval::Interval;
use crate::random::index;
use crate::random::index_at;
use crate::random::lemma_tape_continues;
use crate::random::Draw;
use crate::random::RandomSource;
use crate::random::Stream;
use crate::ray::Ray;
use crate::scalar::faithful;
use crate::scalar::ge;
use crate::scalar::is_number;
use crate::scalar::le;
use crate::scalar::lt;
use crate::scalar::obeys_order;
use crate::scalar::ordered;
use crate::scalar::total;
use crate::scalar::Scalar;
use vstd::prelude::*;

verus! {

/// A node of the hierarchy: two objects, and the box around both.
#[derive(Debug)]
pub struct BvhNode<T: Scalar> {
    pub left: Box<HittableObject<T>>,
    pub right: Box<HittableObject<T>>,
    pub bbox: Aabb<T>,
}

/// A hierarchy as built, the list as the building left it, and the place on
/// the tape behind the random numbers that were used.
pub struct Built<T: Scalar> {
    pub node: BvhNode<T>,
    pub objects: Seq<HittableObject<T>>,
    pub next: int,
}

/// What an object is ordered by along `axis`: the lower bound of its box.
pub open spec fn spec_key<T: Scalar>(object: HittableObject<T>, axis: int) -> T {
    object.spec_bounding_box().spec_axis(axis).min
}

/// `x` put into `sorted` in front of the run of objects at its end whose
/// key is above that of `x`.
pub open spec fn spec_insert<T: Scalar>(
    sorted: Seq<HittableObject<T>>,
    x: HittableObject<T>,
    axis: int,
) -> Seq<HittableObject<T>>
    decreases sorted.len(),
{
    if sorted.len() == 0 {
        seq![x]
    } else if lt(spec_key(x, axis), spec_key(sorted.last(), axis)) {
        spec_insert(sorted.drop_last(), x, axis).push(sorted.last())
    } else {
        sorted.push(x)
    }
}

/// The objects ordered by their keys along `axis`, by inserting them one
/// after another; objects that do not compare keep their order.
pub open spec fn spec_sort<T: Scalar>(objects: Seq<HittableObject<T>>, axis: int) -> Seq<
    HittableObject<T>,
>
    decreases objects.len(),
{
    if objects.len() == 0 {
        objects
    } else {
        spec_insert(spec_sort(objects.drop_last(), axis), objects.last(), axis)
    }
}

/// The list with its part from `start` up to `end` sorted.
pub open spec fn spec_sort_range<T: Scalar>(
    objects: Seq<HittableObject<T>>,
    start: int,
    end: int,
    axis: int,
) -> Seq<HittableObject<T>> {
    objects.subrange(0, start) + spec_sort(objects.subrange(start, end), axis) + objects.subrange(
        end,
        objects.len() as int,
    )
}

/// Putting `x` at place `j` is what [`spec_insert`] does, where every
/// object from `j` on has a key above that of `x` and the one before `j`,
/// if there is one, has not.
pub proof fn lemma_insert_at<T: Scalar>(
    sorted: Seq<HittableObject<T>>,
    x: HittableObject<T>,
    axis: int,
    j: int,
)
    requires
        0 <= j <= sorted.len(),
        forall|k: int| j <= k < sorted.len() ==> lt(spec_key(x, axis), spec_key(sorted[k], axis)),
        j == 0 || !lt(spec_key(x, axis), spec_key(sorted[j - 1], axis)),
    ensures
        spec_insert(sorted, x, axis) == sorted.subrange(0, j).push(x) + sorted.subrange(
            j,
            sorted.len() as int,
        ),
    decreases sorted.len(),
{
    if sorted.len() == 0 {
        assert(sorted.subrange(0, j).push(x) + sorted.subrange(j, sorted.len() as int) =~= seq![x]);
    } else if j == sorted.len() {
        assert(sorted.subrange(0, j).push(x) + sorted.subrange(j, sorted.len() as int)
            =~= sorted.push(x));
    } else {
        let shorter = sorted.drop_last();
        lemma_insert_at(shorter, x, axis, j);
        assert(shorter.subrange(0, j) =~= sorted.subrange(0, j));
        assert((shorter.subrange(0, j).push(x) + shorter.subrange(j, shorter.len() as int)).push(
            sorted.last(),
        ) =~= sorted.subrange(0, j).push(x) + sorted.subrange(j, sorted.len() as int));
    }
}

/// Inserting adds the object and nothing else.
pub proof fn lemma_insert_permutes<T: Scalar>(
    sorted: Seq<HittableObject<T>>,
    x: HittableObject<T>,
    axis: int,
)
    ensures
        spec_insert(sorted, x, axis).to_multiset() == sorted.to_multiset().insert(x),
        spec_insert(sorted, x, axis).len() == sorted.len() + 1,
    decreases sorted.len(),
{
    broadcast use vstd::seq_lib::to_multiset_build;

    if sorted.len() == 0 {
        assert(seq![x] =~= sorted.push(x));
    } else if lt(spec_key(x, axis), spec_key(sorted.last(), axis)) {
        let shorter = sorted.drop_last();
        lemma_insert_permutes(shorter, x, axis);
        assert(sorted =~= shorter.push(sorted.last()));
        assert(shorter.to_multiset().insert(x).insert(sorted.last()) =~= shorter.to_multiset().insert(
            sorted.last(),
        ).insert(x));
    }
}

/// Sorting reorders: the sorted list holds each object as often as the
/// list it was made from.
pub proof fn lemma_sort_permutes<T: Scalar>(objects: Seq<HittableObject<T>>, axis: int)
    ensures
        spec_sort(objects, axis).to_multiset() == objects.to_multiset(),
        spec_sort(objects, axis).len() == objects.len(),
    decreases objects.len(),
{
    broadcast use vstd::seq_lib::to_multiset_build;

    if objects.len() > 0 {
        let shorter = objects.drop_last();
        lemma_sort_permutes(shorter, axis);
        lemma_insert_permutes(spec_sort(shorter, axis), objects.last(), axis);
        assert(objects =~= shorter.push(objects.last()));
    }
}

/// No object of the list stands before one whose key is lower.
pub open spec fn spec_in_order<T: Scalar>(objects: Seq<HittableObject<T>>, axis: int) -> bool {
    forall|i: int, j: int|
        0 <= i < j < objects.len() ==> le(
            spec_key(#[trigger] objects[i], axis),
            spec_key(#[trigger] objects[j], axis),
        )
}

/// Every key of the list along `axis` is a number.
pub open spec fn spec_keys_are_numbers<T: Scalar>(
    objects: Seq<HittableObject<T>>,
    axis: int,
) -> bool {
    forall|i: int| 0 <= i < objects.len() ==> is_number(spec_key(#[trigger] objects[i], axis))
}

/// Inserting into a list in order gives a list in order, where the keys
/// are numbers.
pub proof fn lemma_insert_keeps_order<T: Scalar>(
    sorted: Seq<HittableObject<T>>,
    x: HittableObject<T>,
    axis: int,
)
    requires
        ordered::<T>(),
        spec_in_order(sorted, axis),
        spec_keys_are_numbers(sorted, axis),
        is_number(spec_key(x, axis)),
    ensures
        spec_in_order(spec_insert(sorted, x, axis), axis),
        spec_keys_are_numbers(spec_insert(sorted, x, axis), axis),
    decreases sorted.len(),
{
    let result = spec_insert(sorted, x, axis);
    lemma_insert_permutes(sorted, x, axis);
    if sorted.len() == 0 {
    } else if lt(spec_key(x, axis), spec_key(sorted.last(), axis)) {
        let shorter = sorted.drop_last();
        let last = sorted.last();
        assert forall|i: int, j: int| 0 <= i < j < shorter.len() implies le(
            spec_key(#[trigger] shorter[i], axis),
            spec_key(#[trigger] shorter[j], axis),
        ) by {
            assert(shorter[i] == sorted[i] && shorter[j] == sorted[j]);
        }
        assert forall|i: int| 0 <= i < shorter.len() implies is_number(
            spec_key(#[trigger] shorter[i], axis),
        ) by {
            assert(shorter[i] == sorted[i]);
        }
        lemma_insert_keeps_order(shorter, x, axis);
        let inner = spec_insert(shorter, x, axis);
        lemma_insert_permutes(shorter, x, axis);
        assert(result == inner.push(last));
        assert(le(spec_key(x, axis), spec_key(last, axis)));
        assert forall|i: int| 0 <= i < inner.len() implies le(
            spec_key(#[trigger] inner[i], axis),
            spec_key(last, axis),
        ) by {
            lemma_below_after_insert(shorter, x, axis, spec_key(last, axis), i);
        }
        assert forall|i: int, j: int| 0 <= i < j < result.len() implies le(
            spec_key(#[trigger] result[i], axis),
            spec_key(#[trigger] result[j], axis),
        ) by {
            if j < inner.len() {
                assert(result[i] == inner[i] && result[j] == inner[j]);
            } else {
                assert(result[i] == inner[i]);
            }
        }
        assert forall|i: int| 0 <= i < result.len() implies is_number(
            spec_key(#[trigger] result[i], axis),
        ) by {
            if i < inner.len() {
                assert(result[i] == inner[i]);
            }
        }
    } else {
        let last = sorted.last();
        assert(result == sorted.push(x));
        assert(is_number(spec_key(last, axis)));
        assert(le(spec_key(x, axis), spec_key(last, axis)) || le(
            spec_key(last, axis),
            spec_key(x, axis),
        ));
        assert(ge(spec_key(x, axis), spec_key(last, axis)) <==> le(
            spec_key(last, axis),
            spec_key(x, axis),
        ));
        assert(le(spec_key(last, axis), spec_key(x, axis)));
        assert forall|i: int, j: int| 0 <= i < j < result.len() implies le(
            spec_key(#[trigger] result[i], axis),
            spec_key(#[trigger] result[j], axis),
        ) by {
            if j < sorted.len() {
                assert(result[i] == sorted[i] && result[j] == sorted[j]);
            } else {
                assert(result[i] == sorted[i]);
                if i < sorted.len() - 1 {
                    assert(le(spec_key(sorted[i], axis), spec_key(sorted[sorted.len() - 1], axis)));
                }
            }
        }
        assert forall|i: int| 0 <= i < result.len() implies is_number(
            spec_key(#[trigger] result[i], axis),
        ) by {
            if i < sorted.len() {
                assert(result[i] == sorted[i]);
            }
        }
    }
}

/// What lies at or below `k` before an insertion of an object at or
/// below `k` lies at or below `k` after it.
pub proof fn lemma_below_after_insert<T: Scalar>(
    sorted: Seq<HittableObject<T>>,
    x: HittableObject<T>,
    axis: int,
    k: T,
    i: int,
)
    requires
        forall|j: int| 0 <= j < sorted.len() ==> le(spec_key(#[trigger] sorted[j], axis), k),
        le(spec_key(x, axis), k),
        0 <= i < spec_insert(sorted, x, axis).len(),
    ensures
        le(spec_key(spec_insert(sorted, x, axis)[i], axis), k),
    decreases sorted.len(),
{
    lemma_insert_permutes(sorted, x, axis);
    if sorted.len() == 0 {
    } else if lt(spec_key(x, axis), spec_key(sorted.last(), axis)) {
        let shorter = sorted.drop_last();
        lemma_insert_permutes(shorter, x, axis);
        if i < shorter.len() + 1 {
            assert forall|j: int| 0 <= j < shorter.len() implies le(
                spec_key(#[trigger] shorter[j], axis),
                k,
            ) by {
                assert(shorter[j] == sorted[j]);
            }
            lemma_below_after_insert(shorter, x, axis, k, i);
        } else {
            assert(spec_insert(sorted, x, axis)[i] == sorted[sorted.len() - 1]);
        }
    } else {
        if i < sorted.len() {
            assert(spec_insert(sorted, x, axis)[i] == sorted[i]);
        }
    }
}

/// A sorted list is in order, where the keys are numbers.
pub proof fn lemma_sort_orders<T: Scalar>(objects: Seq<HittableObject<T>>, axis: int)
    requires
        ordered::<T>(),
        spec_keys_are_numbers(objects, axis),
    ensures
        spec_in_order(spec_sort(objects, axis), axis),
        spec_keys_are_numbers(spec_sort(objects, axis), axis),
    decreases objects.len(),
{
    if objects.len() > 0 {
        let shorter = objects.drop_last();
        assert forall|i: int| 0 <= i < shorter.len() implies is_number(
            spec_key(#[trigger] shorter[i], axis),
        ) by {
            assert(shorter[i] == objects[i]);
        }
        lemma_sort_orders(shorter, axis);
        assert(is_number(spec_key(objects[objects.len() - 1], axis)));
        lemma_insert_keeps_order(spec_sort(shorter, axis), objects.last(), axis);
    }
}

/// Sorting a part of a list reorders that part and leaves the rest where
/// it was.
pub proof fn lemma_sort_range_permutes<T: Scalar>(
    objects: Seq<HittableObject<T>>,
    start: int,
    end: int,
    axis: int,
)
    requires
        0 <= start <= end <= objects.len(),
    ensures
        spec_sort_range(objects, start, end, axis).len() == objects.len(),
        spec_sort_range(objects, start, end, axis).subrange(start, end).to_multiset()
            == objects.subrange(start, end).to_multiset(),
        forall|i: int|
            0 <= i < start || end <= i < objects.len() ==> spec_sort_range(
                objects,
                start,
                end,
                axis,
            )[i] == objects[i],
{
    let middle = spec_sort(objects.subrange(start, end), axis);
    lemma_sort_permutes(objects.subrange(start, end), axis);
    let sorted = spec_sort_range(objects, start, end, axis);
    assert(sorted.subrange(start, end) =~= middle);
}

impl<T: Scalar> BvhNode<T> {
    /// The node over `left` and `right`, in the box around both.
    pub open spec fn spec_over(left: HittableObject<T>, right: HittableObject<T>) -> Self {
        BvhNode {
            left: Box::new(left),
            right: Box::new(right),
            bbox: Aabb::spec_merge(left.spec_bounding_box(), right.spec_bounding_box()),
        }
    }

    /// The hierarchy over the objects from `start` up to `end`, with the
    /// axis of each node, a whole number asked below three, read from tape
    /// `f`, the first at place `at`.
    ///
    /// One object stands on both sides of its node. Of two, the one with
    /// the lower key along the axis stands left; where neither is lower,
    /// the second. More are sorted along the axis and halved, the left half
    /// the smaller where the number is odd, and each half gets a hierarchy
    /// of its own: first the left, then the right.
    pub open spec fn spec_build(
        objects: Seq<HittableObject<T>>,
        start: int,
        end: int,
        f: Seq<Draw<T>>,
        at: int,
    ) -> Built<T>
        decreases end - start,
    {
        let axis = index_at(f, at, 3) as int;
        if end - start <= 1 {
            Built { node: Self::spec_over(objects[start], objects[start]), objects, next: at + 1 }
        } else if end - start == 2 {
            if lt(spec_key(objects[start], axis), spec_key(objects[start + 1], axis)) {
                Built {
                    node: Self::spec_over(objects[start], objects[start + 1]),
                    objects,
                    next: at + 1,
                }
            } else {
                Built {
                    node: Self::spec_over(objects[start + 1], objects[start]),
                    objects,
                    next: at + 1,
                }
            }
        } else {
            let sorted = spec_sort_range(objects, start, end, axis);
            let mid = start + (end - start) / 2;
            let left = Self::spec_build(sorted, start, mid, f, at + 1);
            let right = Self::spec_build(left.objects, mid, end, f, left.next);
            Built {
                node: Self::spec_over(
                    HittableObject::BvhNode(left.node),
                    HittableObject::BvhNode(right.node),
                ),
                objects: right.objects,
                next: right.next,
            }
        }
    }

    /// Whether the key of object `i` along `axis` is below that of object
    /// `j`.
    fn key_below(objects: &Vec<HittableObject<T>>, i: usize, j: usize, axis: usize) -> (r: bool)
        requires
            i < objects.len(),
            j < objects.len(),
        ensures
            obeys_order::<T>() ==> r == lt(
                spec_key(objects@[i as int], axis as int),
                spec_key(objects@[j as int], axis as int),
            ),
    {
        objects[i].bounding_box().axis(axis).min < objects[j].bounding_box().axis(axis).min
    }

    /// Sorts the objects from `start` up to `end` by their keys along
    /// `axis`, in place.
    pub fn sort_range(objects: &mut Vec<HittableObject<T>>, start: usize, end: usize, axis: usize)
        requires
            start <= end <= old(objects).len(),
        ensures
            final(objects)@.len() == old(objects)@.len(),
            obeys_order::<T>() ==> final(objects)@ == spec_sort_range(
                old(objects)@,
                start as int,
                end as int,
                axis as int,
            ),
    {
        let ghost given = objects@;
        let mut i: usize = start;
        proof {
            assert(given.subrange(start as int, start as int) =~= Seq::empty());
            assert(spec_sort(given.subrange(start as int, start as int), axis as int)
                =~= Seq::empty());
            assert(objects@ =~= given.subrange(0, start as int) + spec_sort(
                given.subrange(start as int, i as int),
                axis as int,
            ) + given.subrange(i as int, given.len() as int));
        }
        while i < end
            invariant
                start <= i <= end <= objects.len(),
                objects@.len() == given.len(),
                obeys_order::<T>() ==> objects@ == given.subrange(0, start as int)
                    + spec_sort(given.subrange(start as int, i as int), axis as int)
                    + given.subrange(i as int, given.len() as int),
            decreases end - i,
        {
            let ghost before = objects@;
            let ghost sorted = spec_sort(given.subrange(start as int, i as int), axis as int);
            let mut j: usize = i;
            while j > start && Self::key_below(objects, i, j - 1, axis)
                invariant
                    start <= j <= i < objects.len(),
                    obeys_order::<T>() ==> forall|k: int|
                        j <= k < i ==> lt(
                            spec_key(objects@[i as int], axis as int),
                            #[trigger] spec_key(objects@[k], axis as int),
                        ),
                decreases j,
            {
                j = j - 1;
            }
            let x = objects.remove(i);
            objects.insert(j, x);
            proof {
                if obeys_order::<T>() {
                    let prefix = given.subrange(start as int, i as int);
                    let longer = given.subrange(start as int, i + 1);
                    assert(longer.drop_last() =~= prefix);
                    assert(longer.last() == x);
                    assert(sorted.len() == i - start) by {
                        assert(before.len() == given.len());
                    }
                    assert(forall|k: int| 0 <= k < sorted.len() ==> sorted[k] == before[start + k]);
                    lemma_insert_at(sorted, x, axis as int, j - start);
                    assert(objects@ =~= given.subrange(0, start as int) + spec_sort(
                        longer,
                        axis as int,
                    ) + given.subrange(i + 1, given.len() as int));
                }
            }
            i = i + 1;
        }
        proof {
            assert(given.subrange(start as int, end as int) == given.subrange(
                start as int,
                i as int,
            ));
        }
    }

    /// Builds the hierarchy over the objects from `start` up to `end`,
    /// reordering that part of the list on the way.
    pub fn build<R: RandomSource<T>>(
        objects: &mut Vec<HittableObject<T>>,
        start: usize,
        end: usize,
        rng: &mut Stream<T, R>,
    ) -> (node: Self)
        requires
            start < end <= old(objects).len(),
        ensures
            final(objects)@.len() == old(objects)@.len(),
            old(rng).leads_to(final(rng).tape()),
            obeys_order::<T>() ==> forall|f: Seq<Draw<T>>| #[trigger]
                final(rng).leads_to(f) ==> Self::spec_build(
                    old(objects)@,
                    start as int,
                    end as int,
                    f,
                    old(rng).tape().len() as int,
                ) == (Built {
                    node,
                    objects: final(objects)@,
                    next: final(rng).tape().len() as int,
                }),
        decreases end - start,
    {
        let ghost at = rng.tape().len() as int;
        let axis_index = index(rng, 3);
        let ghost first = *rng;
        proof {
            let tape = rng.tape();
            assert forall|f: Seq<Draw<T>>| #[trigger] rng.leads_to(f) implies index_at(f, at, 3)
                == axis_index by {
                assert(f[at] == tape[at]);
            }
        }
        let span = end - start;
        let (left, right) = if span == 1 {
            (objects[start].clone(), objects[start].clone())
        } else if span == 2 {
            if Self::key_below(objects, start, start + 1, axis_index) {
                (objects[start].clone(), objects[start + 1].clone())
            } else {
                (objects[start + 1].clone(), objects[start].clone())
            }
        } else {
            Self::sort_range(objects, start, end, axis_index);
            let mid = start + span / 2;
            let left = Self::build(objects, start, mid, rng);
            let ghost second = *rng;
            let right = Self::build(objects, mid, end, rng);
            proof {
                lemma_tape_continues(first.tape(), second.tape(), rng.tape());
                assert forall|f: Seq<Draw<T>>| #[trigger] rng.leads_to(f) implies first.leads_to(f)
                    && second.leads_to(f) by {
                    lemma_tape_continues(second.tape(), rng.tape(), f);
                    lemma_tape_continues(first.tape(), second.tape(), f);
                }
            }
            (HittableObject::BvhNode(left), HittableObject::BvhNode(right))
        };
        proof {
            lemma_tape_continues(old(rng).tape(), first.tape(), rng.tape());
            assert forall|f: Seq<Draw<T>>| #[trigger] rng.leads_to(f) implies first.leads_to(f) by {
                lemma_tape_continues(first.tape(), rng.tape(), f);
            }
        }
        let bbox = Aabb::new_with_boxes(left.bounding_box(), right.bounding_box());
        Self { left: Box::new(left), right: Box::new(right), bbox }
    }

    /// Builds the hierarchy over all of `src_objects`, which must not be
    /// empty.
    pub fn new_from_vector<R: RandomSource<T>>(
        src_objects: &mut Vec<HittableObject<T>>,
        rng: &mut Stream<T, R>,
    ) -> (node: Self)
        requires
            old(src_objects).len() > 0,
        ensures
            final(src_objects)@.len() == old(src_objects)@.len(),
            old(rng).leads_to(final(rng).tape()),
            obeys_order::<T>() ==> forall|f: Seq<Draw<T>>| #[trigger]
                final(rng).leads_to(f) ==> Self::spec_build(
                    old(src_objects)@,
                    0,
                    old(src_objects)@.len() as int,
                    f,
                    old(rng).tape().len() as int,
                ) == (Built {
                    node,
                    objects: final(src_objects)@,
                    next: final(rng).tape().len() as int,
                }),
    {
        let end = src_objects.len();
        Self::build(src_objects, 0, end, rng)
    }

    /// Builds the hierarchy over a list, which must not be empty.
    pub fn new<R: RandomSource<T>>(list: HittableList<T>, rng: &mut Stream<T, R>) -> (node: Self)
        requires
            list.objects@.len() > 0,
        ensures
            old(rng).leads_to(final(rng).tape()),
            obeys_order::<T>() ==> forall|f: Seq<Draw<T>>| #[trigger]
                final(rng).leads_to(f) ==> Self::spec_build(
                    list.objects@,
                    0,
                    list.objects@.len() as int,
                    f,
                    old(rng).tape().len() as int,
                ).node == node && Self::spec_build(
                    list.objects@,
                    0,
                    list.objects@.len() as int,
                    f,
                    old(rng).tape().len() as int,
                ).next == final(rng).tape().len(),
    {
        let mut list = list;
        Self::new_from_vector(&mut list.objects, rng)
    }

    /// Tests the box first. Past it, looks on the left, then on the right
    /// for a meeting no farther than the one found on the left.
    pub fn hit(&self, r: &Ray<T>, ray_t: Interval<T>, rec: &mut HitRecord<T>) -> (hit: bool)
        requires
            total::<T>(),
        ensures
            !hit ==> *final(rec) == *old(rec),
            faithful::<T>() ==> match HittableObject::BvhNode(*self).spec_hit(*r, ray_t) {
                Some(found) => hit && *final(rec) == found,
                None => !hit,
            },
        decreases self,
    {
        if !self.bbox.hit(r, ray_t) {
            return false;
        }
        let hit_left = self.left.hit(r, ray_t, rec);
        let hit_right = self.right.hit(
            r,
            Interval::new(
                ray_t.min,
                if hit_left {
                    rec.t
                } else {
                    ray_t.max
                },
            ),
            rec,
        );
        hit_left || hit_right
    }

    pub fn bounding_box(&self) -> (r: &Aabb<T>)
        ensures
            *r == self.bbox,
    {
        &self.bbox
    }
}

} // verus!
