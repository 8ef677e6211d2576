//! A scene as a plain list of objects.

use crate::aabb::Aabb;
use crate::hittable::hit_record::HitRecord;
use crate::hittable::hittable_object::HittableObject;
use crate::interval::Interval;
use crate::ray::Ray;
use crate::scalar::faithful;
use crate::scalar::is_number;
use crate::scalar::le;
use crate::scalar::obeys_order;
use crate::scalar::operations_are_functions;
use crate::scalar::ordered;
use crate::scalar::total;
use crate::scalar::Scalar;
use vstd::prelude::*;

verus! {

/// Objects in the order in which they were added, and the box around
/// them: empty for an empty list, and widened by the box of every object
/// that comes in.
pub struct HittableList<T: Scalar> {
    pub objects: Vec<HittableObject<T>>,
    pub bbox: Aabb<T>,
}

impl<T: Scalar> HittableList<T> {
    /// The list of one object, in the box of that object.
    pub fn new(object: HittableObject<T>) -> (r: Self)
        ensures
            r.objects@ == seq![object],
            r.bbox == object.spec_bounding_box(),
    {
        let bbox = *object.bounding_box();
        let mut objects = Vec::new();
        objects.push(object);
        Self { objects, bbox }
    }

    /// Adds an object at the end and widens the box by the object's box.
    pub fn add(&mut self, object: HittableObject<T>)
        ensures
            final(self).objects@ == old(self).objects@.push(object),
            obeys_order::<T>() ==> final(self).bbox == Aabb::spec_merge(
                old(self).bbox,
                object.spec_bounding_box(),
            ),
    {
        self.bbox = Aabb::new_with_boxes(&self.bbox, object.bounding_box());
        self.objects.push(object);
    }

    /// The objects, for reordering.
    pub fn objects(&mut self) -> (r: &mut Vec<HittableObject<T>>)
        ensures
            *r == old(self).objects,
            final(self).objects == *final(r),
            final(self).bbox == old(self).bbox,
    {
        &mut self.objects
    }

    /// The nearest meeting of `r` with one of the first `n` of `objects`
    /// within `ray_t`. Each object is asked for a meeting no farther than the
    /// nearest so far, and one that it finds takes the place of that.
    pub open spec fn spec_hit_among(
        objects: Seq<HittableObject<T>>,
        n: int,
        r: Ray<T>,
        ray_t: Interval<T>,
    ) -> Option<HitRecord<T>>
        decreases n,
    {
        if n <= 0 {
            None
        } else {
            let before = Self::spec_hit_among(objects, n - 1, r, ray_t);
            let closest_so_far = match before {
                Some(found) => found.t,
                None => ray_t.max,
            };
            match objects[n - 1].spec_hit(r, Interval { min: ray_t.min, max: closest_so_far }) {
                Some(found) => Some(found),
                None => before,
            }
        }
    }

    /// The box `bbox` reaches around the box of every one of `objects`.
    pub open spec fn spec_covers_all(objects: Seq<HittableObject<T>>, bbox: Aabb<T>) -> bool {
        forall|i: int|
            0 <= i < objects.len() ==> bbox.spec_covers(
                (#[trigger] objects[i]).spec_bounding_box(),
            )
    }

    /// The box of a list reaches around the boxes of all its objects: the
    /// box of a new list around that of its one object, where that is made
    /// of numbers.
    pub proof fn lemma_new_covers(object: HittableObject<T>)
        requires
            ordered::<T>(),
            object.spec_bounding_box().spec_bounded_by_numbers(),
        ensures
            Self::spec_covers_all(seq![object], object.spec_bounding_box()),
    {
    }

    /// The box of a list reaches around the boxes of all its objects: where
    /// it did before an object was added, it does after, the boxes being
    /// made of numbers.
    pub proof fn lemma_add_covers(
        objects: Seq<HittableObject<T>>,
        bbox: Aabb<T>,
        object: HittableObject<T>,
    )
        requires
            ordered::<T>(),
            bbox.spec_bounded_by_numbers(),
            object.spec_bounding_box().spec_bounded_by_numbers(),
            Self::spec_covers_all(objects, bbox),
        ensures
            Self::spec_covers_all(
                objects.push(object),
                Aabb::spec_merge(bbox, object.spec_bounding_box()),
            ),
            Aabb::spec_merge(bbox, object.spec_bounding_box()).spec_bounded_by_numbers(),
    {
        let merged = Aabb::spec_merge(bbox, object.spec_bounding_box());
        Aabb::lemma_merge_covers(bbox, object.spec_bounding_box());
        assert forall|i: int| 0 <= i < objects.push(object).len() implies merged.spec_covers(
            (#[trigger] objects.push(object)[i]).spec_bounding_box(),
        ) by {
            if i < objects.len() {
                assert(objects.push(object)[i] == objects[i]);
                assert(bbox.spec_covers(objects[i].spec_bounding_box()));
            }
        }
    }

    /// How far the search still reaches after `found`: to the meeting found,
    /// or to the end of `ray_t` where there is none.
    pub open spec fn spec_closest(found: Option<HitRecord<T>>, ray_t: Interval<T>) -> T {
        match found {
            Some(record) => record.t,
            None => ray_t.max,
        }
    }

    /// Searching the first `n` objects of a list does not look at the
    /// objects behind them.
    pub proof fn lemma_search_ignores_the_rest(
        a: Seq<HittableObject<T>>,
        b: Seq<HittableObject<T>>,
        n: int,
        r: Ray<T>,
        ray_t: Interval<T>,
    )
        requires
            0 <= n <= a.len(),
        ensures
            Self::spec_hit_among(a + b, n, r, ray_t) == Self::spec_hit_among(a, n, r, ray_t),
        decreases n,
    {
        if n > 0 {
            Self::lemma_search_ignores_the_rest(a, b, n - 1, r, ray_t);
            assert((a + b)[n - 1] == a[n - 1]);
        }
    }

    /// Searching two lists one after the other is searching the second for
    /// a meeting no farther than what the first gave, and keeping what the
    /// first gave where the second gives nothing.
    pub proof fn lemma_search_continues(
        a: Seq<HittableObject<T>>,
        b: Seq<HittableObject<T>>,
        k: int,
        r: Ray<T>,
        ray_t: Interval<T>,
    )
        requires
            0 <= k <= b.len(),
        ensures
            Self::spec_hit_among(a + b, a.len() + k, r, ray_t) == ({
                let first = Self::spec_hit_among(a, a.len() as int, r, ray_t);
                match Self::spec_hit_among(
                    b,
                    k,
                    r,
                    Interval { min: ray_t.min, max: Self::spec_closest(first, ray_t) },
                ) {
                    Some(found) => Some(found),
                    None => first,
                }
            }),
        decreases k,
    {
        if k == 0 {
            Self::lemma_search_ignores_the_rest(a, b, a.len() as int, r, ray_t);
        } else {
            Self::lemma_search_continues(a, b, k - 1, r, ray_t);
            assert((a + b)[a.len() + k - 1] == b[k - 1]);
        }
    }

    /// `object` answers a shorter search as it answers the search within
    /// `ray_t`: with the same meeting where that lies within reach, with
    /// none where it does not; and its meeting lies within `ray_t`.
    pub open spec fn spec_steady(object: HittableObject<T>, r: Ray<T>, ray_t: Interval<T>) -> bool {
        let full = object.spec_hit(r, ray_t);
        &&& full matches Some(found) ==> le(found.t, ray_t.max)
        &&& forall|end: T|
            le(end, ray_t.max) ==> {
                let short = #[trigger] object.spec_hit(r, Interval { min: ray_t.min, max: end });
                match full {
                    None => short is None,
                    Some(found) => if le(found.t, end) {
                        short == Some(found)
                    } else {
                        short is None
                    },
                }
            }
    }

    /// Every one of the first `n` objects is steady.
    pub open spec fn spec_all_steady(
        objects: Seq<HittableObject<T>>,
        n: int,
        r: Ray<T>,
        ray_t: Interval<T>,
    ) -> bool {
        forall|i: int| 0 <= i < n ==> Self::spec_steady(#[trigger] objects[i], r, ray_t)
    }

    /// No two different meetings of `r` with objects of the list lie
    /// equally far.
    pub open spec fn spec_no_ties(
        objects: Seq<HittableObject<T>>,
        r: Ray<T>,
        ray_t: Interval<T>,
    ) -> bool {
        forall|i: int, j: int|
            0 <= i < objects.len() && 0 <= j < objects.len() ==> match (
                (#[trigger] objects[i]).spec_hit(r, ray_t),
                (#[trigger] objects[j]).spec_hit(r, ray_t),
            ) {
                (Some(p), Some(q)) => le(p.t, q.t) && le(q.t, p.t) ==> p == q,
                _ => true,
            }
    }

    /// A search of steady objects finds a nearest meeting: the meeting of
    /// one of the objects with the ray within `ray_t`, no farther than the
    /// meeting of any other; and none exactly where no object has one.
    pub proof fn lemma_search_finds_nearest(
        objects: Seq<HittableObject<T>>,
        n: int,
        r: Ray<T>,
        ray_t: Interval<T>,
    )
        requires
            ordered::<T>(),
            0 <= n <= objects.len(),
            Self::spec_all_steady(objects, n, r, ray_t),
        ensures
            match Self::spec_hit_among(objects, n, r, ray_t) {
                None => forall|i: int|
                    0 <= i < n ==> (#[trigger] objects[i]).spec_hit(r, ray_t) is None,
                Some(found) => {
                    &&& le(found.t, ray_t.max)
                    &&& exists|i: int|
                        0 <= i < n && (#[trigger] objects[i]).spec_hit(r, ray_t) == Some(found)
                    &&& forall|j: int|
                        0 <= j < n ==> ((#[trigger] objects[j]).spec_hit(r, ray_t) matches Some(
                            other,
                        ) ==> le(found.t, other.t))
                },
            },
        decreases n,
    {
        if n > 0 {
            Self::lemma_search_finds_nearest(objects, n - 1, r, ray_t);
            let before = Self::spec_hit_among(objects, n - 1, r, ray_t);
            let object = objects[n - 1];
            let full = object.spec_hit(r, ray_t);
            let end = Self::spec_closest(before, ray_t);
            let short = object.spec_hit(r, Interval { min: ray_t.min, max: end });
            assert(Self::spec_steady(object, r, ray_t));
            match before {
                None => {
                    assert(Interval { min: ray_t.min, max: end } == ray_t);
                    match full {
                        None => {},
                        Some(found) => {
                            assert(object.spec_hit(r, ray_t) == Some(found));
                            assert(is_number(found.t));
                        },
                    }
                },
                Some(nearest) => {
                    let i = choose|i: int|
                        0 <= i < n - 1 && (#[trigger] objects[i]).spec_hit(r, ray_t) == Some(
                            nearest,
                        );
                    assert(is_number(nearest.t));
                    match full {
                        None => {},
                        Some(found) => {
                            assert(is_number(found.t));
                            if le(found.t, end) {
                                assert(short == Some(found));
                                assert(object.spec_hit(r, ray_t) == Some(found));
                                assert forall|j: int| 0 <= j < n implies ((
                                #[trigger] objects[j]).spec_hit(r, ray_t) matches Some(other)
                                    ==> le(found.t, other.t)) by {
                                    if j < n - 1 {
                                        if let Some(other) = objects[j].spec_hit(r, ray_t) {
                                            assert(le(nearest.t, other.t));
                                        }
                                    }
                                }
                            } else {
                                assert(short is None);
                                assert(le(nearest.t, found.t));
                                assert(objects[i].spec_hit(r, ray_t) == Some(nearest));
                            }
                        },
                    }
                },
            }
        }
    }

    /// Where no two meetings lie equally far, a search of steady objects
    /// finds the same whatever the order of the objects: two lists that
    /// hold the same objects give the same meeting, or both none.
    pub proof fn lemma_search_ignores_order(
        a: Seq<HittableObject<T>>,
        b: Seq<HittableObject<T>>,
        r: Ray<T>,
        ray_t: Interval<T>,
    )
        requires
            ordered::<T>(),
            Self::spec_all_steady(a, a.len() as int, r, ray_t),
            Self::spec_no_ties(a, r, ray_t),
            forall|x: HittableObject<T>| a.contains(x) <==> b.contains(x),
        ensures
            Self::spec_hit_among(a, a.len() as int, r, ray_t) == Self::spec_hit_among(
                b,
                b.len() as int,
                r,
                ray_t,
            ),
    {
        assert forall|i: int| 0 <= i < b.len() implies Self::spec_steady(
            #[trigger] b[i],
            r,
            ray_t,
        ) by {
            assert(b.contains(b[i]));
            let k = choose|k: int| 0 <= k < a.len() && a[k] == b[i];
            assert(Self::spec_steady(a[k], r, ray_t));
        }
        Self::lemma_search_finds_nearest(a, a.len() as int, r, ray_t);
        Self::lemma_search_finds_nearest(b, b.len() as int, r, ray_t);
        let in_a = Self::spec_hit_among(a, a.len() as int, r, ray_t);
        let in_b = Self::spec_hit_among(b, b.len() as int, r, ray_t);
        match in_a {
            None => {
                if let Some(found) = in_b {
                    let j = choose|j: int|
                        0 <= j < b.len() && (#[trigger] b[j]).spec_hit(r, ray_t) == Some(found);
                    assert(b.contains(b[j]));
                    let k = choose|k: int| 0 <= k < a.len() && a[k] == b[j];
                    assert(a[k].spec_hit(r, ray_t) is None);
                }
            },
            Some(p) => {
                let i = choose|i: int|
                    0 <= i < a.len() && (#[trigger] a[i]).spec_hit(r, ray_t) == Some(p);
                assert(a.contains(a[i]));
                let i2 = choose|k: int| 0 <= k < b.len() && b[k] == a[i];
                assert(b[i2].spec_hit(r, ray_t) == Some(p));
                match in_b {
                    None => {},
                    Some(q) => {
                        let j = choose|j: int|
                            0 <= j < b.len() && (#[trigger] b[j]).spec_hit(r, ray_t) == Some(q);
                        assert(b.contains(b[j]));
                        let j2 = choose|k: int| 0 <= k < a.len() && a[k] == b[j];
                        assert(a[j2].spec_hit(r, ray_t) == Some(q));
                        assert(le(p.t, q.t));
                        assert(le(q.t, p.t));
                        assert(a[i].spec_hit(r, ray_t) == Some(p));
                    },
                }
            },
        }
    }

    /// The nearest meeting of `r` with an object of the list within `ray_t`.
    pub open spec fn spec_hit(self, r: Ray<T>, ray_t: Interval<T>) -> Option<HitRecord<T>> {
        Self::spec_hit_among(self.objects@, self.objects@.len() as int, r, ray_t)
    }

    /// Looks for the nearest meeting within `ray_t`. Where there is one it
    /// is written to `rec`; where there is none `rec` stays as it was.
    pub fn hit(&self, r: &Ray<T>, ray_t: Interval<T>, rec: &mut HitRecord<T>) -> (hit: bool)
        requires
            total::<T>(),
        ensures
            !hit ==> *final(rec) == *old(rec),
            faithful::<T>() ==> match self.spec_hit(*r, ray_t) {
                Some(found) => hit && *final(rec) == found,
                None => !hit,
            },
    {
        let mut temp_record = HitRecord::default();
        let mut hit_anything = false;
        let mut closest_so_far = ray_t.max();

        let mut i: usize = 0;
        while i < self.objects.len()
            invariant
                total::<T>(),
                i <= self.objects.len(),
                !hit_anything ==> *rec == *old(rec) && closest_so_far == ray_t.max,
                faithful::<T>() ==> match Self::spec_hit_among(
                    self.objects@,
                    i as int,
                    *r,
                    ray_t,
                ) {
                    Some(found) => hit_anything && *rec == found && closest_so_far == found.t,
                    None => !hit_anything,
                },
            decreases self.objects.len() - i,
        {
            if self.objects[i].hit(r, Interval::new(ray_t.min(), closest_so_far), &mut temp_record) {
                hit_anything = true;
                closest_so_far = temp_record.t;
                *rec = temp_record.clone();
            }
            i = i + 1;
        }
        hit_anything
    }

    pub fn bounding_box(&self) -> (r: &Aabb<T>)
        ensures
            *r == self.bbox,
    {
        &self.bbox
    }
}

impl<T: Scalar> Default for HittableList<T> {
    fn default() -> (r: Self)
        ensures
            r.objects@ == Seq::<HittableObject<T>>::empty(),
            operations_are_functions::<T>() ==> r.bbox == Aabb::<T>::spec_empty(),
    {
        Self { objects: Vec::new(), bbox: Aabb::default() }
    }
}

} // verus!
