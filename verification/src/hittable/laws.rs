//! What holds of a hierarchy: its leaves are the objects it was built
//! over, its boxes keep their word, and a ray finds in it what it finds
//! in the list.

use crate::aabb::Aabb;
use crate::hittable::hittable_list::HittableList;
use crate::hittable::hittable_object::bvh_node::lemma_sort_range_permutes;
use crate::hittable::hittable_object::bvh_node::spec_sort_range;
use crate::hittable::hittable_object::bvh_node::BvhNode;
use crate::hittable::hittable_object::HittableObject;
use crate::interval::Interval;
use crate::random::index_at;
use crate::random::Draw;
use crate::ray::Ray;
use crate::scalar::arithmetic_is_monotone;
use crate::scalar::is_number;
use crate::scalar::ordered;
use crate::scalar::Scalar;
use vstd::prelude::*;

verus! {

/// The objects at the leaves of `object`, from left to right. An object
/// that is no hierarchy is its own only leaf.
pub open spec fn spec_leaves<T: Scalar>(object: HittableObject<T>) -> Seq<HittableObject<T>>
    decreases object,
{
    match object {
        HittableObject::Sphere(_) => seq![object],
        HittableObject::BvhNode(node) => spec_leaves(*node.left) + spec_leaves(*node.right),
    }
}

/// The boxes of `object` keep their word for the ray `r` and meetings past
/// `start`: wherever the ray misses the box of a node, however far the
/// search reaches, it meets neither child of that node.
pub open spec fn spec_boxes_bound<T: Scalar>(object: HittableObject<T>, r: Ray<T>, start: T) -> bool
    decreases object,
{
    match object {
        HittableObject::Sphere(_) => true,
        HittableObject::BvhNode(node) => {
            &&& spec_boxes_bound(*node.left, r, start)
            &&& spec_boxes_bound(*node.right, r, start)
            &&& forall|end: T|
                !(#[trigger] node.bbox.spec_hit(r, Interval { min: start, max: end })) ==> {
                    &&& node.left.spec_hit(r, Interval { min: start, max: end }) is None
                    &&& node.right.spec_hit(r, Interval { min: start, max: end }) is None
                }
        },
    }
}

/// Going through a hierarchy whose boxes keep their word finds what a
/// search of its leaves one by one, from left to right, finds: the same
/// meeting, or none.
pub proof fn lemma_hierarchy_is_search<T: Scalar>(
    object: HittableObject<T>,
    r: Ray<T>,
    ray_t: Interval<T>,
)
    requires
        spec_boxes_bound(object, r, ray_t.min),
    ensures
        object.spec_hit(r, ray_t) == HittableList::spec_hit_among(
            spec_leaves(object),
            spec_leaves(object).len() as int,
            r,
            ray_t,
        ),
    decreases object,
{
    match object {
        HittableObject::Sphere(_) => {
            let leaves = spec_leaves(object);
            assert(leaves.len() == 1);
            assert(leaves[0] == object);
            assert(HittableList::spec_hit_among(leaves, 0, r, ray_t) is None);
            assert(Interval { min: ray_t.min, max: ray_t.max } == ray_t);
        },
        HittableObject::BvhNode(node) => {
            let left = spec_leaves(*node.left);
            let right = spec_leaves(*node.right);
            let on_left = node.left.spec_hit(r, ray_t);
            let rest = Interval { min: ray_t.min, max: HittableList::spec_closest(on_left, ray_t) };
            lemma_hierarchy_is_search(*node.left, r, ray_t);
            lemma_hierarchy_is_search(*node.right, r, rest);
            HittableList::lemma_search_continues(left, right, right.len() as int, r, ray_t);
            if !node.bbox.spec_hit(r, ray_t) {
                assert(ray_t == Interval { min: ray_t.min, max: ray_t.max });
                assert(rest == ray_t);
            }
        },
    }
}

/// The box of every node of `object` is the merge of the boxes of the two
/// objects below it.
pub open spec fn spec_well_formed<T: Scalar>(object: HittableObject<T>) -> bool
    decreases object,
{
    match object {
        HittableObject::Sphere(_) => true,
        HittableObject::BvhNode(node) => {
            &&& spec_well_formed(*node.left)
            &&& spec_well_formed(*node.right)
            &&& node.bbox == Aabb::spec_merge(
                node.left.spec_bounding_box(),
                node.right.spec_bounding_box(),
            )
        },
    }
}

/// The box of `object` is made of numbers, its slab tests for `r` are in
/// numbers, and it keeps its word for `r` and meetings past `start`:
/// wherever the ray misses the box, it misses the object.
pub open spec fn spec_fits<T: Scalar>(object: HittableObject<T>, r: Ray<T>, start: T) -> bool {
    &&& object.spec_bounding_box().spec_bounded_by_numbers()
    &&& object.spec_bounding_box().spec_slabs_in_numbers(r)
    &&& forall|end: T|
        !(#[trigger] object.spec_bounding_box().spec_hit(r, Interval { min: start, max: end }))
            ==> object.spec_hit(r, Interval { min: start, max: end }) is None
}

/// In a hierarchy whose nodes have the merged boxes of what is below them
/// and whose leaves fit their boxes, every box keeps its word, and so does
/// the box of the whole: wherever the ray misses it, it meets nothing
/// below.
pub proof fn lemma_boxes_bound<T: Scalar>(object: HittableObject<T>, r: Ray<T>, start: T)
    requires
        ordered::<T>(),
        arithmetic_is_monotone::<T>(),
        is_number(start),
        spec_well_formed(object),
        forall|i: int|
            0 <= i < spec_leaves(object).len() ==> spec_fits(
                #[trigger] spec_leaves(object)[i],
                r,
                start,
            ),
    ensures
        spec_boxes_bound(object, r, start),
        spec_fits(object, r, start),
    decreases object,
{
    match object {
        HittableObject::Sphere(_) => {
            assert(spec_leaves(object)[0] == object);
        },
        HittableObject::BvhNode(node) => {
            let left = *node.left;
            let right = *node.right;
            let on_left = spec_leaves(left);
            let on_right = spec_leaves(right);
            assert forall|i: int| 0 <= i < on_left.len() implies spec_fits(
                #[trigger] on_left[i],
                r,
                start,
            ) by {
                assert(spec_leaves(object)[i] == on_left[i]);
            }
            assert forall|i: int| 0 <= i < on_right.len() implies spec_fits(
                #[trigger] on_right[i],
                r,
                start,
            ) by {
                assert(spec_leaves(object)[on_left.len() + i] == on_right[i]);
            }
            lemma_boxes_bound(left, r, start);
            lemma_boxes_bound(right, r, start);
            let left_box = left.spec_bounding_box();
            let right_box = right.spec_bounding_box();
            Aabb::lemma_merge_covers(left_box, right_box);
            Aabb::lemma_merge_slabs_in_numbers(left_box, right_box, r);
            assert forall|end: T|
                !(#[trigger] node.bbox.spec_hit(r, Interval { min: start, max: end })) implies {
                &&& node.left.spec_hit(r, Interval { min: start, max: end }) is None
                &&& node.right.spec_hit(r, Interval { min: start, max: end }) is None
            } by {
                let ray_t = Interval { min: start, max: end };
                if is_number(end) {
                    if left_box.spec_hit(r, ray_t) {
                        node.bbox.lemma_covering_box_is_hit(left_box, r, ray_t);
                    }
                    if right_box.spec_hit(r, ray_t) {
                        node.bbox.lemma_covering_box_is_hit(right_box, r, ray_t);
                    }
                } else {
                    node.bbox.lemma_endless_is_hit_from(r, 0, ray_t);
                }
            }
        },
    }
}

/// Every object from `start` up to `end` is a sphere.
pub open spec fn spec_all_spheres<T: Scalar>(
    objects: Seq<HittableObject<T>>,
    start: int,
    end: int,
) -> bool {
    forall|i: int| start <= i < end ==> #[trigger] objects[i] is Sphere
}

/// A list joined from two holds what either holds.
pub proof fn lemma_joined_contains<A>(a: Seq<A>, b: Seq<A>, x: A)
    ensures
        (a + b).contains(x) <==> a.contains(x) || b.contains(x),
{
    if a.contains(x) {
        let i = choose|i: int| 0 <= i < a.len() && a[i] == x;
        assert((a + b)[i] == x);
    }
    if b.contains(x) {
        let i = choose|i: int| 0 <= i < b.len() && b[i] == x;
        assert((a + b)[a.len() + i] == x);
    }
    if (a + b).contains(x) {
        let i = choose|i: int| 0 <= i < (a + b).len() && (a + b)[i] == x;
        if i < a.len() {
            assert(a[i] == x);
        } else {
            assert(b[i - a.len()] == x);
        }
    }
}

/// Lists that hold each object equally often hold the same objects.
pub proof fn lemma_permutation_contains<A>(a: Seq<A>, b: Seq<A>, x: A)
    requires
        a.to_multiset() == b.to_multiset(),
    ensures
        a.contains(x) <==> b.contains(x),
{
    vstd::seq_lib::to_multiset_contains(a, x);
    vstd::seq_lib::to_multiset_contains(b, x);
}

/// A list of one object holds that object only.
pub proof fn lemma_single_contains<A>(a: A, x: A)
    ensures
        seq![a].contains(x) <==> x == a,
{
    assert(seq![a][0] == a);
}

/// Building a hierarchy over spheres reorders the part of the list it is
/// built over and leaves the rest where it was; and the leaves of the
/// hierarchy are the objects of that part, all of them and no others.
pub proof fn lemma_build_keeps<T: Scalar>(
    objects: Seq<HittableObject<T>>,
    start: int,
    end: int,
    f: Seq<Draw<T>>,
    at: int,
)
    requires
        0 <= start < end <= objects.len(),
        spec_all_spheres(objects, start, end),
    ensures
        ({
            let built = BvhNode::spec_build(objects, start, end, f, at);
            &&& built.objects.len() == objects.len()
            &&& built.objects.subrange(start, end).to_multiset() == objects.subrange(
                start,
                end,
            ).to_multiset()
            &&& forall|i: int|
                0 <= i < start || end <= i < objects.len() ==> built.objects[i] == objects[i]
            &&& forall|x: HittableObject<T>|
                spec_leaves(HittableObject::BvhNode(built.node)).contains(x)
                    <==> objects.subrange(start, end).contains(x)
            &&& built.next > at
            &&& spec_well_formed(HittableObject::BvhNode(built.node))
        }),
    decreases end - start,
{
    let built = BvhNode::spec_build(objects, start, end, f, at);
    let part = objects.subrange(start, end);
    let axis = index_at(f, at, 3) as int;
    if end - start == 1 {
        let only = objects[start];
        assert(only is Sphere);
        assert(part =~= seq![only]);
        assert(spec_leaves(only) == seq![only]);
        assert(spec_well_formed(only));
        assert(spec_well_formed(HittableObject::BvhNode(built.node)));
        assert(spec_leaves(HittableObject::BvhNode(built.node)) == seq![only] + seq![only]);
        assert forall|x: HittableObject<T>|
            spec_leaves(HittableObject::BvhNode(built.node)).contains(x) <==> part.contains(
                x,
            ) by {
            lemma_joined_contains(seq![only], seq![only], x);
            lemma_single_contains(only, x);
        }
    } else if end - start == 2 {
        let first = objects[start];
        let second = objects[start + 1];
        assert(first is Sphere);
        assert(second is Sphere);
        assert(part =~= seq![first] + seq![second]);
        assert(spec_leaves(first) == seq![first]);
        assert(spec_leaves(second) == seq![second]);
        assert(spec_well_formed(first));
        assert(spec_well_formed(second));
        assert(spec_well_formed(HittableObject::BvhNode(built.node)));
        assert(spec_leaves(HittableObject::BvhNode(built.node)) == seq![first] + seq![second]
            || spec_leaves(HittableObject::BvhNode(built.node)) == seq![second] + seq![first]);
        assert forall|x: HittableObject<T>|
            spec_leaves(HittableObject::BvhNode(built.node)).contains(x) <==> part.contains(
                x,
            ) by {
            lemma_joined_contains(seq![first], seq![second], x);
            lemma_joined_contains(seq![second], seq![first], x);
            lemma_single_contains(first, x);
            lemma_single_contains(second, x);
        }
    } else {
        let sorted = spec_sort_range(objects, start, end, axis);
        let mid = start + (end - start) / 2;
        lemma_sort_range_permutes(objects, start, end, axis);
        let sorted_part = sorted.subrange(start, end);
        assert forall|i: int| start <= i < end implies #[trigger] sorted[i] is Sphere by {
            assert(sorted_part[i - start] == sorted[i]);
            assert(sorted_part.contains(sorted[i]));
            lemma_permutation_contains(sorted_part, part, sorted[i]);
            let k = choose|k: int| 0 <= k < part.len() && part[k] == sorted[i];
            assert(objects[start + k] is Sphere);
        }
        let left = BvhNode::spec_build(sorted, start, mid, f, at + 1);
        lemma_build_keeps(sorted, start, mid, f, at + 1);
        assert forall|i: int| mid <= i < end implies #[trigger] left.objects[i] is Sphere by {
            assert(left.objects[i] == sorted[i]);
        }
        let right = BvhNode::spec_build(left.objects, mid, end, f, left.next);
        lemma_build_keeps(left.objects, mid, end, f, left.next);

        assert(spec_well_formed(HittableObject::BvhNode(built.node)));
        let low = right.objects.subrange(start, mid);
        let high = right.objects.subrange(mid, end);
        assert(low =~= left.objects.subrange(start, mid));
        assert(left.objects.subrange(mid, end) =~= sorted.subrange(mid, end));
        assert(built.objects.subrange(start, end) =~= low + high);
        assert(sorted_part =~= sorted.subrange(start, mid) + sorted.subrange(mid, end));
        vstd::seq_lib::lemma_multiset_commutative(low, high);
        vstd::seq_lib::lemma_multiset_commutative(
            sorted.subrange(start, mid),
            sorted.subrange(mid, end),
        );
        assert forall|x: HittableObject<T>|
            spec_leaves(HittableObject::BvhNode(built.node)).contains(x) <==> part.contains(
                x,
            ) by {
            lemma_joined_contains(
                spec_leaves(HittableObject::BvhNode(left.node)),
                spec_leaves(HittableObject::BvhNode(right.node)),
                x,
            );
            lemma_joined_contains(sorted.subrange(start, mid), sorted.subrange(mid, end), x);
            lemma_permutation_contains(sorted_part, part, x);
        }
    }
}

/// For every sphere of the list the two solutions for `r` come in order.
pub open spec fn spec_all_roots_in_order<T: Scalar>(
    objects: Seq<HittableObject<T>>,
    r: Ray<T>,
) -> bool {
    forall|i: int|
        0 <= i < objects.len() ==> match #[trigger] objects[i] {
            HittableObject::Sphere(sphere) => sphere.spec_roots_in_order(r),
            HittableObject::BvhNode(_) => true,
        }
}

/// Every sphere of the list fits its box for `r` and meetings past `start`.
pub open spec fn spec_all_fit<T: Scalar>(
    objects: Seq<HittableObject<T>>,
    r: Ray<T>,
    start: T,
) -> bool {
    forall|i: int| 0 <= i < objects.len() ==> spec_fits(#[trigger] objects[i], r, start)
}

/// Through the hierarchy or one by one, a ray finds the same: the
/// hierarchy built over a list of spheres gives for a ray the meeting that
/// the search of the list gives, or none where that gives none.
///
/// This holds of a ray that misses every sphere whose box it misses, for
/// which the two solutions of every sphere come in order, and which meets
/// no two spheres equally far; with boxes and slab tests in numbers, and
/// scalars whose comparisons order them as a line and whose arithmetic is
/// monotone.
pub proof fn lemma_hierarchy_finds_what_the_list_finds<T: Scalar>(
    objects: Seq<HittableObject<T>>,
    f: Seq<Draw<T>>,
    at: int,
    r: Ray<T>,
    ray_t: Interval<T>,
)
    requires
        ordered::<T>(),
        arithmetic_is_monotone::<T>(),
        is_number(ray_t.min),
        objects.len() > 0,
        spec_all_spheres(objects, 0, objects.len() as int),
        spec_all_fit(objects, r, ray_t.min),
        spec_all_roots_in_order(objects, r),
        HittableList::spec_no_ties(objects, r, ray_t),
    ensures
        HittableObject::BvhNode(
            BvhNode::spec_build(objects, 0, objects.len() as int, f, at).node,
        ).spec_hit(r, ray_t) == HittableList::spec_hit_among(
            objects,
            objects.len() as int,
            r,
            ray_t,
        ),
{
    let tree = HittableObject::BvhNode(
        BvhNode::spec_build(objects, 0, objects.len() as int, f, at).node,
    );
    let leaves = spec_leaves(tree);
    lemma_build_keeps(objects, 0, objects.len() as int, f, at);
    assert(objects.subrange(0, objects.len() as int) =~= objects);
    assert forall|i: int| 0 <= i < leaves.len() implies spec_fits(
        #[trigger] leaves[i],
        r,
        ray_t.min,
    ) by {
        assert(leaves.contains(leaves[i]));
        let k = choose|k: int| 0 <= k < objects.len() && objects[k] == leaves[i];
        assert(spec_fits(objects[k], r, ray_t.min));
    }
    lemma_boxes_bound(tree, r, ray_t.min);
    lemma_hierarchy_is_search(tree, r, ray_t);
    assert forall|i: int| 0 <= i < objects.len() implies HittableList::spec_steady(
        #[trigger] objects[i],
        r,
        ray_t,
    ) by {
        match objects[i] {
            HittableObject::Sphere(sphere) => {
                sphere.lemma_steady(r, ray_t);
            },
            HittableObject::BvhNode(_) => {},
        }
    }
    HittableList::lemma_search_ignores_order(objects, leaves, r, ray_t);
}

} // verus!
