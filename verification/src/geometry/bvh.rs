use vstd::prelude::*;
use std::sync::Arc;
use vstd::seq_lib::lemma_multiset_commutative;
use crate::geometry::{hok, object_bbox_spec, Aabb, Hittable};
use crate::ray::Ray;
use crate::shared::arc_clone;

verus! {

/// An internal node of the bounding volume hierarchy: two subtrees and the
/// union of their boxes.
pub struct BvhAggregate {
    pub left: Arc<Hittable>,
    pub right: Arc<Hittable>,
    pub bbox: Aabb,
}

/// A well-formed node: well-formed children and the box that covers both.
pub open spec fn bwf(b: BvhAggregate) -> bool
    decreases b,
{
    &&& hok(*b.left)
    &&& hok(*b.right)
    &&& b.bbox == Aabb::union_spec(object_bbox_spec(*b.left), object_bbox_spec(*b.right))
}

/// Every element of the sequence is a well-formed object.
pub open spec fn objs_ok(s: Seq<Arc<Hittable>>) -> bool {
    forall|i: int| 0 <= i < s.len() ==> hok(*#[trigger] s[i])
}

/// No element of the sequence is itself a tree node.
pub open spec fn objs_flat(s: Seq<Arc<Hittable>>) -> bool {
    forall|i: int| 0 <= i < s.len() ==> !((*#[trigger] s[i]) is Bvh)
}

/// Two sequences with the same multiset share every elementwise property;
/// here, holding no tree node.
proof fn lemma_flat_transfer(a: Seq<Arc<Hittable>>, b: Seq<Arc<Hittable>>)
    requires
        a.to_multiset() == b.to_multiset(),
        objs_flat(b),
    ensures
        objs_flat(a),
{
    broadcast use vstd::seq_lib::group_to_multiset_ensures;

    assert forall|i: int| 0 <= i < a.len() implies !((*#[trigger] a[i]) is Bvh) by {
        assert(a.contains(a[i]));
        assert(a.to_multiset().count(a[i]) > 0);
        assert(b.contains(a[i]));
        let j = choose|j: int| 0 <= j < b.len() && b[j] == a[i];
        assert(!((*b[j]) is Bvh));
    }
}

/// The coordinate of an object's lower box corner along an axis, the key the
/// partition orders by.
pub open spec fn obj_key_spec(h: Hittable, axis: int) -> i64 {
    let b = object_bbox_spec(h);
    if axis == 0 {
        b.min.x
    } else if axis == 1 {
        b.min.y
    } else {
        b.min.z
    }
}

impl BvhAggregate {
    pub fn new(left: Arc<Hittable>, right: Arc<Hittable>) -> (b: BvhAggregate)
        requires
            hok(*left),
            hok(*right),
        ensures
            bwf(b),
            b.left == left,
            b.right == right,
    {
        let lb = left.bounding_box();
        let rb = right.bounding_box();
        let bbox = Aabb::union(lb, rb);
        BvhAggregate { left, right, bbox }
    }

    /// Build a tree over a non-empty set of objects: pick the longest axis of
    /// the surrounding box, partition the objects around the median of their
    /// lower box corners on that axis (a selection, not a sort), and recurse
    /// on each half; a single object stays a leaf. An empty set is a
    /// construction-time error the caller rules out.
    pub fn build(objects: Vec<Arc<Hittable>>) -> (res: Arc<Hittable>)
        requires
            objects@.len() > 0,
            objs_ok(objects@),
        ensures
            hok(*res),
            objs_flat(objects@) ==> leaves(res).to_multiset() == objects@.to_multiset(),
        decreases objects@.len(),
    {
        broadcast use vstd::seq_lib::group_to_multiset_ensures;
        broadcast use vstd::multiset::group_multiset_axioms;

        let mut surround = Aabb::default();
        let mut i: usize = 0;
        while i < objects.len()
            invariant
                0 <= i <= objects@.len(),
                objs_ok(objects@),
            decreases objects@.len() - i,
        {
            let ob = objects[i].bounding_box();
            surround = Aabb::union(surround, ob);
            i = i + 1;
        }
        let axis = surround.longest_axis();
        let len = objects.len();
        if len == 1 {
            let ghost before = objects@;
            let mut objects = objects;
            let last = objects.pop().unwrap();
            proof {
                if objs_flat(before) {
                    assert(!((*before[0]) is Bvh));
                    assert(leaves(last) =~= seq![last]);
                    assert(before =~= Seq::<Arc<Hittable>>::empty().push(last));
                    vstd::seq_lib::to_multiset_build(Seq::<Arc<Hittable>>::empty(), last);
                    assert(seq![last] =~= Seq::<Arc<Hittable>>::empty().push(last));
                    assert(leaves(last).to_multiset() =~= before.to_multiset());
                }
            }
            last
        } else {
            let mid = len / 2;
            let mut arranged = select_mid(objects, mid, axis);
            let ghost gall = arranged@;
            proof {
                assert(arranged@ == arranged@.subrange(0, mid as int) + arranged@.subrange(
                    mid as int, arranged@.len() as int));
            }
            let right_objects = arranged.split_off(mid);
            let left_objects = arranged;
            proof {
                assert(objs_ok(left_objects@)) by {
                    assert(forall|i: int| 0 <= i < left_objects@.len() ==> hok(
                        *#[trigger] left_objects@[i]));
                }
            }
            let ghost gl = left_objects@;
            let ghost gr = right_objects@;
            proof {
                if objs_flat(objects@) {
                    lemma_flat_transfer(gall, objects@);
                    assert(objs_flat(gl));
                    assert(objs_flat(gr));
                }
            }
            let left = Self::build(left_objects);
            let right = Self::build(right_objects);
            let res = Arc::new(Hittable::Bvh(BvhAggregate::new(left, right)));
            proof {
                if objs_flat(objects@) {
                    assert(leaves(res) == leaves(left) + leaves(right));
                    vstd::seq_lib::lemma_multiset_commutative(leaves(left), leaves(right));
                    vstd::seq_lib::lemma_multiset_commutative(gl, gr);
                    assert(gall =~= gl + gr);
                    assert(leaves(res).to_multiset() =~= objects@.to_multiset());
                }
            }
            res
        }
    }
}

/// The key of an object, executable.
fn obj_key(h: &Arc<Hittable>, axis: usize) -> (k: i64)
    requires
        axis < 3,
    ensures
        k == obj_key_spec(**h, axis as int),
{
    let b = h.bounding_box();
    if axis == 0 {
        b.min.x
    } else if axis == 1 {
        b.min.y
    } else {
        b.min.z
    }
}

/// Rearrange the objects so the element at `mid` could stand there in a
/// sorted order: a three-way partition around a pivot key, recursing into
/// the one block that holds `mid`. The result holds exactly the same
/// objects (as a multiset).
fn select_mid(v: Vec<Arc<Hittable>>, mid: usize, axis: usize) -> (res: Vec<Arc<Hittable>>)
    requires
        mid < v@.len(),
        axis < 3,
        objs_ok(v@),
    ensures
        res@.len() == v@.len(),
        res@.to_multiset() == v@.to_multiset(),
        objs_ok(res@),
    decreases v@.len(),
{
    broadcast use vstd::seq_lib::group_to_multiset_ensures;
    broadcast use vstd::multiset::group_multiset_axioms;

    let pivot = obj_key(&v[v.len() - 1], axis);
    let mut less: Vec<Arc<Hittable>> = Vec::new();
    let mut equal: Vec<Arc<Hittable>> = Vec::new();
    let mut greater: Vec<Arc<Hittable>> = Vec::new();
    let mut i: usize = 0;
    while i < v.len()
        invariant
            0 <= i <= v@.len(),
            axis < 3,
            objs_ok(v@),
            objs_ok(less@),
            objs_ok(equal@),
            objs_ok(greater@),
            less@.to_multiset().add(equal@.to_multiset()).add(greater@.to_multiset())
                =~= v@.subrange(0, i as int).to_multiset(),
            less@.len() + equal@.len() + greater@.len() == i,
            forall|j: int| 0 <= j < less@.len() ==> obj_key_spec(*#[trigger] less@[j],
                axis as int) < pivot,
            forall|j: int| 0 <= j < equal@.len() ==> obj_key_spec(*#[trigger] equal@[j],
                axis as int) == pivot,
            forall|j: int| 0 <= j < greater@.len() ==> obj_key_spec(*#[trigger] greater@[j],
                axis as int) > pivot,
            i == v@.len() ==> equal@.len() >= 1,
            pivot == obj_key_spec(*v@[v@.len() - 1], axis as int),
        decreases v@.len() - i,
    {
        let k = obj_key(&v[i], axis);
        let e = arc_clone(&v[i]);
        let ghost l0 = less@;
        let ghost q0 = equal@;
        let ghost g0 = greater@;
        proof {
            assert(v@.subrange(0, i + 1 as int) =~= v@.subrange(0, i as int).push(v@[i as int]));
            vstd::seq_lib::to_multiset_build(v@.subrange(0, i as int), v@[i as int]);
        }
        if k < pivot {
            less.push(e);
            proof {
                assert(less@ == l0.push(e));
                vstd::seq_lib::to_multiset_build(l0, e);
            }
        } else if k == pivot {
            equal.push(e);
            proof {
                assert(equal@ == q0.push(e));
                vstd::seq_lib::to_multiset_build(q0, e);
            }
        } else {
            greater.push(e);
            proof {
                assert(greater@ == g0.push(e));
                vstd::seq_lib::to_multiset_build(g0, e);
            }
        }
        proof {
            assert(less@.to_multiset().add(equal@.to_multiset()).add(greater@.to_multiset())
                =~= v@.subrange(0, (i + 1) as int).to_multiset());
        }
        i = i + 1;
    }
    proof {
        assert(v@.subrange(0, v@.len() as int) =~= v@);
    }
    let nl = less.len();
    let ne = equal.len();
    if mid < nl {
        let less2 = select_mid(less, mid, axis);
        concat3(less2, equal, greater)
    } else if mid < nl + ne {
        concat3(less, equal, greater)
    } else {
        proof {
            assert(equal@.len() > 0 || greater@.len() > 0);
        }
        let greater2 = select_mid(greater, mid - nl - ne, axis);
        concat3(less, equal, greater2)
    }
}

/// Concatenate three vectors, keeping the multiset of elements.
fn concat3(a: Vec<Arc<Hittable>>, b: Vec<Arc<Hittable>>, c: Vec<Arc<Hittable>>) -> (res: Vec<
    Arc<Hittable>,
>)
    requires
        objs_ok(a@),
        objs_ok(b@),
        objs_ok(c@),
    ensures
        res@.len() == a@.len() + b@.len() + c@.len(),
        res@.to_multiset() == a@.to_multiset().add(b@.to_multiset()).add(c@.to_multiset()),
        objs_ok(res@),
{
    let ghost ga = a@;
    let ghost gb = b@;
    let ghost gc = c@;
    let mut res = a;
    let mut b = b;
    let mut c = c;
    res.append(&mut b);
    res.append(&mut c);
    proof {
        broadcast use vstd::seq_lib::group_to_multiset_ensures;
        broadcast use vstd::multiset::group_multiset_axioms;

        lemma_multiset_commutative(ga, gb);
        lemma_multiset_commutative(ga + gb, gc);
        assert(res@ == (ga + gb) + gc);
        assert((ga + gb).to_multiset() == ga.to_multiset().add(gb.to_multiset()));
        assert(((ga + gb) + gc).to_multiset() == (ga + gb).to_multiset().add(gc.to_multiset()));
        assert(res@.to_multiset() =~= ga.to_multiset().add(gb.to_multiset()).add(
            gc.to_multiset()));
        assert(forall|i: int| 0 <= i < res@.len() ==> hok(*#[trigger] res@[i])) by {
            assert(forall|i: int| 0 <= i < ga.len() ==> res@[i] == ga[i]);
            assert(forall|i: int| ga.len() <= i < ga.len() + gb.len() ==> res@[i] == gb[
                i - ga.len()]);
            assert(forall|i: int| ga.len() + gb.len() <= i < res@.len() ==> res@[i] == gc[
                i - ga.len() - gb.len()]);
        }
    }
    res
}

/// The objects a tree holds, in traversal order: the tree's own object for a
/// leaf, the left subtree's before the right subtree's for a node.
pub open spec fn leaves(a: Arc<Hittable>) -> Seq<Arc<Hittable>>
    decreases a,
{
    match *a {
        Hittable::Bvh(b) => leaves(b.left) + leaves(b.right),
        _ => seq![a],
    }
}

/// The leaves of a borrowed tree.
pub open spec fn leaves_at(a: &Arc<Hittable>) -> Seq<Arc<Hittable>> {
    leaves(*a)
}

/// The hit of a borrowed tree.
pub open spec fn hit_of(a: &Arc<Hittable>, r: Ray, t_min: i64, t_max: i64) -> Option<
    crate::geometry::HitRecord,
> {
    crate::geometry::hit_spec(**a, r, t_min, t_max)
}

/// The hit of one element of a sequence of objects.
pub open spec fn hit_at(s: Seq<Arc<Hittable>>, i: int, r: Ray, t_min: i64, t_max: i64) -> Option<
    crate::geometry::HitRecord,
> {
    crate::geometry::hit_spec(*s[i], r, t_min, t_max)
}

/// Whether the slab test rules nothing out anywhere along the traversal of
/// this tree, on the windows the traversal actually uses.
pub open spec fn no_prune(a: Arc<Hittable>, r: Ray, t_min: i64, t_max: i64) -> bool
    decreases a,
{
    match *a {
        Hittable::Bvh(b) => {
            &&& Aabb::might_hit_spec(b.bbox, r, t_min as int, t_max as int)
            &&& no_prune(b.left, r, t_min, t_max)
            &&& ({
                let mid = match crate::geometry::hit_spec(*b.left, r, t_min, t_max) {
                    Some(l) => l.hit_t,
                    None => t_max,
                };
                no_prune(b.right, r, t_min, mid)
            })
        },
        _ => true,
    }
}

/// A scan holding a best-so-far record always reports a record.
proof fn lemma_scan_some(
    s: Seq<Arc<Hittable>>,
    r: Ray,
    t_min: i64,
    t_max: i64,
    i: int,
    c: crate::geometry::HitRecord,
)
    requires
        0 <= i <= s.len(),
    ensures
        crate::geometry::aggregate::scan_spec(s, r, t_min, t_max, i, Some(c)) is Some,
    decreases s.len() - i,
{
    if i < s.len() {
        match hit_at(s, i, r, t_min, c.hit_t) {
            Some(h) => {
                lemma_scan_some(s, r, t_min, t_max, i + 1, h);
            },
            None => {
                lemma_scan_some(s, r, t_min, t_max, i + 1, c);
            },
        }
    }
}

/// A scan started on a best-so-far record equals the scan on the window
/// narrowed to that record, falling back to the record itself.
proof fn lemma_scan_with_cur(
    s: Seq<Arc<Hittable>>,
    r: Ray,
    t_min: i64,
    t_max: i64,
    i: int,
    c: crate::geometry::HitRecord,
)
    requires
        0 <= i <= s.len(),
    ensures
        crate::geometry::aggregate::scan_spec(s, r, t_min, t_max, i, Some(c)) == (
        match crate::geometry::aggregate::scan_spec(s, r, t_min, c.hit_t, i, None) {
            Some(h) => Some(h),
            None => Some(c),
        }),
    decreases s.len() - i,
{
    if i < s.len() {
        match hit_at(s, i, r, t_min, c.hit_t) {
            Some(h) => {
                lemma_scan_same_cur(s, r, t_min, t_max, c.hit_t, i + 1, h);
                lemma_scan_some(s, r, t_min, c.hit_t, i + 1, h);
            },
            None => {
                lemma_scan_with_cur(s, r, t_min, t_max, i + 1, c);
            },
        }
    }
}

/// Once a best-so-far record is held, the scan no longer consults the outer
/// window, so two scans holding the same record agree.
proof fn lemma_scan_same_cur(
    s: Seq<Arc<Hittable>>,
    r: Ray,
    t_min: i64,
    t_max1: i64,
    t_max2: i64,
    i: int,
    c: crate::geometry::HitRecord,
)
    requires
        0 <= i <= s.len(),
    ensures
        crate::geometry::aggregate::scan_spec(s, r, t_min, t_max1, i, Some(c))
            == crate::geometry::aggregate::scan_spec(s, r, t_min, t_max2, i, Some(c)),
    decreases s.len() - i,
{
    if i < s.len() {
        match hit_at(s, i, r, t_min, c.hit_t) {
            Some(h) => {
                lemma_scan_same_cur(s, r, t_min, t_max1, t_max2, i + 1, h);
            },
            None => {
                lemma_scan_same_cur(s, r, t_min, t_max1, t_max2, i + 1, c);
            },
        }
    }
}

/// Scanning a concatenation is scanning the second part from the first
/// part's result.
proof fn lemma_scan_append(
    s1: Seq<Arc<Hittable>>,
    s2: Seq<Arc<Hittable>>,
    r: Ray,
    t_min: i64,
    t_max: i64,
    i: int,
    cur: Option<crate::geometry::HitRecord>,
)
    requires
        0 <= i <= s1.len(),
    ensures
        crate::geometry::aggregate::scan_spec(s1 + s2, r, t_min, t_max, i, cur)
            == crate::geometry::aggregate::scan_spec(
            s2,
            r,
            t_min,
            t_max,
            0,
            crate::geometry::aggregate::scan_spec(s1, r, t_min, t_max, i, cur),
        ),
    decreases s1.len() - i,
{
    if i < s1.len() {
        assert((s1 + s2)[i] == s1[i]);
        let window = match cur {
            Some(c) => c.hit_t,
            None => t_max,
        };
        let step = match hit_at(s1, i, r, t_min, window) {
            Some(h) => Some(h),
            None => cur,
        };
        lemma_scan_append(s1, s2, r, t_min, t_max, i + 1, step);
    } else {
        lemma_scan_shift(s1, s2, r, t_min, t_max, 0, cur);
    }
}

/// A scan of the second part, seen through the concatenation's indices.
proof fn lemma_scan_shift(
    s1: Seq<Arc<Hittable>>,
    s2: Seq<Arc<Hittable>>,
    r: Ray,
    t_min: i64,
    t_max: i64,
    j: int,
    cur: Option<crate::geometry::HitRecord>,
)
    requires
        0 <= j <= s2.len(),
    ensures
        crate::geometry::aggregate::scan_spec(s1 + s2, r, t_min, t_max, s1.len() + j, cur)
            == crate::geometry::aggregate::scan_spec(s2, r, t_min, t_max, j, cur),
    decreases s2.len() - j,
{
    if j < s2.len() {
        assert((s1 + s2)[s1.len() + j] == s2[j]);
        let window = match cur {
            Some(c) => c.hit_t,
            None => t_max,
        };
        let step = match hit_at(s2, j, r, t_min, window) {
            Some(h) => Some(h),
            None => cur,
        };
        lemma_scan_shift(s1, s2, r, t_min, t_max, j + 1, step);
    }
}

/// Tree traversal and the flat nearest-hit scan agree: on any tree whose
/// boxes rule nothing out along the traversal (the slab test is only an
/// optimization), the hierarchy returns exactly the record the linear scan
/// over its objects returns - the same parameter, point and material.
///
/// The `no_prune` hypothesis is the limit of what is established here: that
/// the slab test can never exclude a box holding a real hit is not proved -
/// and is not true of every box, even without rounding: a zero-thickness box
/// (a bare axis-aligned quad's) narrows the window to a single parameter,
/// which the strict emptiness test then rejects. So the agreement is
/// unconditional only where the boxes pass the test.
pub proof fn lemma_bvh_matches_scan(a: &Arc<Hittable>, r: Ray, t_min: i64, t_max: i64)
    requires
        no_prune(*a, r, t_min, t_max),
    ensures
        hit_of(a, r, t_min, t_max) == crate::geometry::aggregate::scan_spec(
            leaves_at(a),
            r,
            t_min,
            t_max,
            0,
            None,
        ),
    decreases **a,
{
    match &(**a) {
        Hittable::Bvh(b) => {
            let lrec = hit_of(&b.left, r, t_min, t_max);
            let mid = match lrec {
                Some(l) => l.hit_t,
                None => t_max,
            };
            assert(leaves_at(a) == leaves_at(&b.left) + leaves_at(&b.right));
            lemma_bvh_matches_scan(&b.left, r, t_min, t_max);
            lemma_bvh_matches_scan(&b.right, r, t_min, mid);
            lemma_scan_append(leaves_at(&b.left), leaves_at(&b.right), r, t_min, t_max, 0, None);
            assert(crate::geometry::aggregate::scan_spec(leaves_at(a), r, t_min, t_max, 0, None)
                == crate::geometry::aggregate::scan_spec(leaves_at(&b.right), r, t_min, t_max, 0,
                lrec));
            assert(hit_of(a, r, t_min, t_max) == (
            match hit_of(&b.right, r, t_min, mid) {
                Some(h) => Some(h),
                None => lrec,
            }));
            match lrec {
                Some(c) => {
                    lemma_scan_with_cur(leaves_at(&b.right), r, t_min, t_max, 0, c);
                    assert(hit_of(&b.right, r, t_min, mid)
                        == crate::geometry::aggregate::scan_spec(leaves_at(&b.right), r, t_min,
                        c.hit_t, 0, None));
                },
                None => {
                    assert(hit_of(&b.right, r, t_min, t_max)
                        == crate::geometry::aggregate::scan_spec(leaves_at(&b.right), r, t_min,
                        t_max, 0, None));
                },
            }
        },
        _ => {
            let s = leaves_at(a);
            assert(s == seq![*a]);
            assert(s.len() == 1);
            assert(s[0] == *a);
            let step = hit_at(s, 0, r, t_min, t_max);
            assert(crate::geometry::aggregate::scan_spec(s, r, t_min, t_max, 0, None) == (
            match step {
                Some(h) => crate::geometry::aggregate::scan_spec(s, r, t_min, t_max, 1, Some(h)),
                None => crate::geometry::aggregate::scan_spec(s, r, t_min, t_max, 1, None),
            }));
            assert(forall|cur: Option<crate::geometry::HitRecord>|
                crate::geometry::aggregate::scan_spec(s, r, t_min, t_max, 1, cur) == cur);
            assert(hit_of(a, r, t_min, t_max) == step);
        },
    }
}

} // verus!
