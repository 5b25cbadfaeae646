use vstd::prelude::*;
use std::sync::Arc;
use crate::fixed::sok;
use crate::geometry::{hit_spec, hok, hrok, object_bbox_spec, Aabb, HitRecord, Hittable};
use crate::geometry::bvh::{objs_ok, BvhAggregate};
use crate::ray::{rok, Ray};
use crate::shared::arc_clone;

verus! {

/// The flat container of top-level objects, with an optional acceleration
/// tree built over a snapshot of them.
pub struct Aggregate {
    pub objects: Vec<Arc<Hittable>>,
    pub bvh_acc: Option<Arc<Hittable>>,
}

/// A well-formed container: well-formed objects, and a well-formed tree when
/// one has been built.
pub open spec fn agg_wf(a: Aggregate) -> bool {
    &&& objs_ok(a.objects@)
    &&& (a.bvh_acc matches Some(b) ==> hok(*b))
}

/// The linear scan from index `i` with the best record so far: each object
/// is probed on the window narrowed to the best parameter found, so a later
/// closer hit still replaces, and a later equal hit replaces too.
pub open spec fn scan_spec(
    objs: Seq<Arc<Hittable>>,
    r: Ray,
    t_min: i64,
    t_max: i64,
    i: int,
    cur: Option<HitRecord>,
) -> Option<HitRecord>
    decreases objs.len() - i,
{
    if i < 0 || i >= objs.len() {
        cur
    } else {
        let window = match cur {
            Some(c) => c.hit_t,
            None => t_max,
        };
        let step = match hit_spec(*objs[i], r, t_min, window) {
            Some(h) => Some(h),
            None => cur,
        };
        scan_spec(objs, r, t_min, t_max, i + 1, step)
    }
}

/// What the container reports: the tree's result when one is built, else the
/// scan over the flat list.
pub open spec fn agg_hit_spec(a: Aggregate, r: Ray, t_min: i64, t_max: i64) -> Option<HitRecord> {
    match a.bvh_acc {
        Some(b) => hit_spec(*b, r, t_min, t_max),
        None => scan_spec(a.objects@, r, t_min, t_max, 0, None),
    }
}

/// The union of the objects' boxes from index `i`.
pub open spec fn boxes_spec(objs: Seq<Arc<Hittable>>, i: int, cur: Aabb) -> Aabb
    decreases objs.len() - i,
{
    if i < 0 || i >= objs.len() {
        cur
    } else {
        boxes_spec(objs, i + 1, Aabb::union_spec(cur, object_bbox_spec(*objs[i])))
    }
}

impl Aggregate {
    pub fn new(objects: Vec<Arc<Hittable>>) -> (a: Aggregate)
        requires
            objs_ok(objects@),
        ensures
            agg_wf(a),
            a.objects == objects,
            a.bvh_acc is None,
    {
        Aggregate { objects, bvh_acc: None }
    }

    pub fn default() -> (a: Aggregate)
        ensures
            agg_wf(a),
            a.objects@.len() == 0,
            a.bvh_acc is None,
    {
        Aggregate { objects: Vec::new(), bvh_acc: None }
    }

    /// Add one object; a previously built tree no longer covers the set and
    /// is dropped.
    pub fn add_object(&mut self, object: Arc<Hittable>)
        requires
            agg_wf(*old(self)),
            hok(*object),
        ensures
            agg_wf(*final(self)),
            final(self).objects@ == old(self).objects@.push(object),
            final(self).bvh_acc is None,
    {
        self.objects.push(object);
        self.bvh_acc = None;
    }

    pub fn clear(&mut self)
        ensures
            agg_wf(*final(self)),
            final(self).objects@.len() == 0,
            final(self).bvh_acc is None,
    {
        self.objects.clear();
        self.bvh_acc = None;
    }

    /// Build the acceleration tree over a snapshot of the current objects,
    /// if none is built yet; the set must not be empty.
    pub fn bvh_accelerate(&mut self)
        requires
            agg_wf(*old(self)),
            old(self).objects@.len() > 0,
        ensures
            agg_wf(*final(self)),
            final(self).objects == old(self).objects,
            final(self).bvh_acc is Some,
            old(self).bvh_acc is Some ==> final(self).bvh_acc == old(self).bvh_acc,
            old(self).bvh_acc is None && crate::geometry::bvh::objs_flat(old(self).objects@)
                ==> crate::geometry::bvh::leaves(final(self).bvh_acc->0).to_multiset() == old(
                self,
            ).objects@.to_multiset(),
    {
        if self.bvh_acc.is_none() {
            let mut snapshot: Vec<Arc<Hittable>> = Vec::new();
            let mut i: usize = 0;
            while i < self.objects.len()
                invariant
                    0 <= i <= self.objects@.len(),
                    objs_ok(self.objects@),
                    snapshot@.len() == i,
                    forall|j: int| 0 <= j < i ==> #[trigger] snapshot@[j] == self.objects@[j],
                decreases self.objects@.len() - i,
            {
                snapshot.push(arc_clone(&self.objects[i]));
                i = i + 1;
            }
            proof {
                assert(objs_ok(snapshot@));
                assert(snapshot@ =~= self.objects@);
            }
            self.bvh_acc = Some(BvhAggregate::build(snapshot));
        }
    }

    /// The nearest hit: the tree's answer when one is built, else the scan
    /// that keeps the closest hit while narrowing the window.
    pub fn hit(&self, ray: &Ray, t_min: i64, t_max: i64) -> (res: Option<HitRecord>)
        requires
            agg_wf(*self),
            rok(*ray),
            sok(t_min),
            sok(t_max),
        ensures
            res == agg_hit_spec(*self, *ray, t_min, t_max),
            res matches Some(h) ==> hrok(h),
    {
        if let Some(b) = &self.bvh_acc {
            return b.hit(ray, t_min, t_max);
        }
        let mut cur: Option<HitRecord> = None;
        let mut i: usize = 0;
        while i < self.objects.len()
            invariant
                0 <= i <= self.objects@.len(),
                agg_wf(*self),
                rok(*ray),
                sok(t_min),
                sok(t_max),
                self.bvh_acc is None,
                cur matches Some(h) ==> hrok(h),
                scan_spec(self.objects@, *ray, t_min, t_max, i as int, cur) == scan_spec(
                    self.objects@,
                    *ray,
                    t_min,
                    t_max,
                    0,
                    None,
                ),
            decreases self.objects@.len() - i,
        {
            let window = match &cur {
                Some(c) => c.hit_t,
                None => t_max,
            };
            proof {
                assert(sok(window));
            }
            match self.objects[i].hit(ray, t_min, window) {
                Some(h) => {
                    cur = Some(h);
                },
                None => {},
            }
            i = i + 1;
        }
        cur
    }

    /// The union of all the objects' boxes; the default (empty) box for an
    /// empty set; the tree's cached box when one is built.
    pub fn bounding_box(&self) -> (b: Aabb)
        requires
            agg_wf(*self),
        ensures
            b == agg_bbox_spec(*self),
    {
        if self.objects.len() == 0 {
            return Aabb::default();
        }
        if let Some(t) = &self.bvh_acc {
            return t.bounding_box();
        }
        let mut output = Aabb::default();
        let mut i: usize = 0;
        while i < self.objects.len()
            invariant
                0 <= i <= self.objects@.len(),
                objs_ok(self.objects@),
                boxes_spec(self.objects@, i as int, output) == boxes_spec(
                    self.objects@,
                    0,
                    Aabb::default_spec(),
                ),
            decreases self.objects@.len() - i,
        {
            let ob = self.objects[i].bounding_box();
            output = Aabb::union(output, ob);
            i = i + 1;
        }
        output
    }
}

/// The container's accelerated answer is the flat scan's answer: when a
/// tree is built and its boxes rule nothing out along the traversal, the
/// container reports exactly the nearest-hit record of the linear scan over
/// the tree's objects.
pub proof fn lemma_accelerated_matches_scan(a: &Aggregate, r: Ray, t_min: i64, t_max: i64)
    requires
        a.bvh_acc matches Some(b) && crate::geometry::bvh::no_prune(b, r, t_min, t_max),
    ensures
        a.bvh_acc matches Some(b) ==> agg_hit_spec(*a, r, t_min, t_max) == scan_spec(
            crate::geometry::bvh::leaves(b),
            r,
            t_min,
            t_max,
            0,
            None,
        ),
{
    match &a.bvh_acc {
        Some(b) => {
            crate::geometry::bvh::lemma_bvh_matches_scan(b, r, t_min, t_max);
        },
        None => {},
    }
}

/// What `bounding_box` reports.
pub open spec fn agg_bbox_spec(a: Aggregate) -> Aabb {
    if a.objects@.len() == 0 {
        Aabb::default_spec()
    } else {
        match a.bvh_acc {
            Some(t) => object_bbox_spec(*t),
            None => boxes_spec(a.objects@, 0, Aabb::default_spec()),
        }
    }
}

} // verus!
