use vstd::prelude::*;
use std::sync::Arc;
use crate::fixed::sok;
use crate::geometry::{hok, hrok, object_bbox_spec, Aabb, HitRecord, Hittable, min2, max2};
use crate::mat4::{affine, det3, inv_lin, inv_trs, lin, mok, trs, Mat4d};
use crate::ray::{rok, Ray};
use crate::vec3::{vok, Vec3d};

verus! {

/// A primitive wrapped with an affine transform: rays are carried into the
/// wrapped object's frame by the inverse, hit points are carried back by the
/// forward matrix, and normals by the transpose of the inverse.
pub struct Instance {
    pub object: Arc<Hittable>,
    pub trans_mat: Mat4d,
    pub inv_trans: Mat4d,
    pub bbox: Aabb,
}

/// Fold one transformed corner into a running bound box.
pub open spec fn corner_fold(cur: Aabb, p: Vec3d) -> Aabb {
    Aabb {
        min: Vec3d { x: min2(cur.min.x, p.x), y: min2(cur.min.y, p.y), z: min2(cur.min.z, p.z) },
        max: Vec3d { x: max2(cur.max.x, p.x), y: max2(cur.max.y, p.y), z: max2(cur.max.z, p.z) },
    }
}

/// The `k`-th corner of a box, `k` in binary over the three axes.
pub open spec fn box_corner(b: Aabb, k: int) -> Vec3d {
    Vec3d {
        x: if k % 2 == 1 { b.max.x } else { b.min.x },
        y: if (k / 2) % 2 == 1 { b.max.y } else { b.min.y },
        z: if (k / 4) % 2 == 1 { b.max.z } else { b.min.z },
    }
}

/// The box around the images of all eight corners of the wrapped object's
/// box: an affine image of an axis-aligned box is not axis-aligned, so each
/// corner is carried over and the extremes are kept.
pub open spec fn instance_bbox_spec(child: Aabb, m: Mat4d) -> Aabb {
    let c0 = corner_fold(Aabb::default_spec(), Mat4d::transform_point_spec(m, box_corner(child, 0)));
    let c1 = corner_fold(c0, Mat4d::transform_point_spec(m, box_corner(child, 1)));
    let c2 = corner_fold(c1, Mat4d::transform_point_spec(m, box_corner(child, 2)));
    let c3 = corner_fold(c2, Mat4d::transform_point_spec(m, box_corner(child, 3)));
    let c4 = corner_fold(c3, Mat4d::transform_point_spec(m, box_corner(child, 4)));
    let c5 = corner_fold(c4, Mat4d::transform_point_spec(m, box_corner(child, 5)));
    let c6 = corner_fold(c5, Mat4d::transform_point_spec(m, box_corner(child, 6)));
    corner_fold(c6, Mat4d::transform_point_spec(m, box_corner(child, 7)))
}

/// A well-formed instance: a well-formed wrapped object, bounded affine
/// matrices, the stored inverse computed from the forward matrix, and the
/// cached box computed from the wrapped object's box.
pub open spec fn iwf(i: Instance) -> bool
    decreases i,
{
    &&& hok(*i.object)
    &&& mok(i.trans_mat)
    &&& affine(i.trans_mat)
    &&& det3(i.trans_mat) != 0
    &&& mok(i.inv_trans)
    &&& affine(i.inv_trans)
    &&& (forall|r: int, c: int| 0 <= r < 3 && 0 <= c < 3 ==> lin(i.inv_trans, r, c) == inv_lin(
        i.trans_mat,
        r,
        c,
    ))
    &&& trs(i.inv_trans, 0) == inv_trs(i.trans_mat, 0)
    &&& trs(i.inv_trans, 1) == inv_trs(i.trans_mat, 1)
    &&& trs(i.inv_trans, 2) == inv_trs(i.trans_mat, 2)
    &&& i.bbox == instance_bbox_spec(object_bbox_spec(*i.object), i.trans_mat)
}

/// The ray carried into the wrapped object's frame.
pub open spec fn local_ray_spec(i: Instance, r: Ray) -> Ray {
    Ray {
        origin: Mat4d::transform_point_spec(i.inv_trans, r.origin),
        direction: Mat4d::transform_vector_spec(i.inv_trans, r.direction),
    }
}

/// The instance intersection: the wrapped object's hit on the local ray,
/// with the point carried forward and the normal carried through the
/// transpose of the inverse and re-normalized.
pub open spec fn instance_hit_spec(i: Instance, r: Ray, t_min: i64, t_max: i64) -> Option<
    HitRecord,
>
    decreases i, 1int,
{
    match crate::geometry::hit_spec(*i.object, local_ray_spec(i, r), t_min, t_max) {
        None => None,
        Some(rec0) => Some(
            HitRecord {
                point: Mat4d::transform_point_spec(i.trans_mat, rec0.point),
                unit_normal: Vec3d::normalize_spec(
                    Mat4d::transpose_transform_vector_spec(i.inv_trans, rec0.unit_normal),
                ),
                hit_t: rec0.hit_t,
                material: rec0.material,
                mat_uv: rec0.mat_uv,
            },
        ),
    }
}

impl Instance {
    /// Wrap an object with an affine transform; the transform must be
    /// invertible (a singular transform is a construction-time error, which
    /// the caller rules out beforehand with `Mat4d::inverse`).
    pub fn new(object: Arc<Hittable>, trans_mat: Mat4d) -> (r: Instance)
        requires
            hok(*object),
            mok(trans_mat),
            affine(trans_mat),
            det3(trans_mat) != 0,
        ensures
            iwf(r),
            r.object == object,
            r.trans_mat == trans_mat,
    {
        proof {
            crate::geometry::lemma_bbox_ok(&*object);
        }
        let child = object.bounding_box();
        let mut bbox = Aabb::default();
        let mut k: usize = 0;
        while k < 8
            invariant
                0 <= k <= 8,
                mok(trans_mat),
                vok(child.min),
                vok(child.max),
                child == object_bbox_spec(*object),
                bbox == fold_upto(child, trans_mat, k as int),
            decreases 8 - k,
        {
            let corner = Vec3d {
                x: if k % 2 == 1 { child.max.x } else { child.min.x },
                y: if (k / 2) % 2 == 1 { child.max.y } else { child.min.y },
                z: if (k / 4) % 2 == 1 { child.max.z } else { child.min.z },
            };
            let p = trans_mat.transform_point(corner);
            bbox = Aabb {
                min: Vec3d {
                    x: if bbox.min.x <= p.x { bbox.min.x } else { p.x },
                    y: if bbox.min.y <= p.y { bbox.min.y } else { p.y },
                    z: if bbox.min.z <= p.z { bbox.min.z } else { p.z },
                },
                max: Vec3d {
                    x: if bbox.max.x >= p.x { bbox.max.x } else { p.x },
                    y: if bbox.max.y >= p.y { bbox.max.y } else { p.y },
                    z: if bbox.max.z >= p.z { bbox.max.z } else { p.z },
                },
            };
            k = k + 1;
        }
        proof {
            lemma_fold_full(child, trans_mat);
        }
        let inv = trans_mat.inverse();
        let inv_trans = match inv {
            Some(m) => m,
            None => Mat4d::identity(),  // unreachable: the determinant is nonzero
        };
        Instance { object, trans_mat, inv_trans, bbox }
    }

    /// The wrapped object's hit on the ray carried into its frame, with the
    /// point carried forward and the normal carried through the transpose of
    /// the inverse.
    pub fn hit(&self, ray: &Ray, t_min: i64, t_max: i64) -> (res: Option<HitRecord>)
        requires
            iwf(*self),
            rok(*ray),
            crate::fixed::sok(t_min),
            crate::fixed::sok(t_max),
        ensures
            res == instance_hit_spec(*self, *ray, t_min, t_max),
            res matches Some(h) ==> hrok(h),
    {
        let local = Ray {
            origin: self.inv_trans.transform_point(ray.origin),
            direction: self.inv_trans.transform_vector(ray.direction),
        };
        match self.object.hit(&local, t_min, t_max) {
            None => None,
            Some(rec0) => Some(
                HitRecord {
                    point: self.trans_mat.transform_point(rec0.point),
                    unit_normal: self.inv_trans.transpose_transform_vector(
                        rec0.unit_normal,
                    ).normalize(),
                    hit_t: rec0.hit_t,
                    material: rec0.material,
                    mat_uv: rec0.mat_uv,
                },
            ),
        }
    }

    pub fn bounding_box(&self) -> (b: Aabb)
        ensures
            b == self.bbox,
    {
        self.bbox
    }
}

/// The corner fold after the first `k` corners.
pub open spec fn fold_upto(child: Aabb, m: Mat4d, k: int) -> Aabb
    decreases k,
{
    if k <= 0 {
        Aabb::default_spec()
    } else {
        corner_fold(
            fold_upto(child, m, k - 1),
            Mat4d::transform_point_spec(m, box_corner(child, k - 1)),
        )
    }
}

/// After all eight corners the fold is the instance box.
proof fn lemma_fold_full(child: Aabb, m: Mat4d)
    ensures
        fold_upto(child, m, 8) == instance_bbox_spec(child, m),
{
    reveal_with_fuel(fold_upto, 9);
}

} // verus!
