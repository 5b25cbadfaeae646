use vstd::prelude::*;
use crate::fixed::{sok, tdiv, FX_ONE};
use crate::ray::{nok, rok, Ray};
use crate::vec3::{vok, Vec3d, UV};

pub mod sphere;
pub mod instance;
pub mod aggregate;
pub mod bvh;
pub mod quad;
pub mod cube;
pub mod triangle;

verus! {

/// The smaller of two scalars.
pub open spec fn min2(a: i64, b: i64) -> i64 {
    if a <= b {
        a
    } else {
        b
    }
}

/// The larger of two scalars.
pub open spec fn max2(a: i64, b: i64) -> i64 {
    if a >= b {
        a
    } else {
        b
    }
}

/// An axis-aligned bounding box. The default (empty) box carries the largest
/// scalar as its lower corner and the smallest as its upper corner, so that a
/// union with any real box yields that box.
#[derive(Clone, Copy, Debug, PartialEq, Eq, Structural)]
pub struct Aabb {
    pub min: Vec3d,
    pub max: Vec3d,
}

impl Aabb {
    /// The empty box, absorbed by union.
    pub open spec fn default_spec() -> Aabb {
        Aabb {
            min: Vec3d { x: i64::MAX, y: i64::MAX, z: i64::MAX },
            max: Vec3d { x: i64::MIN, y: i64::MIN, z: i64::MIN },
        }
    }

    /// The componentwise union of two boxes.
    pub open spec fn union_spec(a: Aabb, b: Aabb) -> Aabb {
        Aabb {
            min: Vec3d {
                x: min2(a.min.x, b.min.x),
                y: min2(a.min.y, b.min.y),
                z: min2(a.min.z, b.min.z),
            },
            max: Vec3d {
                x: max2(a.max.x, b.max.x),
                y: max2(a.max.y, b.max.y),
                z: max2(a.max.z, b.max.z),
            },
        }
    }

    pub fn union(a: Aabb, b: Aabb) -> (r: Aabb)
        ensures
            r == Aabb::union_spec(a, b),
    {
        Aabb {
            min: Vec3d {
                x: if a.min.x <= b.min.x { a.min.x } else { b.min.x },
                y: if a.min.y <= b.min.y { a.min.y } else { b.min.y },
                z: if a.min.z <= b.min.z { a.min.z } else { b.min.z },
            },
            max: Vec3d {
                x: if a.max.x >= b.max.x { a.max.x } else { b.max.x },
                y: if a.max.y >= b.max.y { a.max.y } else { b.max.y },
                z: if a.max.z >= b.max.z { a.max.z } else { b.max.z },
            },
        }
    }

    /// The axis of largest extent, ties resolved by x before y before z
    /// priority: the earliest axis whose extent is no smaller than the rest.
    pub open spec fn longest_axis_spec(b: Aabb) -> int {
        let dx = b.max.x - b.min.x;
        let dy = b.max.y - b.min.y;
        let dz = b.max.z - b.min.z;
        if dx >= dy && dx >= dz {
            0
        } else if dy >= dz {
            1
        } else {
            2
        }
    }

    pub fn longest_axis(&self) -> (r: usize)
        ensures
            r == Aabb::longest_axis_spec(*self),
            r < 3,
    {
        let dx: i128 = (self.max.x as i128) - (self.min.x as i128);
        let dy: i128 = (self.max.y as i128) - (self.min.y as i128);
        let dz: i128 = (self.max.z as i128) - (self.min.z as i128);
        if dx >= dy && dx >= dz {
            0
        } else if dy >= dz {
            1
        } else {
            2
        }
    }

    pub fn default() -> (r: Aabb)
        ensures
            r == Aabb::default_spec(),
    {
        Aabb {
            min: Vec3d { x: i64::MAX, y: i64::MAX, z: i64::MAX },
            max: Vec3d { x: i64::MIN, y: i64::MIN, z: i64::MIN },
        }
    }

    /// Whether the slab test can rule the ray out on the window
    /// `(t_min, t_max)`: each axis narrows the window by the entry and exit
    /// parameters of its slab; an axis parallel to the ray only checks that
    /// the origin lies between its planes.
    pub open spec fn might_hit_spec(b: Aabb, r: Ray, t_min: int, t_max: int) -> bool {
        match narrow_spec(b.min.x as int, b.max.x as int, r.origin.x as int,
            r.direction.x as int, t_min, t_max) {
            None => false,
            Some((m1, x1)) => match narrow_spec(b.min.y as int, b.max.y as int,
                r.origin.y as int, r.direction.y as int, m1, x1) {
                None => false,
                Some((m2, x2)) => narrow_spec(b.min.z as int, b.max.z as int, r.origin.z as int,
                    r.direction.z as int, m2, x2) is Some,
            },
        }
    }

    pub fn might_hit(&self, r: &Ray, t_min: i64, t_max: i64) -> (hit: bool)
        ensures
            hit == Aabb::might_hit_spec(*self, *r, t_min as int, t_max as int),
    {
        let w0 = narrow(self.min.x, self.max.x, r.origin.x, r.direction.x, t_min as i128,
            t_max as i128);
        match w0 {
            None => false,
            Some((m1, x1)) => {
                let w1 = narrow(self.min.y, self.max.y, r.origin.y, r.direction.y, m1, x1);
                match w1 {
                    None => false,
                    Some((m2, x2)) => {
                        let w2 = narrow(self.min.z, self.max.z, r.origin.z, r.direction.z, m2, x2);
                        w2.is_some()
                    },
                }
            },
        }
    }
}

/// One axis of the slab test over an exact parameter window.
pub open spec fn narrow_spec(lo: int, hi: int, o: int, d: int, t_min: int, t_max: int) -> Option<
    (int, int),
> {
    if d == 0 {
        if lo <= o <= hi {
            Some((t_min, t_max))
        } else {
            None
        }
    } else {
        let ta = tdiv((lo - o) * (FX_ONE as int), d);
        let tb = tdiv((hi - o) * (FX_ONE as int), d);
        let t0 = if d > 0 { ta } else { tb };
        let t1 = if d > 0 { tb } else { ta };
        let m = if t0 > t_min { t0 } else { t_min };
        let x = if t1 < t_max { t1 } else { t_max };
        if x <= m {
            None
        } else {
            Some((m, x))
        }
    }
}

/// One axis of the slab test, executable; parameters are carried in 128 bits
/// so no rounding beyond the two divisions occurs.
fn narrow(lo: i64, hi: i64, o: i64, d: i64, t_min: i128, t_max: i128) -> (r: Option<(i128, i128)>)
    requires
        -0x1_0000_0000_0000_0000_0000 <= t_min <= 0x1_0000_0000_0000_0000_0000,
        -0x1_0000_0000_0000_0000_0000 <= t_max <= 0x1_0000_0000_0000_0000_0000,
    ensures
        (r is Some) == (narrow_spec(lo as int, hi as int, o as int, d as int, t_min as int,
        t_max as int) is Some),
        r matches Some(w) ==> Some((w.0 as int, w.1 as int)) == narrow_spec(lo as int, hi as int,
            o as int, d as int, t_min as int, t_max as int),
        r matches Some(w) ==> -0x1_0000_0000_0000_0000_0000 <= w.0
            <= 0x1_0000_0000_0000_0000_0000 && -0x1_0000_0000_0000_0000_0000 <= w.1
            <= 0x1_0000_0000_0000_0000_0000,
{
    if d == 0 {
        if lo <= o && o <= hi {
            Some((t_min, t_max))
        } else {
            None
        }
    } else {
        proof {
            crate::fixed::lemma_mul_bound((lo as int) - (o as int), FX_ONE as int,
                0x1_0000_0000_0000_0000, 65536);
            crate::fixed::lemma_mul_bound((hi as int) - (o as int), FX_ONE as int,
                0x1_0000_0000_0000_0000, 65536);
            crate::fixed::lemma_tdiv_bound(((lo as int) - (o as int)) * (FX_ONE as int), (
            if d > 0 { d as int } else { -(d as int) }), 0x1_0000_0000_0000_0000int * 65536);
            crate::fixed::lemma_tdiv_bound(((hi as int) - (o as int)) * (FX_ONE as int), (
            if d > 0 { d as int } else { -(d as int) }), 0x1_0000_0000_0000_0000int * 65536);
        }
        let na: i128 = ((lo as i128) - (o as i128)) * (FX_ONE as i128);
        let nb: i128 = ((hi as i128) - (o as i128)) * (FX_ONE as i128);
        let dd: i128 = d as i128;
        let ta: i128 = if dd > 0 {
            if na >= 0 { na / dd } else { -((-na) / dd) }
        } else {
            if na >= 0 { -(na / (-dd)) } else { (-na) / (-dd) }
        };
        let tb: i128 = if dd > 0 {
            if nb >= 0 { nb / dd } else { -((-nb) / dd) }
        } else {
            if nb >= 0 { -(nb / (-dd)) } else { (-nb) / (-dd) }
        };
        let t0: i128 = if dd > 0 { ta } else { tb };
        let t1: i128 = if dd > 0 { tb } else { ta };
        let m: i128 = if t0 > t_min { t0 } else { t_min };
        let x: i128 = if t1 < t_max { t1 } else { t_max };
        if x <= m {
            None
        } else {
            Some((m, x))
        }
    }
}

/// Union is commutative.
pub proof fn lemma_union_comm(a: Aabb, b: Aabb)
    ensures
        Aabb::union_spec(a, b) == Aabb::union_spec(b, a),
{
}

/// Union is associative.
pub proof fn lemma_union_assoc(a: Aabb, b: Aabb, c: Aabb)
    ensures
        Aabb::union_spec(Aabb::union_spec(a, b), c) == Aabb::union_spec(
            a,
            Aabb::union_spec(b, c),
        ),
{
}

/// The default (empty) box is absorbed by union on either side.
pub proof fn lemma_union_default(a: Aabb)
    ensures
        Aabb::union_spec(Aabb::default_spec(), a) == a,
        Aabb::union_spec(a, Aabb::default_spec()) == a,
{
}

/// The result of a ray meeting a surface: hit point, outward unit normal,
/// ray parameter, index of the surface's material, and surface coordinate.
#[derive(Clone, Copy, Debug, PartialEq, Eq, Structural)]
pub struct HitRecord {
    pub point: Vec3d,
    pub unit_normal: Vec3d,
    pub hit_t: i64,
    pub material: u32,
    pub mat_uv: UV,
}

impl HitRecord {
    /// Build a record anchored exactly on the ray at the analytic parameter
    /// (never at a separately recomputed point), from an outward unit normal.
    pub fn from_ray(ray: &Ray, unit_normal: Vec3d, hit_t: i64, material: u32, mat_uv: UV) -> (h:
        HitRecord)
        requires
            rok(*ray),
            sok(hit_t),
            nok(unit_normal),
            -crate::texture::UV_LIMIT <= mat_uv.u <= crate::texture::UV_LIMIT,
            -crate::texture::UV_LIMIT <= mat_uv.v <= crate::texture::UV_LIMIT,
        ensures
            h.point == crate::ray::at_spec(*ray, hit_t as int),
            h.unit_normal == unit_normal,
            h.hit_t == hit_t,
            h.material == material,
            h.mat_uv == mat_uv,
            hrok(h),
    {
        let point = ray.at(hit_t);
        HitRecord { point, unit_normal, hit_t, material, mat_uv }
    }
}

/// A record whose fields lie in the ranges every consumer may assume.
pub open spec fn hrok(h: HitRecord) -> bool {
    &&& vok(h.point)
    &&& nok(h.unit_normal)
    &&& sok(h.hit_t)
    &&& -crate::texture::UV_LIMIT <= h.mat_uv.u <= crate::texture::UV_LIMIT
    &&& -crate::texture::UV_LIMIT <= h.mat_uv.v <= crate::texture::UV_LIMIT
}

/// Any intersectable object: a closed union of the primitive kinds and the
/// two composite kinds.
pub enum Hittable {
    Sphere(crate::geometry::sphere::UnitSphere),
    Cube(crate::geometry::cube::UnitCube),
    Quad(crate::geometry::quad::UnitQuad),
    Tri(crate::geometry::triangle::Triangle),
    Inst(crate::geometry::instance::Instance),
    Bvh(crate::geometry::bvh::BvhAggregate),
}

/// A well-formed object: triangles agree with their mesh, instances with
/// their matrices and wrapped object, tree nodes with their children.
pub open spec fn hok(h: Hittable) -> bool
    decreases h,
{
    match h {
        Hittable::Sphere(_) => true,
        Hittable::Cube(_) => true,
        Hittable::Quad(_) => true,
        Hittable::Tri(t) => crate::geometry::triangle::twf(t),
        Hittable::Inst(i) => crate::geometry::instance::iwf(i),
        Hittable::Bvh(b) => crate::geometry::bvh::bwf(b),
    }
}

/// The conservative box around an object.
pub open spec fn object_bbox_spec(h: Hittable) -> Aabb {
    match h {
        Hittable::Sphere(_) => crate::geometry::sphere::sphere_bbox_spec(),
        Hittable::Cube(_) => crate::geometry::cube::cube_bbox_spec(),
        Hittable::Quad(_) => crate::geometry::quad::quad_bbox_spec(),
        Hittable::Tri(t) => t.bbox,
        Hittable::Inst(i) => i.bbox,
        Hittable::Bvh(b) => b.bbox,
    }
}

/// The nearest intersection of a ray with an object inside the window: each
/// primitive solves its own equation; an instance carries the ray into its
/// local frame and the hit back out; a tree node rules itself out with the
/// slab test, probes its left child, tightens the window to that hit, probes
/// its right child, and prefers the right result.
pub open spec fn hit_spec(h: Hittable, r: Ray, t_min: i64, t_max: i64) -> Option<HitRecord>
    decreases h, 0int,
{
    match h {
        Hittable::Sphere(s) => crate::geometry::sphere::sphere_hit_spec(s.mat, r, t_min, t_max),
        Hittable::Cube(c) => crate::geometry::cube::cube_hit_spec(c.mat, r, t_min, t_max),
        Hittable::Quad(q) => crate::geometry::quad::quad_hit_spec(q.mat, r, t_min, t_max),
        Hittable::Tri(t) => crate::geometry::triangle::triangle_hit_spec(
            *t.mesh,
            t.idx as int,
            t.face_unit_normal,
            r,
            t_min,
            t_max,
        ),
        Hittable::Inst(i) => crate::geometry::instance::instance_hit_spec(i, r, t_min, t_max),
        Hittable::Bvh(b) => {
            if !Aabb::might_hit_spec(b.bbox, r, t_min as int, t_max as int) {
                None
            } else {
                let lrec = hit_spec(*b.left, r, t_min, t_max);
                let mid_max = match lrec {
                    Some(l) => l.hit_t,
                    None => t_max,
                };
                let rrec = hit_spec(*b.right, r, t_min, mid_max);
                match rrec {
                    Some(_) => rrec,
                    None => lrec,
                }
            }
        },
    }
}

impl Hittable {
    /// The conservative box around this object.
    pub fn bounding_box(&self) -> (b: Aabb)
        ensures
            b == object_bbox_spec(*self),
    {
        match self {
            Hittable::Sphere(s) => s.bounding_box(),
            Hittable::Cube(c) => c.bounding_box(),
            Hittable::Quad(q) => q.bounding_box(),
            Hittable::Tri(t) => t.bounding_box(),
            Hittable::Inst(i) => i.bounding_box(),
            Hittable::Bvh(b) => b.bbox,
        }
    }

    /// The nearest intersection inside the window.
    #[verifier::rlimit(100)]
    pub fn hit(&self, ray: &Ray, t_min: i64, t_max: i64) -> (res: Option<HitRecord>)
        requires
            hok(*self),
            rok(*ray),
            sok(t_min),
            sok(t_max),
        ensures
            res == hit_spec(*self, *ray, t_min, t_max),
            res matches Some(h) ==> hrok(h),
        decreases *self,
    {
        match self {
            Hittable::Sphere(s) => s.hit(ray, t_min, t_max),
            Hittable::Cube(c) => c.hit(ray, t_min, t_max),
            Hittable::Quad(q) => q.hit(ray, t_min, t_max),
            Hittable::Tri(t) => t.hit(ray, t_min, t_max),
            Hittable::Inst(i) => {
                let local = Ray {
                    origin: i.inv_trans.transform_point(ray.origin),
                    direction: i.inv_trans.transform_vector(ray.direction),
                };
                let r0 = match i.object.hit(&local, t_min, t_max) {
                    None => None,
                    Some(rec0) => Some(
                        HitRecord {
                            point: i.trans_mat.transform_point(rec0.point),
                            unit_normal: i.inv_trans.transpose_transform_vector(
                                rec0.unit_normal,
                            ).normalize(),
                            hit_t: rec0.hit_t,
                            material: rec0.material,
                            mat_uv: rec0.mat_uv,
                        },
                    ),
                };
                proof {
                    assert(r0 == crate::geometry::instance::instance_hit_spec(*i, *ray, t_min,
                        t_max));
                }
                r0
            },
            Hittable::Bvh(b) => {
                if !b.bbox.might_hit(ray, t_min, t_max) {
                    return None;
                }
                let lrec = b.left.hit(ray, t_min, t_max);
                let mid_max = match &lrec {
                    Some(l) => l.hit_t,
                    None => t_max,
                };
                let rrec = b.right.hit(ray, t_min, mid_max);
                match rrec {
                    Some(h) => Some(h),
                    None => lrec,
                }
            },
        }
    }
}

/// A well-formed object's box has coordinates in range.
#[verifier::rlimit(100)]
pub proof fn lemma_bbox_ok(h: &Hittable)
    requires
        hok(*h),
    ensures
        vok(object_bbox_spec(*h).min),
        vok(object_bbox_spec(*h).max),
    decreases *h,
{
    match h {
        Hittable::Sphere(_) => {},
        Hittable::Cube(_) => {},
        Hittable::Quad(_) => {},
        Hittable::Tri(_) => {},
        Hittable::Inst(_) => {},
        Hittable::Bvh(b) => {
            lemma_bbox_ok(&*b.left);
            lemma_bbox_ok(&*b.right);
        },
    }
}

} // verus!
