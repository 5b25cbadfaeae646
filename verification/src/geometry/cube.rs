use vstd::prelude::*;
use crate::fixed::{fdiv, sok, FX_ONE};
use crate::geometry::{Aabb, HitRecord};
use crate::geometry::quad::HALF_FX;
use crate::ray::{at_spec, rok, Ray};
use crate::vec3::{Vec3d, UV};

verus! {

/// Tolerance added to the face bound so hits on an edge are kept.
pub const FACE_BOUND_FX: i64 = 32769;

/// The unit cube `[-1/2, 1/2]^3`. Face order: `+X`, `-X`, `+Y`, `-Y`, `+Z`,
/// `-Z`, each with its own material.
pub struct UnitCube {
    pub mat: [u32; 6],
}

/// One component of a vector, by axis index.
pub open spec fn comp(v: Vec3d, axis: int) -> int {
    if axis == 0 {
        v.x as int
    } else if axis == 1 {
        v.y as int
    } else {
        v.z as int
    }
}

/// The face-local surface coordinate of a point on the face given by axis
/// and sign, oriented as the face's material expects.
pub open spec fn cube_face_uv(p: Vec3d, axis: int, pos: bool) -> (int, int) {
    if axis == 0 {
        if pos {
            (-(p.z as int), p.y as int)
        } else {
            (p.z as int, p.y as int)
        }
    } else if axis == 1 {
        if pos {
            (p.x as int, -(p.z as int))
        } else {
            (p.x as int, p.z as int)
        }
    } else {
        if pos {
            (p.x as int, p.y as int)
        } else {
            (-(p.x as int), p.y as int)
        }
    }
}

/// The outward unit normal of a face.
pub open spec fn cube_face_normal(axis: int, pos: bool) -> Vec3d {
    let s: i64 = if pos {
        FX_ONE as i64
    } else {
        (-FX_ONE) as i64
    };
    if axis == 0 {
        Vec3d { x: s, y: 0, z: 0 }
    } else if axis == 1 {
        Vec3d { x: 0, y: s, z: 0 }
    } else {
        Vec3d { x: 0, y: 0, z: s }
    }
}

/// Consider one face: keep the running best hit unless this face produces a
/// nearer (or equally near) parameter inside the window whose hit point lies
/// within the face bounds.
pub open spec fn cube_face_step(
    r: Ray,
    t_min: i64,
    t_max: i64,
    axis: int,
    pos: bool,
    cur: Option<(int, int, int, int)>,
) -> Option<(int, int, int, int)> {
    let d = comp(r.direction, axis);
    if d == 0 {
        cur
    } else {
        let h: int = if pos {
            HALF_FX as int
        } else {
            -(HALF_FX as int)
        };
        let t = fdiv(h - comp(r.origin, axis), d);
        let worse = cur matches Some(w) && t > w.0;
        if worse || t < t_min || t_max < t {
            cur
        } else {
            let p = at_spec(r, t);
            let uv = cube_face_uv(p, axis, pos);
            if uv.0 < -FACE_BOUND_FX || uv.0 > FACE_BOUND_FX || uv.1 < -FACE_BOUND_FX || uv.1
                > FACE_BOUND_FX {
                cur
            } else {
                Some((t, uv.0, uv.1, axis * 2 + if pos { 0int } else { 1int }))
            }
        }
    }
}

/// The fold of the six faces in order.
pub open spec fn cube_scan_spec(r: Ray, t_min: i64, t_max: i64) -> Option<(int, int, int, int)> {
    let s0 = cube_face_step(r, t_min, t_max, 0, true, None);
    let s1 = cube_face_step(r, t_min, t_max, 0, false, s0);
    let s2 = cube_face_step(r, t_min, t_max, 1, true, s1);
    let s3 = cube_face_step(r, t_min, t_max, 1, false, s2);
    let s4 = cube_face_step(r, t_min, t_max, 2, true, s3);
    cube_face_step(r, t_min, t_max, 2, false, s4)
}

/// The cube intersection: the nearest valid face hit of the six.
pub open spec fn cube_hit_spec(mats: [u32; 6], r: Ray, t_min: i64, t_max: i64) -> Option<
    HitRecord,
> {
    match cube_scan_spec(r, t_min, t_max) {
        None => None,
        Some((t, u, v, face)) => Some(
            HitRecord {
                point: at_spec(r, t),
                unit_normal: cube_face_normal(face / 2, face % 2 == 0),
                hit_t: t as i64,
                material: mats[face],
                mat_uv: UV { u: (u + HALF_FX) as i64, v: (v + HALF_FX) as i64 },
            },
        ),
    }
}

impl UnitCube {
    /// Face order: `+X`, `-X`, `+Y`, `-Y`, `+Z`, `-Z`.
    pub fn new(mat: [u32; 6]) -> (c: UnitCube)
        ensures
            c.mat == mat,
    {
        UnitCube { mat }
    }

    /// The same material on all six faces.
    pub fn from_one(mat: u32) -> (c: UnitCube)
        ensures
            c.mat == [mat, mat, mat, mat, mat, mat],
    {
        UnitCube { mat: [mat, mat, mat, mat, mat, mat] }
    }

    pub fn hit(&self, ray: &Ray, t_min: i64, t_max: i64) -> (res: Option<HitRecord>)
        requires
            rok(*ray),
            sok(t_min),
            sok(t_max),
        ensures
            res == cube_hit_spec(self.mat, *ray, t_min, t_max),
            res matches Some(h) ==> crate::geometry::hrok(h),
    {
        let s0 = Self::face_step(ray, t_min, t_max, 0, true, None);
        let s1 = Self::face_step(ray, t_min, t_max, 0, false, s0);
        let s2 = Self::face_step(ray, t_min, t_max, 1, true, s1);
        let s3 = Self::face_step(ray, t_min, t_max, 1, false, s2);
        let s4 = Self::face_step(ray, t_min, t_max, 2, true, s3);
        let s5 = Self::face_step(ray, t_min, t_max, 2, false, s4);
        match s5 {
            None => None,
            Some((t, u, v, face)) => {
                let p = ray.at(t);
                let pos = face % 2 == 0;
                let axis = face / 2;
                let sgn: i64 = if pos {
                    FX_ONE
                } else {
                    -FX_ONE
                };
                let normal = if axis == 0 {
                    Vec3d { x: sgn, y: 0, z: 0 }
                } else if axis == 1 {
                    Vec3d { x: 0, y: sgn, z: 0 }
                } else {
                    Vec3d { x: 0, y: 0, z: sgn }
                };
                Some(
                    HitRecord {
                        point: p,
                        unit_normal: normal,
                        hit_t: t,
                        material: self.mat[face],
                        mat_uv: UV { u: u + HALF_FX, v: v + HALF_FX },
                    },
                )
            },
        }
    }

    /// One face of the scan, executable.
    #[verifier::rlimit(50)]
    fn face_step(
        ray: &Ray,
        t_min: i64,
        t_max: i64,
        axis: usize,
        pos: bool,
        cur: Option<(i64, i64, i64, usize)>,
    ) -> (res: Option<(i64, i64, i64, usize)>)
        requires
            rok(*ray),
            sok(t_min),
            sok(t_max),
            axis < 3,
            cur matches Some(w) ==> sok(w.0) && -FACE_BOUND_FX <= w.1 <= FACE_BOUND_FX
                && -FACE_BOUND_FX <= w.2 <= FACE_BOUND_FX && w.3 < 6,
        ensures
            rel_scan(cube_face_step(*ray, t_min, t_max, axis as int, pos, lift_scan(cur)), res),
            res matches Some(w) ==> sok(w.0) && -FACE_BOUND_FX <= w.1 <= FACE_BOUND_FX
                && -FACE_BOUND_FX <= w.2 <= FACE_BOUND_FX && w.3 < 6,
    {
        let d: i64 = if axis == 0 {
            ray.direction.x
        } else if axis == 1 {
            ray.direction.y
        } else {
            ray.direction.z
        };
        if d == 0 {
            return cur;
        }
        let o: i64 = if axis == 0 {
            ray.origin.x
        } else if axis == 1 {
            ray.origin.y
        } else {
            ray.origin.z
        };
        let h: i64 = if pos {
            HALF_FX
        } else {
            -HALF_FX
        };
        proof {
            crate::fixed::lemma_mul_bound((h as int) - (o as int), FX_ONE as int,
                0x2_0000_0000, 65536);
        }
        let num: i128 = ((h as i128) - (o as i128)) * (FX_ONE as i128);
        let dd: i128 = d as i128;
        let t128: i128 = if dd > 0 {
            if num >= 0 { num / dd } else { -((-num) / dd) }
        } else {
            if num >= 0 { -(num / (-dd)) } else { (-num) / (-dd) }
        };
        let worse = match cur {
            Some(w) => t128 > w.0 as i128,
            None => false,
        };
        if worse || t128 < t_min as i128 || (t_max as i128) < t128 {
            return cur;
        }
        let t: i64 = t128 as i64;
        let p = ray.at(t);
        let (u, v): (i64, i64) = if axis == 0 {
            if pos {
                (-p.z, p.y)
            } else {
                (p.z, p.y)
            }
        } else if axis == 1 {
            if pos {
                (p.x, -p.z)
            } else {
                (p.x, p.z)
            }
        } else {
            if pos {
                (p.x, p.y)
            } else {
                (-p.x, p.y)
            }
        };
        if u < -FACE_BOUND_FX || u > FACE_BOUND_FX || v < -FACE_BOUND_FX || v > FACE_BOUND_FX {
            return cur;
        }
        let face: usize = axis * 2 + if pos {
            0
        } else {
            1
        };
        Some((t, u, v, face))
    }

    /// The tight box around the cube.
    pub fn bounding_box(&self) -> (b: Aabb)
        ensures
            b == cube_bbox_spec(),
    {
        Aabb {
            min: Vec3d { x: -HALF_FX, y: -HALF_FX, z: -HALF_FX },
            max: Vec3d { x: HALF_FX, y: HALF_FX, z: HALF_FX },
        }
    }
}

/// The tight box around the cube.
pub open spec fn cube_bbox_spec() -> Aabb {
    Aabb {
        min: Vec3d { x: -HALF_FX as i64, y: -HALF_FX as i64, z: -HALF_FX as i64 },
        max: Vec3d { x: HALF_FX, y: HALF_FX, z: HALF_FX },
    }
}

/// The spec image of an executable scan state.
pub open spec fn lift_scan(cur: Option<(i64, i64, i64, usize)>) -> Option<(int, int, int, int)> {
    match cur {
        None => None,
        Some(w) => Some((w.0 as int, w.1 as int, w.2 as int, w.3 as int)),
    }
}

/// The executable scan state matches the spec scan state.
pub open spec fn rel_scan(s: Option<(int, int, int, int)>, e: Option<(i64, i64, i64, usize)>)
    -> bool {
    s == lift_scan(e)
}

} // verus!
