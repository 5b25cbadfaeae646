use vstd::prelude::*;
use crate::fixed::{fdiv, sok, FX_ONE};
use crate::geometry::{Aabb, HitRecord};
use crate::ray::{at_spec, rok, Ray};
use crate::vec3::{Vec3d, UV};

verus! {

/// Half a unit, the quad's extent on each side of the origin.
pub const HALF_FX: i64 = 32768;

/// Direction-component threshold under which a ray counts as parallel to a
/// plane.
pub const PLANE_EPS: i64 = 1;

/// The unit quad: `[-1/2, 1/2]^2` in the XY plane, outward normal `+Z`.
pub struct UnitQuad {
    pub mat: u32,
}

/// The quad intersection: the plane parameter `-origin.z / direction.z`,
/// rejected when the ray runs parallel to the plane, leaves the window, or
/// meets the plane outside the square.
pub open spec fn quad_hit_spec(mat: u32, r: Ray, t_min: i64, t_max: i64) -> Option<HitRecord> {
    let denom = r.direction.z as int;
    if -PLANE_EPS < denom < PLANE_EPS {
        None
    } else {
        let t = fdiv(-(r.origin.z as int), denom);
        if t < t_min || t > t_max {
            None
        } else {
            let p = at_spec(r, t);
            if p.x < -HALF_FX || p.x > HALF_FX || p.y < -HALF_FX || p.y > HALF_FX {
                None
            } else {
                Some(
                    HitRecord {
                        point: p,
                        unit_normal: Vec3d { x: 0, y: 0, z: FX_ONE as i64 },
                        hit_t: t as i64,
                        material: mat,
                        mat_uv: UV { u: (p.x + HALF_FX) as i64, v: (p.y + HALF_FX) as i64 },
                    },
                )
            }
        }
    }
}

impl UnitQuad {
    pub fn new(mat: u32) -> (q: UnitQuad)
        ensures
            q.mat == mat,
    {
        UnitQuad { mat }
    }

    pub fn hit(&self, ray: &Ray, t_min: i64, t_max: i64) -> (res: Option<HitRecord>)
        requires
            rok(*ray),
            sok(t_min),
            sok(t_max),
        ensures
            res == quad_hit_spec(self.mat, *ray, t_min, t_max),
            res matches Some(h) ==> crate::geometry::hrok(h) && h.material == self.mat,
    {
        let denom = ray.direction.z;
        if -PLANE_EPS < denom && denom < PLANE_EPS {
            return None;
        }
        let num: i128 = -(ray.origin.z as i128) * (FX_ONE as i128);
        let dd: i128 = denom as i128;
        let t128: i128 = if dd > 0 {
            if num >= 0 { num / dd } else { -((-num) / dd) }
        } else {
            if num >= 0 { -(num / (-dd)) } else { (-num) / (-dd) }
        };
        if t128 < t_min as i128 || t128 > t_max as i128 {
            return None;
        }
        let t: i64 = t128 as i64;
        let p = ray.at(t);
        if p.x < -HALF_FX || p.x > HALF_FX || p.y < -HALF_FX || p.y > HALF_FX {
            return None;
        }
        Some(
            HitRecord {
                point: p,
                unit_normal: Vec3d { x: 0, y: 0, z: FX_ONE },
                hit_t: t,
                material: self.mat,
                mat_uv: UV { u: p.x + HALF_FX, v: p.y + HALF_FX },
            },
        )
    }

    /// The flat box around the quad.
    pub fn bounding_box(&self) -> (b: Aabb)
        ensures
            b == quad_bbox_spec(),
    {
        Aabb {
            min: Vec3d { x: -HALF_FX, y: -HALF_FX, z: 0 },
            max: Vec3d { x: HALF_FX, y: HALF_FX, z: 0 },
        }
    }
}

/// The flat box around the quad.
pub open spec fn quad_bbox_spec() -> Aabb {
    Aabb {
        min: Vec3d { x: -HALF_FX as i64, y: -HALF_FX as i64, z: 0 },
        max: Vec3d { x: HALF_FX, y: HALF_FX, z: 0 },
    }
}

} // verus!
