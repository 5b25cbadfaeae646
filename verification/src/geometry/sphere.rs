use vstd::prelude::*;
use crate::fixed::{fdiv, sok, sqrt_floor, tdiv, FX_ONE};
use crate::geometry::{Aabb, HitRecord};
use crate::ray::{at_spec, rok, Ray};
use crate::trig::{acos_spec, atan2_spec, PI_FX};
use crate::vec3::{dot3, vok, Vec3d, DOT_LIMIT, UV};

verus! {

/// The unit sphere: center at the origin, radius one.
pub struct UnitSphere {
    pub mat: u32,
}

/// Saturation of a scalar into the unit range, for the arccosine.
pub open spec fn clamp_unit(x: int) -> int {
    if x < -(FX_ONE as int) {
        -(FX_ONE as int)
    } else if x > FX_ONE as int {
        FX_ONE as int
    } else {
        x
    }
}

/// The spherical surface coordinate of a point on (or near) the sphere:
/// `theta = acos(-y)`, `phi = atan2(-z, x) + pi`, normalized to the unit
/// square.
pub open spec fn sphere_uv_spec(p: Vec3d) -> UV {
    let theta = acos_spec(clamp_unit(-p.y));
    let phi = atan2_spec(-p.z, p.x as int) + PI_FX;
    UV { u: fdiv(phi, 2 * (PI_FX as int)) as i64, v: fdiv(theta, PI_FX as int) as i64 }
}

/// The squared length of the ray's direction.
pub open spec fn sph_a(r: Ray) -> int {
    dot3(r.direction, r.direction)
}

/// Half the linear coefficient of the sphere quadratic.
pub open spec fn sph_hb(r: Ray) -> int {
    dot3(r.origin, r.direction)
}

/// The constant coefficient of the sphere quadratic.
pub open spec fn sph_c(r: Ray) -> int {
    dot3(r.origin, r.origin) - FX_ONE
}

/// The discriminant `hb^2 - a c` (raw, carrying two scale factors).
pub open spec fn sph_disc(r: Ray) -> int {
    sph_hb(r) * sph_hb(r) - sph_a(r) * sph_c(r)
}

/// The nearer quadratic root `(-hb - sqrt(disc)) / a`.
pub open spec fn sph_root_near(r: Ray) -> int {
    tdiv((-sph_hb(r) - sqrt_floor(sph_disc(r))) * (FX_ONE as int), sph_a(r))
}

/// The farther quadratic root `(-hb + sqrt(disc)) / a`.
pub open spec fn sph_root_far(r: Ray) -> int {
    tdiv((-sph_hb(r) + sqrt_floor(sph_disc(r))) * (FX_ONE as int), sph_a(r))
}

/// The record the sphere reports for a root `t`.
pub open spec fn sphere_record_spec(mat: u32, r: Ray, t: int) -> HitRecord {
    let p = at_spec(r, t);
    HitRecord {
        point: p,
        unit_normal: Vec3d::normalize_spec(p),
        hit_t: t as i64,
        material: mat,
        mat_uv: sphere_uv_spec(p),
    }
}

/// The sphere intersection: the nearer root when it lies in the window, else
/// the farther root when it does, else no hit; no hit as well on a degenerate
/// direction or a negative discriminant.
pub open spec fn sphere_hit_spec(mat: u32, r: Ray, t_min: i64, t_max: i64) -> Option<HitRecord> {
    if sph_a(r) <= 0 {
        None
    } else if sph_disc(r) < 0 {
        None
    } else {
        let near = sph_root_near(r);
        let far = sph_root_far(r);
        if t_min <= near <= t_max {
            Some(sphere_record_spec(mat, r, near))
        } else if t_min <= far <= t_max {
            Some(sphere_record_spec(mat, r, far))
        } else {
            None
        }
    }
}

impl UnitSphere {
    pub fn new(mat: u32) -> (s: UnitSphere)
        ensures
            s.mat == mat,
    {
        UnitSphere { mat }
    }

    /// The nearest intersection with the unit sphere inside the window
    /// `[t_min, t_max]`: the smaller quadratic root when it lies in range,
    /// else the larger, else none.
    pub fn hit(&self, ray: &Ray, t_min: i64, t_max: i64) -> (res: Option<HitRecord>)
        requires
            rok(*ray),
            sok(t_min),
            sok(t_max),
        ensures
            res == sphere_hit_spec(self.mat, *ray, t_min, t_max),
            res matches Some(h) ==> crate::geometry::hrok(h) && h.material == self.mat,
            // The nearer admissible root wins; the farther is the fallback.
            sph_a(*ray) > 0 && sph_disc(*ray) >= 0 && t_min <= sph_root_near(*ray) <= t_max
                ==> (res matches Some(h) && h.hit_t == sph_root_near(*ray)),
            sph_a(*ray) > 0 && sph_disc(*ray) >= 0 && !(t_min <= sph_root_near(*ray) <= t_max)
                && t_min <= sph_root_far(*ray) <= t_max ==> (res matches Some(h) && h.hit_t
                == sph_root_far(*ray)),
    {
        let a = ray.direction.length_squared();
        if a <= 0 {
            return None;
        }
        let hb = ray.origin.dot(&ray.direction);
        let cc = ray.origin.length_squared() - FX_ONE;
        proof {
            crate::fixed::lemma_mul_bound(hb as int, hb as int, DOT_LIMIT as int, DOT_LIMIT as int);
            crate::fixed::lemma_mul_bound(a as int, cc as int, DOT_LIMIT as int,
                (DOT_LIMIT as int) + 65536);
        }
        let disc: i128 = (hb as i128) * (hb as i128) - (a as i128) * (cc as i128);
        if disc < 0 {
            return None;
        }
        let sq = crate::fixed::isqrt_u128(disc as u128);
        proof {
            crate::fixed::lemma_sqrt_floor_unique(disc as int, sq as int);
            assert(sq as int <= 0x10_0000_0000_0000_0000) by (nonlinear_arith)
                requires
                    (sq as int) * (sq as int) <= disc as int,
                    disc as int <= 0x100_0000_0000_0000_0000_0000_0000_0000,
                    sq >= 0;
        }
        let sq128: i128 = sq as i128;
        let a128: i128 = a as i128;
        let num1: i128 = (-(hb as i128) - sq128) * (FX_ONE as i128);
        let r1: i128 = if num1 >= 0 {
            num1 / a128
        } else {
            -((-num1) / a128)
        };
        let t_min128: i128 = t_min as i128;
        let t_max128: i128 = t_max as i128;
        let root: i64 = if t_min128 <= r1 && r1 <= t_max128 {
            r1 as i64
        } else {
            let num2: i128 = (-(hb as i128) + sq128) * (FX_ONE as i128);
            let r2: i128 = if num2 >= 0 {
                num2 / a128
            } else {
                -((-num2) / a128)
            };
            if t_min128 <= r2 && r2 <= t_max128 {
                r2 as i64
            } else {
                return None;
            }
        };
        let p = ray.at(root);
        let n = p.normalize();
        Some(
            HitRecord {
                point: p,
                unit_normal: n,
                hit_t: root,
                material: self.mat,
                mat_uv: Self::uv_at(p),
            },
        )
    }

    /// The spherical surface coordinate of a hit point.
    fn uv_at(p: Vec3d) -> (uv: UV)
        requires
            vok(p),
        ensures
            uv == sphere_uv_spec(p),
            0 <= uv.u <= FX_ONE,
            0 <= uv.v <= FX_ONE,
    {
        let my: i64 = -p.y;
        let cy: i64 = if my < -FX_ONE {
            -FX_ONE
        } else if my > FX_ONE {
            FX_ONE
        } else {
            my
        };
        let theta = crate::trig::acos(cy);
        let phi = crate::trig::atan2(-p.z, p.x) + PI_FX;
        proof {
            crate::trig::lemma_ratio_unit(phi as int, 2 * (PI_FX as int));
            crate::trig::lemma_ratio_unit(theta as int, PI_FX as int);
        }
        UV { u: crate::fixed::fx_div(phi, 2 * PI_FX), v: crate::fixed::fx_div(theta, PI_FX) }
    }

    /// The tight box around the unit sphere.
    pub fn bounding_box(&self) -> (b: Aabb)
        ensures
            b == sphere_bbox_spec(),
    {
        Aabb {
            min: Vec3d { x: -FX_ONE, y: -FX_ONE, z: -FX_ONE },
            max: Vec3d { x: FX_ONE, y: FX_ONE, z: FX_ONE },
        }
    }
}

/// The tight box around the unit sphere.
pub open spec fn sphere_bbox_spec() -> Aabb {
    Aabb {
        min: Vec3d { x: -(FX_ONE as int) as i64, y: -(FX_ONE as int) as i64, z: -(
        FX_ONE as int) as i64 },
        max: Vec3d { x: FX_ONE as i64, y: FX_ONE as i64, z: FX_ONE as i64 },
    }
}

} // verus!
