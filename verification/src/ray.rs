use vstd::prelude::*;
use crate::fixed::{fdiv, fmul, fx_div, fx_mul, fx_sqrt, fsqrt, sok, tdiv, COORD_LIMIT, FX_ONE};
use crate::vec3::{dot3, vok, Vec3d, UNIT_LIMIT};

verus! {

/// Offset along the surface normal that keeps a secondary ray from
/// immediately meeting the surface it starts on ("shadow acne").
pub const RAY_EPS: i64 = 66;

/// A half-line `origin + direction * t`; the direction need not be unit length.
#[derive(Clone, Copy, Debug, PartialEq, Eq, Structural)]
pub struct Ray {
    pub origin: Vec3d,
    pub direction: Vec3d,
}

/// Both defining vectors within the coordinate range.
pub open spec fn rok(r: Ray) -> bool {
    vok(r.origin) && vok(r.direction)
}

/// Components of a normalized (or comparably small) direction.
pub open spec fn nok(v: Vec3d) -> bool {
    -UNIT_LIMIT <= v.x <= UNIT_LIMIT && -UNIT_LIMIT <= v.y <= UNIT_LIMIT && -UNIT_LIMIT <= v.z
        <= UNIT_LIMIT
}

/// Largest direction-component magnitude under which a mirrored direction is
/// sure to stay within the coordinate range.
pub const DIR_LIMIT: i64 = 0x100_0000;

/// A ray direction moderate enough for the scattering pipeline: mirroring it
/// about a unit-bounded normal cannot leave the coordinate range.
pub open spec fn dirok(v: Vec3d) -> bool {
    -DIR_LIMIT <= v.x <= DIR_LIMIT && -DIR_LIMIT <= v.y <= DIR_LIMIT && -DIR_LIMIT <= v.z
        <= DIR_LIMIT
}

/// Saturation of a scalar into the coordinate range.
pub open spec fn clamp_s(x: int) -> int {
    if x < -(COORD_LIMIT as int) {
        -(COORD_LIMIT as int)
    } else if x > COORD_LIMIT as int {
        COORD_LIMIT as int
    } else {
        x
    }
}

/// The point a ray reaches at parameter `t`, each component rounded once and
/// saturated into the coordinate range.
pub open spec fn at_spec(r: Ray, t: int) -> Vec3d {
    Vec3d {
        x: clamp_s(r.origin.x + fmul(r.direction.x as int, t)) as i64,
        y: clamp_s(r.origin.y + fmul(r.direction.y as int, t)) as i64,
        z: clamp_s(r.origin.z + fmul(r.direction.z as int, t)) as i64,
    }
}

/// Saturate one scalar into the coordinate range.
pub fn clamp_coord(x: i64) -> (r: i64)
    ensures
        r == clamp_s(x as int),
        sok(r),
{
    if x < -COORD_LIMIT {
        -COORD_LIMIT
    } else if x > COORD_LIMIT {
        COORD_LIMIT
    } else {
        x
    }
}

/// The flip of a normal toward the side the incoming direction comes in on.
pub open spec fn faced_normal(dir: Vec3d, n: Vec3d) -> Vec3d {
    if dot3(dir, n) > 0 {
        n
    } else {
        Vec3d { x: (-n.x) as i64, y: (-n.y) as i64, z: (-n.z) as i64 }
    }
}

impl Ray {
    #[inline]
    pub fn new(origin: Vec3d, direction: Vec3d) -> (r: Ray)
        ensures
            r == (Ray { origin, direction }),
    {
        Ray { origin, direction }
    }

    /// Evaluate the ray at parameter `t` (fixed point); the result is
    /// saturated into the coordinate range, which leaves in-range points
    /// untouched.
    pub fn at(&self, t: i64) -> (p: Vec3d)
        requires
            rok(*self),
            sok(t),
        ensures
            p == at_spec(*self, t as int),
            vok(p),
    {
        proof {
            lemma_at_bound(self.direction.x as int, t as int);
            lemma_at_bound(self.direction.y as int, t as int);
            lemma_at_bound(self.direction.z as int, t as int);
        }
        Vec3d {
            x: clamp_coord(self.origin.x + fx_mul(self.direction.x, t)),
            y: clamp_coord(self.origin.y + fx_mul(self.direction.y, t)),
            z: clamp_coord(self.origin.z + fx_mul(self.direction.z, t)),
        }
    }

    /// The mirrored continuation of a ray at parameter `hit_t` off a surface
    /// with unit normal `n`: the normal is flipped, if needed, toward the
    /// incoming direction; the new origin sits at the hit point nudged by
    /// `RAY_EPS` against the flipped normal; the new direction is the mirror
    /// image `d - 2 (n . d) n` of the raw incoming direction `d`, each
    /// product rounded once.
    pub open spec fn reflect_spec(r: Ray, hit_t: int, n: Vec3d) -> Ray {
        let nf = faced_normal(r.direction, n);
        let p = at_spec(r, hit_t);
        let origin = Vec3d {
            x: clamp_s(p.x - fmul(nf.x as int, RAY_EPS as int)) as i64,
            y: clamp_s(p.y - fmul(nf.y as int, RAY_EPS as int)) as i64,
            z: clamp_s(p.z - fmul(nf.z as int, RAY_EPS as int)) as i64,
        };
        let s = 2 * dot3(r.direction, nf);
        let direction = Vec3d {
            x: (r.direction.x - fmul(nf.x as int, s)) as i64,
            y: (r.direction.y - fmul(nf.y as int, s)) as i64,
            z: (r.direction.z - fmul(nf.z as int, s)) as i64,
        };
        Ray { origin, direction }
    }

    pub fn reflect(&self, hit_t: i64, n: &Vec3d) -> (r: Ray)
        requires
            rok(*self),
            sok(hit_t),
            nok(*n),
        ensures
            r == Ray::reflect_spec(*self, hit_t as int, *n),
            vok(r.origin),
            dirok(self.direction) ==> rok(r) && vok(r.direction),
    {
        let nf = if self.direction.is_facing(n) {
            *n
        } else {
            n.neg()
        };
        let p = self.at(hit_t);
        proof {
            lemma_eps_offset_bound(nf);
        }
        let origin = Vec3d {
            x: clamp_coord(p.x - fx_mul(nf.x, RAY_EPS)),
            y: clamp_coord(p.y - fx_mul(nf.y, RAY_EPS)),
            z: clamp_coord(p.z - fx_mul(nf.z, RAY_EPS)),
        };
        let s = 2 * self.direction.dot(&nf);
        proof {
            lemma_mirror_term_bound(self.direction, nf, s as int);
        }
        let direction = self.direction.sub(&nf.scale(s));
        Ray { origin, direction }
    }

    /// The refracted continuation of a ray at parameter `hit_t` through a
    /// surface with unit normal `n`, by Snell's law over the normalized
    /// incoming direction; `None` exactly when the discriminant
    /// `1 - |r_perp|^2` turns negative (total internal reflection). The
    /// bounds on the refraction indices (at most sixteen, with a ratio of at
    /// most sixteen) are machine limits of the fixed-point products, far
    /// above any physical index.
    pub open spec fn refract_spec(r: Ray, hit_t: int, n: Vec3d, eta_in: int, eta_out: int)
        -> Option<Ray> {
        let nf = faced_normal(r.direction, n);
        let p = at_spec(r, hit_t);
        let origin = Vec3d {
            x: clamp_s(p.x + fmul(nf.x as int, RAY_EPS as int)) as i64,
            y: clamp_s(p.y + fmul(nf.y as int, RAY_EPS as int)) as i64,
            z: clamp_s(p.z + fmul(nf.z as int, RAY_EPS as int)) as i64,
        };
        let u = Vec3d::normalize_spec(r.direction);
        let cos_i = if dot3(u, nf) < FX_ONE as int {
            dot3(u, nf)
        } else {
            FX_ONE as int
        };
        let eta = fdiv(eta_in, eta_out);
        let perp0 = Vec3d {
            x: (u.x - fmul(nf.x as int, cos_i)) as i64,
            y: (u.y - fmul(nf.y as int, cos_i)) as i64,
            z: (u.z - fmul(nf.z as int, cos_i)) as i64,
        };
        let perp = Vec3d {
            x: fmul(perp0.x as int, eta) as i64,
            y: fmul(perp0.y as int, eta) as i64,
            z: fmul(perp0.z as int, eta) as i64,
        };
        let disc = (FX_ONE as int) - dot3(perp, perp);
        if disc < 0 {
            None
        } else {
            let para = fsqrt(disc);
            let direction = Vec3d {
                x: (perp.x + fmul(nf.x as int, para)) as i64,
                y: (perp.y + fmul(nf.y as int, para)) as i64,
                z: (perp.z + fmul(nf.z as int, para)) as i64,
            };
            Some(Ray { origin, direction })
        }
    }

    pub fn refract(&self, hit_t: i64, n: &Vec3d, eta_in: i64, eta_out: i64) -> (r: Option<Ray>)
        requires
            rok(*self),
            sok(hit_t),
            nok(*n),
            0 < eta_in <= 16 * FX_ONE,
            0 < eta_out <= 16 * FX_ONE,
            eta_in <= 16 * eta_out,
        ensures
            r == Ray::refract_spec(*self, hit_t as int, *n, eta_in as int, eta_out as int),
            r is Some ==> rok(r->0),
    {
        let nf = if self.direction.is_facing(n) {
            *n
        } else {
            n.neg()
        };
        let p = self.at(hit_t);
        proof {
            lemma_eps_offset_bound(nf);
        }
        let origin = Vec3d {
            x: clamp_coord(p.x + fx_mul(nf.x, RAY_EPS)),
            y: clamp_coord(p.y + fx_mul(nf.y, RAY_EPS)),
            z: clamp_coord(p.z + fx_mul(nf.z, RAY_EPS)),
        };
        let u = self.direction.normalize();
        let d = u.dot(&nf);
        let cos_i = if d < FX_ONE {
            d
        } else {
            FX_ONE
        };
        proof {
            lemma_unit_dot_bound(u, nf);
            lemma_eta_bound(eta_in as int, eta_out as int);
            lemma_scaled_normal_bound(nf, cos_i as int);
        }
        let eta = fx_div(eta_in, eta_out);
        let perp0 = u.sub(&nf.scale(cos_i));
        proof {
            lemma_perp_scale_bound(perp0, eta as int);
        }
        let perp = perp0.scale(eta);
        let disc = FX_ONE - perp.length_squared();
        if disc < 0 {
            None
        } else {
            let para = fx_sqrt(disc);
            proof {
                lemma_para_bound(disc as int);
                lemma_scaled_normal_bound(nf, para as int);
            }
            let direction = perp.add(&nf.scale(para));
            Some(Ray { origin, direction })
        }
    }
}

/// `fmul` of a coordinate-bounded direction with a coordinate-bounded
/// parameter stays well inside 64 bits.
proof fn lemma_at_bound(d: int, t: int)
    requires
        -(COORD_LIMIT as int) <= d <= COORD_LIMIT as int,
        -(COORD_LIMIT as int) <= t <= COORD_LIMIT as int,
    ensures
        -0x1_0000_0000_0000 <= fmul(d, t) <= 0x1_0000_0000_0000,
{
    crate::fixed::lemma_fmul_bound(d, t, COORD_LIMIT as int, COORD_LIMIT as int);
    assert(tdiv((COORD_LIMIT as int) * (COORD_LIMIT as int), FX_ONE as int)
        == 0x1_0000_0000_0000);
}

/// The shadow-acne offset of a unit-bounded normal is a few hundred steps.
proof fn lemma_eps_offset_bound(nf: Vec3d)
    requires
        nok(nf),
    ensures
        -0x10_0000 <= fmul(nf.x as int, RAY_EPS as int) <= 0x10_0000,
        -0x10_0000 <= fmul(nf.y as int, RAY_EPS as int) <= 0x10_0000,
        -0x10_0000 <= fmul(nf.z as int, RAY_EPS as int) <= 0x10_0000,
{
    crate::fixed::lemma_fmul_bound(nf.x as int, RAY_EPS as int, UNIT_LIMIT as int, 66);
    crate::fixed::lemma_fmul_bound(nf.y as int, RAY_EPS as int, UNIT_LIMIT as int, 66);
    crate::fixed::lemma_fmul_bound(nf.z as int, RAY_EPS as int, UNIT_LIMIT as int, 66);
    assert(tdiv((UNIT_LIMIT as int) * 66, FX_ONE as int) <= 0x10_0000);
}

/// The mirror correction `2 (n . d) n` fits 64 bits for any coordinate-range
/// direction, and keeps the mirrored direction within the coordinate range
/// for a moderate one.
proof fn lemma_mirror_term_bound(d: Vec3d, nf: Vec3d, s: int)
    requires
        vok(d),
        nok(nf),
        s == 2 * dot3(d, nf),
    ensures
        -0x60_0000_0000 <= fmul(nf.x as int, s) <= 0x60_0000_0000,
        -0x60_0000_0000 <= fmul(nf.y as int, s) <= 0x60_0000_0000,
        -0x60_0000_0000 <= fmul(nf.z as int, s) <= 0x60_0000_0000,
        dirok(d) ==> -0x6000_0000 <= fmul(nf.x as int, s) <= 0x6000_0000
            && -0x6000_0000 <= fmul(nf.y as int, s) <= 0x6000_0000 && -0x6000_0000 <= fmul(
            nf.z as int,
            s,
        ) <= 0x6000_0000,
{
    let u = UNIT_LIMIT as int;
    let fx = FX_ONE as int;
    crate::fixed::lemma_mul_bound(d.x as int, nf.x as int, COORD_LIMIT as int, u);
    crate::fixed::lemma_mul_bound(d.y as int, nf.y as int, COORD_LIMIT as int, u);
    crate::fixed::lemma_mul_bound(d.z as int, nf.z as int, COORD_LIMIT as int, u);
    crate::fixed::lemma_tdiv_bound(d.x * nf.x + d.y * nf.y + d.z * nf.z, fx,
        3 * (COORD_LIMIT as int) * u);
    assert(tdiv(3 * (COORD_LIMIT as int) * u, fx) == 0xC_0000_0000);
    crate::fixed::lemma_fmul_bound(nf.x as int, s, u, 0x18_0000_0000);
    crate::fixed::lemma_fmul_bound(nf.y as int, s, u, 0x18_0000_0000);
    crate::fixed::lemma_fmul_bound(nf.z as int, s, u, 0x18_0000_0000);
    assert(tdiv(u * 0x18_0000_0000, fx) == 0x60_0000_0000);
    if dirok(d) {
        crate::fixed::lemma_mul_bound(d.x as int, nf.x as int, DIR_LIMIT as int, u);
        crate::fixed::lemma_mul_bound(d.y as int, nf.y as int, DIR_LIMIT as int, u);
        crate::fixed::lemma_mul_bound(d.z as int, nf.z as int, DIR_LIMIT as int, u);
        crate::fixed::lemma_tdiv_bound(d.x * nf.x + d.y * nf.y + d.z * nf.z, fx,
            3 * (DIR_LIMIT as int) * u);
        assert(tdiv(3 * (DIR_LIMIT as int) * u, fx) == 0xC00_0000);
        crate::fixed::lemma_fmul_bound(nf.x as int, s, u, 0x1800_0000);
        crate::fixed::lemma_fmul_bound(nf.y as int, s, u, 0x1800_0000);
        crate::fixed::lemma_fmul_bound(nf.z as int, s, u, 0x1800_0000);
        assert(tdiv(u * 0x1800_0000, fx) == 0x6000_0000);
    }
}

/// The dot product of two unit-bounded vectors stays within `48 * FX_ONE`.
proof fn lemma_unit_dot_bound(a: Vec3d, b: Vec3d)
    requires
        nok(a),
        nok(b),
    ensures
        -48 * (FX_ONE as int) <= dot3(a, b) <= 48 * (FX_ONE as int),
{
    crate::fixed::lemma_mul_bound(a.x as int, b.x as int, UNIT_LIMIT as int, UNIT_LIMIT as int);
    crate::fixed::lemma_mul_bound(a.y as int, b.y as int, UNIT_LIMIT as int, UNIT_LIMIT as int);
    crate::fixed::lemma_mul_bound(a.z as int, b.z as int, UNIT_LIMIT as int, UNIT_LIMIT as int);
    crate::fixed::lemma_tdiv_bound(a.x * b.x + a.y * b.y + a.z * b.z, FX_ONE as int,
        3 * (UNIT_LIMIT as int) * (UNIT_LIMIT as int));
    assert(tdiv(3 * (UNIT_LIMIT as int) * (UNIT_LIMIT as int), FX_ONE as int)
        == 48 * (FX_ONE as int));
}

/// Scaling a unit-bounded normal by a scalar of at most `96 * FX_ONE`
/// magnitude keeps every component within `0x180_0000`.
proof fn lemma_scaled_normal_bound(nf: Vec3d, s: int)
    requires
        nok(nf),
        -96 * (FX_ONE as int) <= s <= 96 * (FX_ONE as int),
    ensures
        -0x180_0000 <= fmul(nf.x as int, s) <= 0x180_0000,
        -0x180_0000 <= fmul(nf.y as int, s) <= 0x180_0000,
        -0x180_0000 <= fmul(nf.z as int, s) <= 0x180_0000,
{
    crate::fixed::lemma_fmul_bound(nf.x as int, s, UNIT_LIMIT as int, 96 * (FX_ONE as int));
    crate::fixed::lemma_fmul_bound(nf.y as int, s, UNIT_LIMIT as int, 96 * (FX_ONE as int));
    crate::fixed::lemma_fmul_bound(nf.z as int, s, UNIT_LIMIT as int, 96 * (FX_ONE as int));
    assert(tdiv((UNIT_LIMIT as int) * (96 * (FX_ONE as int)), FX_ONE as int) == 0x180_0000);
}

/// The ratio of two refraction indices stays within `16 * FX_ONE`.
proof fn lemma_eta_bound(eta_in: int, eta_out: int)
    requires
        0 < eta_in <= 16 * (FX_ONE as int),
        0 < eta_out <= 16 * (FX_ONE as int),
        eta_in <= 16 * eta_out,
    ensures
        0 <= fdiv(eta_in, eta_out) <= 16 * (FX_ONE as int),
{
    let s = FX_ONE as int;
    assert(eta_in * 65536 >= 0) by (nonlinear_arith)
        requires eta_in > 0;
    assert(eta_in * s >= 0);
    vstd::arithmetic::div_mod::lemma_div_pos_is_pos(eta_in * s, eta_out);
    assert(eta_in * s <= (16 * s) * eta_out) by (nonlinear_arith)
        requires eta_in <= 16 * eta_out, s > 0;
    crate::fixed::lemma_tdiv_ordered(eta_in * s, (16 * s) * eta_out, eta_out);
    crate::fixed::lemma_tdiv_exact(16 * s, eta_out);
}

/// Scaling the perpendicular component by the index ratio keeps every
/// component within the coordinate range.
proof fn lemma_perp_scale_bound(perp0: Vec3d, eta: int)
    requires
        -0x184_0000 <= perp0.x <= 0x184_0000,
        -0x184_0000 <= perp0.y <= 0x184_0000,
        -0x184_0000 <= perp0.z <= 0x184_0000,
        0 <= eta <= 16 * (FX_ONE as int),
    ensures
        -0x1840_0000 <= fmul(perp0.x as int, eta) <= 0x1840_0000,
        -0x1840_0000 <= fmul(perp0.y as int, eta) <= 0x1840_0000,
        -0x1840_0000 <= fmul(perp0.z as int, eta) <= 0x1840_0000,
{
    crate::fixed::lemma_fmul_bound(perp0.x as int, eta, 0x184_0000, 16 * (FX_ONE as int));
    crate::fixed::lemma_fmul_bound(perp0.y as int, eta, 0x184_0000, 16 * (FX_ONE as int));
    crate::fixed::lemma_fmul_bound(perp0.z as int, eta, 0x184_0000, 16 * (FX_ONE as int));
    assert(tdiv(0x184_0000 * (16 * (FX_ONE as int)), FX_ONE as int) == 0x1840_0000);
}

/// The square root of a discriminant bounded by one is bounded by one.
proof fn lemma_para_bound(disc: int)
    requires
        0 <= disc <= FX_ONE as int,
    ensures
        0 <= fsqrt(disc) <= 0x2_0000,
{
    crate::fixed::lemma_sqrt_floor_correct(disc * (FX_ONE as int));
    let r = fsqrt(disc);
    assert(r <= 0x2_0000) by (nonlinear_arith)
        requires
            r * r <= disc * 65536,
            disc <= 65536,
            r >= 0;
}

/// The exact (unrounded) mirror image about a normal, scaled through by
/// `|n|^2` so that no division appears: `i |n|^2 - 2 (n . i) n`.
pub open spec fn mirror_exact(i: (int, int, int), n: (int, int, int)) -> (int, int, int) {
    let d = n.0 * n.0 + n.1 * n.1 + n.2 * n.2;
    let p = n.0 * i.0 + n.1 * i.1 + n.2 * i.2;
    (i.0 * d - 2 * p * n.0, i.1 * d - 2 * p * n.1, i.2 * d - 2 * p * n.2)
}

/// The mirror law: reflecting a direction twice about the same normal gives
/// back the original direction (scaled by the positive factor `|n|^4`), so the
/// angle of incidence equals the angle of reflection. This is the exact
/// algebraic identity behind `Ray::reflect`, whose published result differs
/// from it only by the one fixed-point rounding per product recorded in
/// `reflect_spec`.
pub proof fn lemma_mirror_involution(i: (int, int, int), n: (int, int, int))
    ensures
        ({
            let d = n.0 * n.0 + n.1 * n.1 + n.2 * n.2;
            mirror_exact(mirror_exact(i, n), n) == (i.0 * d * d, i.1 * d * d, i.2 * d * d)
        }),
        // the normal component is negated: angle of incidence equals angle
        // of reflection
        ({
            let d = n.0 * n.0 + n.1 * n.1 + n.2 * n.2;
            let p = n.0 * i.0 + n.1 * i.1 + n.2 * i.2;
            let r = mirror_exact(i, n);
            n.0 * r.0 + n.1 * r.1 + n.2 * r.2 == -(p * d)
        }),
{
    let d = n.0 * n.0 + n.1 * n.1 + n.2 * n.2;
    let p = n.0 * i.0 + n.1 * i.1 + n.2 * i.2;
    let r = mirror_exact(i, n);
    assert(n.0 * (i.0 * d - 2 * p * n.0) == n.0 * i.0 * d - 2 * p * (n.0 * n.0))
        by (nonlinear_arith);
    assert(n.1 * (i.1 * d - 2 * p * n.1) == n.1 * i.1 * d - 2 * p * (n.1 * n.1))
        by (nonlinear_arith);
    assert(n.2 * (i.2 * d - 2 * p * n.2) == n.2 * i.2 * d - 2 * p * (n.2 * n.2))
        by (nonlinear_arith);
    assert((n.0 * i.0 + n.1 * i.1 + n.2 * i.2) * d == p * d);
    assert(2 * p * (n.0 * n.0) + 2 * p * (n.1 * n.1) + 2 * p * (n.2 * n.2)
        == 2 * p * (n.0 * n.0 + n.1 * n.1 + n.2 * n.2)) by (nonlinear_arith);
    assert(n.0 * i.0 * d + n.1 * i.1 * d + n.2 * i.2 * d
        == (n.0 * i.0 + n.1 * i.1 + n.2 * i.2) * d) by (nonlinear_arith);
    assert(2 * p * d == p * d + p * d) by (nonlinear_arith);
    assert(n.0 * r.0 + n.1 * r.1 + n.2 * r.2 == -(p * d));
    let p2 = n.0 * r.0 + n.1 * r.1 + n.2 * r.2;
    assert(r.0 * d - 2 * p2 * n.0 == i.0 * d * d) by (nonlinear_arith)
        requires
            r.0 == i.0 * d - 2 * p * n.0,
            p2 == -(p * d);
    assert(r.1 * d - 2 * p2 * n.1 == i.1 * d * d) by (nonlinear_arith)
        requires
            r.1 == i.1 * d - 2 * p * n.1,
            p2 == -(p * d);
    assert(r.2 * d - 2 * p2 * n.2 == i.2 * d * d) by (nonlinear_arith)
        requires
            r.2 == i.2 * d - 2 * p * n.2,
            p2 == -(p * d);
}

} // verus!
