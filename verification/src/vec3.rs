use vstd::prelude::*;
use crate::fixed::{
    fdiv, fmul, fsqrt, fx_div, fx_mul, fx_sqrt, lemma_mul_bound, lemma_tdiv_bound, sok, tdiv,
    COORD_LIMIT, FX_ONE,
};

verus! {

/// Squared-length threshold under which a vector counts as (numerically) zero.
pub const VEC_EPS_SQ: i64 = 1;

/// A bound on any dot product of two coordinate-bounded vectors.
pub const DOT_LIMIT: i64 = 0x3_0000_0000_0000;

/// A bound on the components of a normalized vector.
pub const UNIT_LIMIT: i64 = 0x4_0000;

/// A three-component vector of fixed-point scalars, also used for points,
/// directions and surface normals.
#[derive(Clone, Copy, Debug, PartialEq, Eq, Structural)]
pub struct Vec3d {
    pub x: i64,
    pub y: i64,
    pub z: i64,
}

/// All components within the coordinate range the intersection routines accept.
pub open spec fn vok(v: Vec3d) -> bool {
    sok(v.x) && sok(v.y) && sok(v.z)
}

/// The dot product, rounded once after the exact sum of products.
pub open spec fn dot3(a: Vec3d, b: Vec3d) -> int {
    tdiv(a.x * b.x + a.y * b.y + a.z * b.z, FX_ONE as int)
}

/// The cross product, each component rounded once.
pub open spec fn cross3(a: Vec3d, b: Vec3d) -> (int, int, int) {
    (
        tdiv(a.y * b.z - a.z * b.y, FX_ONE as int),
        tdiv(a.z * b.x - a.x * b.z, FX_ONE as int),
        tdiv(a.x * b.y - a.y * b.x, FX_ONE as int),
    )
}

/// Dot products of coordinate-bounded vectors stay within `DOT_LIMIT`.
pub proof fn lemma_dot3_bound(a: Vec3d, b: Vec3d)
    requires
        vok(a),
        vok(b),
    ensures
        -DOT_LIMIT <= dot3(a, b) <= DOT_LIMIT,
{
    lemma_mul_bound(a.x as int, b.x as int, COORD_LIMIT as int, COORD_LIMIT as int);
    lemma_mul_bound(a.y as int, b.y as int, COORD_LIMIT as int, COORD_LIMIT as int);
    lemma_mul_bound(a.z as int, b.z as int, COORD_LIMIT as int, COORD_LIMIT as int);
    lemma_tdiv_bound(
        a.x * b.x + a.y * b.y + a.z * b.z,
        FX_ONE as int,
        3 * (COORD_LIMIT as int) * (COORD_LIMIT as int),
    );
    assert(tdiv(3 * (COORD_LIMIT as int) * (COORD_LIMIT as int), FX_ONE as int)
        == DOT_LIMIT as int);
}

impl Vec3d {
    pub open spec fn zero_spec() -> Vec3d {
        Vec3d { x: 0, y: 0, z: 0 }
    }

    #[inline]
    pub fn new(x: i64, y: i64, z: i64) -> (r: Vec3d)
        ensures
            r == (Vec3d { x, y, z }),
    {
        Vec3d { x, y, z }
    }

    #[inline]
    pub fn zero() -> (r: Vec3d)
        ensures
            r == Vec3d::zero_spec(),
    {
        Vec3d { x: 0, y: 0, z: 0 }
    }

    /// Componentwise sum; exact.
    #[inline]
    pub fn add(&self, rhs: &Vec3d) -> (r: Vec3d)
        requires
            i64::MIN <= self.x + rhs.x <= i64::MAX,
            i64::MIN <= self.y + rhs.y <= i64::MAX,
            i64::MIN <= self.z + rhs.z <= i64::MAX,
        ensures
            r.x == self.x + rhs.x,
            r.y == self.y + rhs.y,
            r.z == self.z + rhs.z,
    {
        Vec3d { x: self.x + rhs.x, y: self.y + rhs.y, z: self.z + rhs.z }
    }

    /// Componentwise difference; exact.
    #[inline]
    pub fn sub(&self, rhs: &Vec3d) -> (r: Vec3d)
        requires
            i64::MIN <= self.x - rhs.x <= i64::MAX,
            i64::MIN <= self.y - rhs.y <= i64::MAX,
            i64::MIN <= self.z - rhs.z <= i64::MAX,
        ensures
            r.x == self.x - rhs.x,
            r.y == self.y - rhs.y,
            r.z == self.z - rhs.z,
    {
        Vec3d { x: self.x - rhs.x, y: self.y - rhs.y, z: self.z - rhs.z }
    }

    /// Componentwise negation; exact.
    #[inline]
    pub fn neg(&self) -> (r: Vec3d)
        requires
            self.x != i64::MIN,
            self.y != i64::MIN,
            self.z != i64::MIN,
        ensures
            r.x == -self.x,
            r.y == -self.y,
            r.z == -self.z,
    {
        Vec3d { x: -self.x, y: -self.y, z: -self.z }
    }

    /// Scaling by a fixed-point scalar, each component rounded once.
    #[inline]
    pub fn scale(&self, s: i64) -> (r: Vec3d)
        requires
            i64::MIN <= fmul(self.x as int, s as int) <= i64::MAX,
            i64::MIN <= fmul(self.y as int, s as int) <= i64::MAX,
            i64::MIN <= fmul(self.z as int, s as int) <= i64::MAX,
        ensures
            r.x == fmul(self.x as int, s as int),
            r.y == fmul(self.y as int, s as int),
            r.z == fmul(self.z as int, s as int),
    {
        Vec3d { x: fx_mul(self.x, s), y: fx_mul(self.y, s), z: fx_mul(self.z, s) }
    }

    /// The quotient by a fixed-point scalar, each component rounded once;
    /// a zero divisor is a machine error the caller rules out.
    pub fn div(&self, s: i64) -> (r: Vec3d)
        requires
            s != 0,
            i64::MIN <= fdiv(self.x as int, s as int) <= i64::MAX,
            i64::MIN <= fdiv(self.y as int, s as int) <= i64::MAX,
            i64::MIN <= fdiv(self.z as int, s as int) <= i64::MAX,
        ensures
            r.x == fdiv(self.x as int, s as int),
            r.y == fdiv(self.y as int, s as int),
            r.z == fdiv(self.z as int, s as int),
    {
        Vec3d { x: fx_div(self.x, s), y: fx_div(self.y, s), z: fx_div(self.z, s) }
    }

    pub fn dot(&self, rhs: &Vec3d) -> (r: i64)
        requires
            vok(*self),
            vok(*rhs),
        ensures
            r == dot3(*self, *rhs),
            -DOT_LIMIT <= r <= DOT_LIMIT,
    {
        proof {
            lemma_dot3_bound(*self, *rhs);
            lemma_mul_bound(self.x as int, rhs.x as int, COORD_LIMIT as int, COORD_LIMIT as int);
            lemma_mul_bound(self.y as int, rhs.y as int, COORD_LIMIT as int, COORD_LIMIT as int);
            lemma_mul_bound(self.z as int, rhs.z as int, COORD_LIMIT as int, COORD_LIMIT as int);
        }
        let s: i128 = (self.x as i128) * (rhs.x as i128) + (self.y as i128) * (rhs.y as i128)
            + (self.z as i128) * (rhs.z as i128);
        let q: i128 = if s >= 0 {
            s / (FX_ONE as i128)
        } else {
            -((-s) / (FX_ONE as i128))
        };
        q as i64
    }

    pub fn cross(&self, rhs: &Vec3d) -> (r: Vec3d)
        requires
            vok(*self),
            vok(*rhs),
        ensures
            r.x == cross3(*self, *rhs).0,
            r.y == cross3(*self, *rhs).1,
            r.z == cross3(*self, *rhs).2,
            -DOT_LIMIT <= r.x <= DOT_LIMIT,
            -DOT_LIMIT <= r.y <= DOT_LIMIT,
            -DOT_LIMIT <= r.z <= DOT_LIMIT,
    {
        let x = Self::cross_part(self.y, rhs.z, self.z, rhs.y);
        let y = Self::cross_part(self.z, rhs.x, self.x, rhs.z);
        let z = Self::cross_part(self.x, rhs.y, self.y, rhs.x);
        Vec3d { x, y, z }
    }

    /// One component of a cross product: `(a*b - c*d) / FX_ONE`, rounded once.
    fn cross_part(a: i64, b: i64, c: i64, d: i64) -> (r: i64)
        requires
            sok(a),
            sok(b),
            sok(c),
            sok(d),
        ensures
            r == tdiv(a * b - c * d, FX_ONE as int),
            -DOT_LIMIT <= r <= DOT_LIMIT,
    {
        proof {
            lemma_mul_bound(a as int, b as int, COORD_LIMIT as int, COORD_LIMIT as int);
            lemma_mul_bound(c as int, d as int, COORD_LIMIT as int, COORD_LIMIT as int);
            lemma_tdiv_bound(
                a * b - c * d,
                FX_ONE as int,
                2 * (COORD_LIMIT as int) * (COORD_LIMIT as int),
            );
            assert(tdiv(2 * (COORD_LIMIT as int) * (COORD_LIMIT as int), FX_ONE as int)
                <= DOT_LIMIT as int);
        }
        let s: i128 = (a as i128) * (b as i128) - (c as i128) * (d as i128);
        let q: i128 = if s >= 0 {
            s / (FX_ONE as i128)
        } else {
            -((-s) / (FX_ONE as i128))
        };
        q as i64
    }

    pub fn length_squared(&self) -> (r: i64)
        requires
            vok(*self),
        ensures
            r == dot3(*self, *self),
            0 <= r <= DOT_LIMIT,
    {
        proof {
            lemma_mul_bound(self.x as int, self.x as int, COORD_LIMIT as int, COORD_LIMIT as int);
            lemma_mul_bound(self.y as int, self.y as int, COORD_LIMIT as int, COORD_LIMIT as int);
            lemma_mul_bound(self.z as int, self.z as int, COORD_LIMIT as int, COORD_LIMIT as int);
            assert(self.x * self.x >= 0 && self.y * self.y >= 0 && self.z * self.z >= 0)
                by (nonlinear_arith);
            vstd::arithmetic::div_mod::lemma_div_pos_is_pos(
                self.x * self.x + self.y * self.y + self.z * self.z,
                FX_ONE as int,
            );
        }
        self.dot(self)
    }

    pub fn length(&self) -> (r: i64)
        requires
            vok(*self),
        ensures
            r == fsqrt(dot3(*self, *self)),
            r >= 0,
    {
        let l2 = self.length_squared();
        fx_sqrt(l2)
    }

    /// Whether the squared length falls under the zero threshold.
    pub fn near_zero(&self) -> (r: bool)
        requires
            vok(*self),
        ensures
            r == (dot3(*self, *self) < VEC_EPS_SQ),
    {
        self.length_squared() < VEC_EPS_SQ
    }

    /// Whether this direction and `normal` point into the same half-space.
    pub fn is_facing(&self, normal: &Vec3d) -> (r: bool)
        requires
            vok(*self),
            vok(*normal),
        ensures
            r == (dot3(*self, *normal) > 0),
    {
        self.dot(normal) > 0
    }

    /// The normalized result: components divided by the fixed-point length,
    /// or the zero vector when the squared length falls under the threshold.
    pub open spec fn normalize_spec(v: Vec3d) -> Vec3d {
        if dot3(v, v) < VEC_EPS_SQ {
            Vec3d::zero_spec()
        } else {
            let len = fsqrt(dot3(v, v));
            Vec3d {
                x: fdiv(v.x as int, len) as i64,
                y: fdiv(v.y as int, len) as i64,
                z: fdiv(v.z as int, len) as i64,
            }
        }
    }

    pub fn normalize(&self) -> (r: Vec3d)
        requires
            vok(*self),
        ensures
            r == Vec3d::normalize_spec(*self),
            -UNIT_LIMIT <= r.x <= UNIT_LIMIT,
            -UNIT_LIMIT <= r.y <= UNIT_LIMIT,
            -UNIT_LIMIT <= r.z <= UNIT_LIMIT,
            vok(r),
    {
        let l2 = self.length_squared();
        if l2 < VEC_EPS_SQ {
            Vec3d::zero()
        } else {
            let len = fx_sqrt(l2);
            proof {
                let s = FX_ONE as int;
                let sum = self.x * self.x + self.y * self.y + self.z * self.z;
                assert(self.x * self.x >= 0 && self.y * self.y >= 0 && self.z * self.z >= 0)
                    by (nonlinear_arith);
                assert(l2 == sum / s);
                vstd::arithmetic::div_mod::lemma_fundamental_div_mod(sum, s);
                assert(sum < (l2 + 1) * s);
                lemma_normalize_component(self.x as int, l2 as int, len as int);
                lemma_normalize_component(self.y as int, l2 as int, len as int);
                lemma_normalize_component(self.z as int, l2 as int, len as int);
            }
            let r = Vec3d {
                x: fx_div(self.x, len),
                y: fx_div(self.y, len),
                z: fx_div(self.z, len),
            };
            r
        }
    }
}

/// For a vector with squared length `l2 >= 1` and fixed-point length `len`,
/// each component `c` (with `c*c` contributing to `l2`) divides to a value
/// within `UNIT_LIMIT`.
proof fn lemma_normalize_component(c: int, l2: int, len: int)
    requires
        1 <= l2,
        len == fsqrt(l2),
        c * c <= (l2 + 1) * (FX_ONE as int),
    ensures
        -UNIT_LIMIT <= fdiv(c, len) <= UNIT_LIMIT,
        len >= 256,
{
    let r = len;
    lemma_fsqrt_char(l2);
    assert(r * r <= l2 * 65536);
    assert(l2 * 65536 < (r + 1) * (r + 1));
    assert(r >= 256) by (nonlinear_arith)
        requires l2 * 65536 < (r + 1) * (r + 1), l2 >= 1, r >= 0;
    // c*c <= (l2+1)*65536 <= 2*l2*65536 < 2*(r+1)^2 <= 8*r^2 < 16*r^2, so |c| <= 4r.
    assert(c * c < 16 * (r * r)) by (nonlinear_arith)
        requires
            c * c <= (l2 + 1) * 65536,
            l2 >= 1,
            r * r <= l2 * 65536,
            l2 * 65536 < (r + 1) * (r + 1),
            r >= 256;
    assert(-(4 * r) <= c <= 4 * r) by (nonlinear_arith)
        requires c * c < 16 * (r * r), r >= 0;
    crate::fixed::lemma_mul_bound(c, 65536, 4 * r, 65536);
    crate::fixed::lemma_tdiv_bound(c * 65536, r, 4 * r * 65536);
    crate::fixed::lemma_tdiv_exact(4int * 65536, r);
    assert(4 * r * 65536 == (4 * 65536) * r) by (nonlinear_arith);
}

/// `fsqrt(x)` meets the square-root characterization (helper to name the value).
proof fn lemma_fsqrt_char(x: int)
    requires
        x >= 0,
    ensures
        fsqrt(x) * fsqrt(x) <= x * (FX_ONE as int),
        x * (FX_ONE as int) < (fsqrt(x) + 1) * (fsqrt(x) + 1),
        fsqrt(x) >= 0,
{
    assert(x * 65536 >= 0) by (nonlinear_arith)
        requires x >= 0;
    crate::fixed::lemma_sqrt_floor_correct(x * 65536);
}

/// A two-component surface coordinate for texture lookup.
#[derive(Clone, Copy, Debug, PartialEq, Eq, Structural)]
pub struct UV {
    pub u: i64,
    pub v: i64,
}

impl UV {
    #[inline]
    pub fn new(u: i64, v: i64) -> (r: UV)
        ensures
            r == (UV { u, v }),
    {
        UV { u, v }
    }
}

} // verus!
