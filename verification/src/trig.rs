use vstd::prelude::*;
use crate::fixed::{fdiv, fmul, fsqrt, fx_div, fx_mul, fx_sqrt, tdiv, FX_ONE};

verus! {

/// Half the circle constant, in scale steps (`pi * FX_ONE`, rounded).
pub const PI_FX: i64 = 205887;

/// A quarter turn (`pi/2 * FX_ONE`, rounded).
pub const HALF_PI_FX: i64 = 102944;

/// `pi/4 * FX_ONE`, rounded.
pub const QUARTER_PI_FX: i64 = 51472;

/// Coefficient of the first-octant arctangent approximation
/// `atan(z) ~ z * (pi/4 + K (1 - z))`, in scale steps.
pub const ATAN_K_FX: i64 = 17891;

/// The first-octant arctangent approximation on a ratio in `[0, 1]`.
pub open spec fn atan1_spec(z: int) -> int {
    fmul(z, (QUARTER_PI_FX as int) + fmul(ATAN_K_FX as int, (FX_ONE as int) - z))
}

/// Arctangent of a ratio in `[0, FX_ONE]`, by the quadratic approximation
/// `z * (pi/4 + K (1 - z))`; the result lies in `[0, pi/2]`.
pub fn atan1(z: i64) -> (r: i64)
    requires
        0 <= z <= FX_ONE,
    ensures
        r == atan1_spec(z as int),
        0 <= r <= HALF_PI_FX,
{
    proof {
        crate::fixed::lemma_fmul_bound(ATAN_K_FX as int, (FX_ONE as int) - z, ATAN_K_FX as int,
            FX_ONE as int);
        assert(tdiv((ATAN_K_FX as int) * (FX_ONE as int), FX_ONE as int) == ATAN_K_FX as int);
        assert(fmul(ATAN_K_FX as int, (FX_ONE as int) - (z as int)) >= 0) by {
            crate::fixed::lemma_mul_nonneg(ATAN_K_FX as int, (FX_ONE as int) - (z as int));
            vstd::arithmetic::div_mod::lemma_div_pos_is_pos(
                (ATAN_K_FX as int) * ((FX_ONE as int) - (z as int)), FX_ONE as int);
        }
        crate::fixed::lemma_fmul_bound(z as int,
            (QUARTER_PI_FX as int) + fmul(ATAN_K_FX as int, (FX_ONE as int) - z), FX_ONE as int,
            (QUARTER_PI_FX as int) + (ATAN_K_FX as int));
        assert(tdiv((FX_ONE as int) * ((QUARTER_PI_FX as int) + (ATAN_K_FX as int)),
            FX_ONE as int) == (QUARTER_PI_FX as int) + (ATAN_K_FX as int));
        let w = (QUARTER_PI_FX as int) + fmul(ATAN_K_FX as int, (FX_ONE as int) - (z as int));
        crate::fixed::lemma_mul_nonneg(z as int, w);
        vstd::arithmetic::div_mod::lemma_div_pos_is_pos((z as int) * w, FX_ONE as int);
    }
    fx_mul(z, QUARTER_PI_FX + fx_mul(ATAN_K_FX, FX_ONE - z))
}

/// The planar angle of the point `(x, y)`, in `(-pi, pi]`, by octant
/// reduction onto the first-octant approximation.
pub open spec fn atan2_spec(y: int, x: int) -> int {
    let ax = if x >= 0 { x } else { -x };
    let ay = if y >= 0 { y } else { -y };
    if ax == 0 && ay == 0 {
        0
    } else {
        let base = if ax >= ay {
            atan1_spec(fdiv(ay, ax))
        } else {
            (HALF_PI_FX as int) - atan1_spec(fdiv(ax, ay))
        };
        if x >= 0 && y >= 0 {
            base
        } else if x < 0 && y >= 0 {
            (PI_FX as int) - base
        } else if x < 0 {
            -((PI_FX as int) - base)
        } else {
            -base
        }
    }
}

/// The ratio of the smaller magnitude over the larger stays in `[0, 1]`.
pub proof fn lemma_ratio_unit(sm: int, lg: int)
    requires
        0 <= sm <= lg,
        lg > 0,
    ensures
        0 <= fdiv(sm, lg) <= FX_ONE as int,
{
    let s = FX_ONE as int;
    crate::fixed::lemma_mul_nonneg(sm, s);
    vstd::arithmetic::div_mod::lemma_div_pos_is_pos(sm * s, lg);
    assert(sm * s <= s * lg) by (nonlinear_arith)
        requires sm <= lg, s > 0;
    crate::fixed::lemma_tdiv_ordered(sm * s, s * lg, lg);
    crate::fixed::lemma_tdiv_exact(s, lg);
}

pub fn atan2(y: i64, x: i64) -> (r: i64)
    requires
        x != i64::MIN,
        y != i64::MIN,
    ensures
        r == atan2_spec(y as int, x as int),
        -PI_FX <= r <= PI_FX,
{
    let ax: i64 = if x >= 0 { x } else { -x };
    let ay: i64 = if y >= 0 { y } else { -y };
    if ax == 0 && ay == 0 {
        return 0;
    }
    let base: i64 = if ax >= ay {
        proof {
            lemma_ratio_unit(ay as int, ax as int);
        }
        atan1(fx_div(ay, ax))
    } else {
        proof {
            lemma_ratio_unit(ax as int, ay as int);
        }
        HALF_PI_FX - atan1(fx_div(ax, ay))
    };
    if x >= 0 && y >= 0 {
        base
    } else if x < 0 && y >= 0 {
        PI_FX - base
    } else if x < 0 {
        -(PI_FX - base)
    } else {
        -base
    }
}

/// The arccosine of a scalar in `[-1, 1]`, as the angle of the point
/// `(x, sqrt(1 - x^2))`; the result lies in `[0, pi]`.
pub open spec fn acos_spec(x: int) -> int {
    atan2_spec(fsqrt((FX_ONE as int) - fmul(x, x)), x)
}

pub fn acos(x: i64) -> (r: i64)
    requires
        -FX_ONE <= x <= FX_ONE,
    ensures
        r == acos_spec(x as int),
        0 <= r <= PI_FX,
{
    proof {
        crate::fixed::lemma_fmul_bound(x as int, x as int, FX_ONE as int, FX_ONE as int);
        assert(tdiv((FX_ONE as int) * (FX_ONE as int), FX_ONE as int) == FX_ONE as int);
        assert((x as int) * (x as int) >= 0) by (nonlinear_arith);
        vstd::arithmetic::div_mod::lemma_div_pos_is_pos((x as int) * (x as int), FX_ONE as int);
    }
    let s = fx_sqrt(FX_ONE - fx_mul(x, x));
    proof {
        crate::fixed::lemma_sqrt_floor_correct(((FX_ONE as int) - fmul(x as int, x as int))
            * (FX_ONE as int));
        let r = fsqrt((FX_ONE as int) - fmul(x as int, x as int));
        assert(r < i64::MAX) by (nonlinear_arith)
            requires
                r >= 0,
                r * r <= ((FX_ONE as int) - fmul(x as int, x as int)) * 65536,
                fmul(x as int, x as int) >= 0,
                (FX_ONE as int) == 65536;
    }
    let r = atan2(s, x);
    proof {
        lemma_acos_nonneg(s as int, x as int);
    }
    r
}

/// The angle of a point with nonnegative second coordinate is nonnegative.
proof fn lemma_acos_nonneg(s: int, x: int)
    requires
        s >= 0,
        -(FX_ONE as int) <= x <= FX_ONE as int,
    ensures
        0 <= atan2_spec(s, x) <= PI_FX as int,
{
    let ax = if x >= 0 { x } else { -x };
    if ax == 0 && s == 0 {
    } else {
        if ax >= s {
            lemma_ratio_unit(s, ax);
            lemma_atan1_range(fdiv(s, ax));
        } else {
            lemma_ratio_unit(ax, s);
            lemma_atan1_range(fdiv(ax, s));
        }
    }
}

/// The approximation stays within a quarter turn on `[0, 1]`.
proof fn lemma_atan1_range(z: int)
    requires
        0 <= z <= FX_ONE as int,
    ensures
        0 <= atan1_spec(z) <= HALF_PI_FX as int,
{
    crate::fixed::lemma_fmul_bound(ATAN_K_FX as int, (FX_ONE as int) - z, ATAN_K_FX as int,
        FX_ONE as int);
    assert(tdiv((ATAN_K_FX as int) * (FX_ONE as int), FX_ONE as int) == ATAN_K_FX as int);
    assert(fmul(ATAN_K_FX as int, (FX_ONE as int) - z) >= 0) by {
        crate::fixed::lemma_mul_nonneg(ATAN_K_FX as int, (FX_ONE as int) - z);
        vstd::arithmetic::div_mod::lemma_div_pos_is_pos(
            (ATAN_K_FX as int) * ((FX_ONE as int) - z), FX_ONE as int);
    }
    let w = (QUARTER_PI_FX as int) + fmul(ATAN_K_FX as int, (FX_ONE as int) - z);
    crate::fixed::lemma_fmul_bound(z, w, FX_ONE as int,
        (QUARTER_PI_FX as int) + (ATAN_K_FX as int));
    assert(tdiv((FX_ONE as int) * ((QUARTER_PI_FX as int) + (ATAN_K_FX as int)), FX_ONE as int)
        == (QUARTER_PI_FX as int) + (ATAN_K_FX as int));
    crate::fixed::lemma_mul_nonneg(z, w);
    vstd::arithmetic::div_mod::lemma_div_pos_is_pos(z * w, FX_ONE as int);
}

/// The angle folded into `[0, 2 pi)` by Euclidean remainder.
pub open spec fn angle_mod_spec(x: int) -> int {
    x % (2 * (PI_FX as int))
}

/// Fold an angle into `[0, 2 pi)`, executable.
fn angle_mod(x: i64) -> (r: i64)
    requires
        -0x1_0000_0000 <= x <= 0x1_0000_0000,
    ensures
        r == angle_mod_spec(x as int),
        0 <= r < 2 * PI_FX,
{
    proof {
        vstd::arithmetic::div_mod::lemma_mod_bound(x as int, 2 * (PI_FX as int));
        vstd::arithmetic::div_mod::lemma_fundamental_div_mod(x as int, 2 * (PI_FX as int));
    }
    let tau: i64 = 2 * PI_FX;
    let t = x % tau;
    if t < 0 {
        proof {
            lemma_rem_to_euclid(x as int, tau as int);
        }
        t + tau
    } else {
        proof {
            lemma_rem_to_euclid(x as int, tau as int);
        }
        t
    }
}

/// The machine remainder and the Euclidean remainder agree up to one
/// divisor on negative operands.
proof fn lemma_rem_to_euclid(x: int, m: int)
    requires
        m > 0,
    ensures
        x >= 0 ==> x % m == (if x >= 0 { x % m } else { -((-x) % m) }),
        x < 0 && -((-x) % m) < 0 ==> x % m == -((-x) % m) + m,
        x < 0 && -((-x) % m) == 0 ==> x % m == 0,
{
    if x < 0 {
        vstd::arithmetic::div_mod::lemma_mod_bound(-x, m);
        vstd::arithmetic::div_mod::lemma_fundamental_div_mod(-x, m);
        vstd::arithmetic::div_mod::lemma_mod_bound(x, m);
        vstd::arithmetic::div_mod::lemma_fundamental_div_mod(x, m);
        let q = (-x) / m;
        let r = (-x) % m;
        // x == m * (-q) - r; when r > 0, x == m * (-q - 1) + (m - r)
        if r == 0 {
            assert(x == m * (-q)) by (nonlinear_arith)
                requires x == -(m * q + r), r == 0;
            vstd::arithmetic::div_mod::lemma_mod_multiples_basic(-q, m);
        } else {
            assert(x == m * (-q - 1) + (m - r)) by (nonlinear_arith)
                requires x == -(m * q + r);
            vstd::arithmetic::div_mod::lemma_fundamental_div_mod_converse(x, m, -q - 1, m - r);
        }
    }
}

/// The rational sine approximation `16 z (pi - z) / (5 pi^2 - 4 z (pi - z))`
/// on `[0, pi]`, in scale steps.
pub open spec fn sin_half_spec(z: int) -> int {
    let a = z * ((PI_FX as int) - z);
    tdiv(16 * a * (FX_ONE as int), 5 * (PI_FX as int) * (PI_FX as int) - 4 * a)
}

/// The sine of an angle: the angle is folded into one turn and the rational
/// approximation is applied to each half with its sign.
pub open spec fn sin_spec(x: int) -> int {
    let m = angle_mod_spec(x);
    if m < PI_FX {
        sin_half_spec(m)
    } else {
        -sin_half_spec(m - PI_FX)
    }
}

/// The cosine, as the sine advanced a quarter turn.
pub open spec fn cos_spec(x: int) -> int {
    sin_spec(x + HALF_PI_FX)
}

/// The rational sine approximation on a half turn, executable.
fn sin_half(z: i64) -> (r: i64)
    requires
        0 <= z <= PI_FX,
    ensures
        r == sin_half_spec(z as int),
        0 <= r <= FX_ONE,
{
    proof {
        lemma_sin_half_bounds(z as int);
    }
    let a: i128 = (z as i128) * ((PI_FX as i128) - (z as i128));
    let num: i128 = 16 * a * (FX_ONE as i128);
    let den: i128 = 5 * (PI_FX as i128) * (PI_FX as i128) - 4 * a;
    (num / den) as i64
}

/// The sine numerator stays under the denominator, which stays positive.
proof fn lemma_sin_half_bounds(z: int)
    requires
        0 <= z <= PI_FX as int,
    ensures
        0 <= z * ((PI_FX as int) - z),
        4 * (z * ((PI_FX as int) - z)) <= (PI_FX as int) * (PI_FX as int),
        5 * (PI_FX as int) * (PI_FX as int) - 4 * (z * ((PI_FX as int) - z)) > 0,
        0 <= tdiv(16 * (z * ((PI_FX as int) - z)) * (FX_ONE as int),
            5 * (PI_FX as int) * (PI_FX as int) - 4 * (z * ((PI_FX as int) - z)))
            <= FX_ONE as int,
{
    let p = PI_FX as int;
    let a = z * (p - z);
    crate::fixed::lemma_mul_nonneg(z, p - z);
    assert(4 * a <= p * p) by (nonlinear_arith)
        requires a == z * (p - z);
    let den = 5 * p * p - 4 * a;
    assert(den >= 4 * (p * p)) by (nonlinear_arith)
        requires 4 * a <= p * p, den == 5 * p * p - 4 * a;
    assert(p * p > 0) by (nonlinear_arith)
        requires p == 205887;
    let s = FX_ONE as int;
    let num = 16 * a * s;
    crate::fixed::lemma_mul_nonneg(16 * a, s);
    vstd::arithmetic::div_mod::lemma_div_pos_is_pos(num, den);
    // 16 a <= den, so the quotient is at most one
    assert(num <= s * den) by (nonlinear_arith)
        requires num == 16 * a * s, den == 5 * p * p - 4 * a, 4 * a <= p * p, s == 65536,
            a >= 0;
    crate::fixed::lemma_tdiv_ordered(num, s * den, den);
    crate::fixed::lemma_tdiv_exact(s, den);
}

/// The sine of an angle in scale steps; the result lies in `[-1, 1]`.
pub fn sin(x: i64) -> (r: i64)
    requires
        -0x1_0000_0000 <= x <= 0x1_0000_0000,
    ensures
        r == sin_spec(x as int),
        -FX_ONE <= r <= FX_ONE,
{
    let m = angle_mod(x);
    if m < PI_FX {
        sin_half(m)
    } else {
        -sin_half(m - PI_FX)
    }
}

/// The cosine of an angle in scale steps; the result lies in `[-1, 1]`.
pub fn cos(x: i64) -> (r: i64)
    requires
        -0x1_0000_0000 <= x <= 0x1_0000_0000 - HALF_PI_FX,
    ensures
        r == cos_spec(x as int),
        -FX_ONE <= r <= FX_ONE,
{
    sin(x + HALF_PI_FX)
}

} // verus!
