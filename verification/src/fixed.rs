use vstd::prelude::*;

verus! {

/// One unit in the fixed-point scale: a scalar stores its value times `FX_ONE`.
pub const FX_ONE: i64 = 65536;

/// Largest magnitude (in scale steps) a scene coordinate or ray parameter may have.
/// Keeping coordinates within this range lets every intermediate product of the
/// intersection routines fit in 128 bits and every published scalar fit in 64 bits.
pub const COORD_LIMIT: i64 = 0x1_0000_0000;

/// Truncating division (round toward zero), the rounding that the machine's
/// signed division performs. Written with nonnegative operands for the inner
/// Euclidean `/` so that its meaning does not depend on sign conventions.
pub open spec fn tdiv(a: int, b: int) -> int {
    if b >= 0 {
        if a >= 0 {
            a / b
        } else {
            -((-a) / b)
        }
    } else {
        if a >= 0 {
            -(a / (-b))
        } else {
            (-a) / (-b)
        }
    }
}

/// Product of two fixed-point scalars.
pub open spec fn fmul(a: int, b: int) -> int {
    tdiv(a * b, FX_ONE as int)
}

/// Quotient of two fixed-point scalars.
pub open spec fn fdiv(a: int, b: int) -> int {
    tdiv(a * (FX_ONE as int), b)
}

/// The floor of the square root of a nonnegative integer, defined by counting
/// down from a starting candidate `k`.
pub open spec fn sqrt_floor_from(n: int, k: nat) -> int
    decreases k,
{
    if k * k <= n {
        k as int
    } else if k == 0 {
        0
    } else {
        sqrt_floor_from(n, (k - 1) as nat)
    }
}

/// The floor of the square root of a nonnegative integer.
pub open spec fn sqrt_floor(n: int) -> int {
    if n >= 0 {
        sqrt_floor_from(n, n as nat)
    } else {
        0
    }
}

/// Square root of a fixed-point scalar: the scale cancels through
/// `sqrt(x / S) * S == sqrt(x * S)`.
pub open spec fn fsqrt(x: int) -> int {
    sqrt_floor(x * (FX_ONE as int))
}

/// A scalar that may safely enter any intersection routine.
pub open spec fn sok(x: i64) -> bool {
    -COORD_LIMIT <= x <= COORD_LIMIT
}

proof fn lemma_sqrt_floor_from_correct(n: int, k: nat)
    requires
        n >= 0,
        n < (k + 1) * (k + 1),
    ensures
        sqrt_floor_from(n, k) * sqrt_floor_from(n, k) <= n,
        n < (sqrt_floor_from(n, k) + 1) * (sqrt_floor_from(n, k) + 1),
        0 <= sqrt_floor_from(n, k) <= k,
    decreases k,
{
    if k * k <= n {
    } else if k == 0 {
    } else {
        lemma_sqrt_floor_from_correct(n, (k - 1) as nat);
    }
}

/// `sqrt_floor(n)` meets the square-root characterization.
pub proof fn lemma_sqrt_floor_correct(n: int)
    requires
        n >= 0,
    ensures
        sqrt_floor(n) * sqrt_floor(n) <= n,
        n < (sqrt_floor(n) + 1) * (sqrt_floor(n) + 1),
        sqrt_floor(n) >= 0,
{
    assert(n < (n + 1) * (n + 1)) by (nonlinear_arith)
        requires n >= 0;
    lemma_sqrt_floor_from_correct(n, n as nat);
}

/// The two-sided characterization `r*r <= n < (r+1)*(r+1)` picks out exactly
/// `sqrt_floor(n)`.
pub proof fn lemma_sqrt_floor_unique(n: int, r: int)
    requires
        n >= 0,
        r >= 0,
        r * r <= n,
        n < (r + 1) * (r + 1),
    ensures
        r == sqrt_floor(n),
{
    assert(n < (n + 1) * (n + 1)) by (nonlinear_arith)
        requires n >= 0;
    lemma_sqrt_floor_from_correct(n, n as nat);
    let s = sqrt_floor(n);
    if r < s {
        assert((r + 1) * (r + 1) <= s * s) by (nonlinear_arith)
            requires 0 <= r, r + 1 <= s;
    }
    if s < r {
        assert((s + 1) * (s + 1) <= r * r) by (nonlinear_arith)
            requires 0 <= s, s + 1 <= r;
    }
}

/// Magnitudes bound products: if `|a| <= aa` and `|b| <= bb` then `|a*b| <= aa*bb`.
pub proof fn lemma_mul_bound(a: int, b: int, aa: int, bb: int)
    requires
        -aa <= a <= aa,
        -bb <= b <= bb,
    ensures
        -(aa * bb) <= a * b <= aa * bb,
{
    assert(-(aa * bb) <= a * b <= aa * bb) by (nonlinear_arith)
        requires -aa <= a <= aa, -bb <= b <= bb;
}

/// Magnitudes bound truncating quotients by a positive divisor.
pub proof fn lemma_tdiv_bound(a: int, b: int, aa: int)
    requires
        b > 0,
        -aa <= a <= aa,
        0 <= aa,
    ensures
        -tdiv(aa, b) <= tdiv(a, b) <= tdiv(aa, b),
        -aa <= tdiv(a, b) <= aa,
{
    if a >= 0 {
        vstd::arithmetic::div_mod::lemma_div_is_ordered(a, aa, b);
        vstd::arithmetic::div_mod::lemma_div_pos_is_pos(a, b);
        vstd::arithmetic::div_mod::lemma_div_nonincreasing(a, b);
        vstd::arithmetic::div_mod::lemma_div_nonincreasing(aa, b);
    } else {
        vstd::arithmetic::div_mod::lemma_div_is_ordered(-a, aa, b);
        vstd::arithmetic::div_mod::lemma_div_pos_is_pos(-a, b);
        vstd::arithmetic::div_mod::lemma_div_nonincreasing(-a, b);
        vstd::arithmetic::div_mod::lemma_div_nonincreasing(aa, b);
    }
}

/// Truncating division is exact on exact multiples.
pub proof fn lemma_tdiv_exact(q: int, b: int)
    requires
        b > 0,
    ensures
        tdiv(q * b, b) == q,
{
    if q >= 0 {
        vstd::arithmetic::div_mod::lemma_div_multiples_vanish(q, b);
        assert(q * b >= 0) by (nonlinear_arith)
            requires q >= 0, b > 0;
        assert(q * b == b * q);
        assert(tdiv(q * b, b) == (q * b) / b);
    } else {
        vstd::arithmetic::div_mod::lemma_div_multiples_vanish(-q, b);
        assert((-(q * b)) == b * (-q)) by (nonlinear_arith);
        assert(q * b < 0) by (nonlinear_arith)
            requires q < 0, b > 0;
        assert(tdiv(q * b, b) == -((-(q * b)) / b));
    }
}

/// Truncating division by a positive divisor is monotone.
pub proof fn lemma_tdiv_ordered(a: int, b: int, d: int)
    requires
        d > 0,
        a <= b,
    ensures
        tdiv(a, d) <= tdiv(b, d),
{
    if a >= 0 {
        vstd::arithmetic::div_mod::lemma_div_is_ordered(a, b, d);
    } else if b >= 0 {
        vstd::arithmetic::div_mod::lemma_div_pos_is_pos(-a, d);
        vstd::arithmetic::div_mod::lemma_div_pos_is_pos(b, d);
    } else {
        vstd::arithmetic::div_mod::lemma_div_is_ordered(-b, -a, d);
    }
}

/// A product of nonnegative factors is nonnegative.
pub proof fn lemma_mul_nonneg(a: int, b: int)
    requires
        a >= 0,
        b >= 0,
    ensures
        a * b >= 0,
{
    assert(a * b >= 0) by (nonlinear_arith)
        requires a >= 0, b >= 0;
}

/// Magnitudes bound fixed-point products: `|fmul(a, b)| <= (aa * bb) / FX_ONE`.
pub proof fn lemma_fmul_bound(a: int, b: int, aa: int, bb: int)
    requires
        -aa <= a <= aa,
        -bb <= b <= bb,
    ensures
        -tdiv(aa * bb, FX_ONE as int) <= fmul(a, b) <= tdiv(aa * bb, FX_ONE as int),
        0 <= tdiv(aa * bb, FX_ONE as int) <= aa * bb,
{
    lemma_mul_bound(a, b, aa, bb);
    lemma_tdiv_bound(a * b, FX_ONE as int, aa * bb);
}

/// Fixed-point product of two scalars.
pub fn fx_mul(a: i64, b: i64) -> (r: i64)
    requires
        i64::MIN <= fmul(a as int, b as int) <= i64::MAX,
    ensures
        r == fmul(a as int, b as int),
{
    let p: i128 = (a as i128) * (b as i128);
    let q: i128 = p / (FX_ONE as i128);
    q as i64
}

/// Fixed-point quotient of two scalars.
pub fn fx_div(a: i64, b: i64) -> (r: i64)
    requires
        b != 0,
        i64::MIN <= fdiv(a as int, b as int) <= i64::MAX,
    ensures
        r == fdiv(a as int, b as int),
{
    let p: i128 = (a as i128) * (FX_ONE as i128);
    let q: i128 = if b >= 0 {
        p / (b as i128)
    } else {
        -(p / (-(b as i128)))
    };
    q as i64
}

/// Floor of the square root of an arbitrary 128-bit unsigned integer,
/// by binary search on the result.
pub fn isqrt_u128(n: u128) -> (r: u128)
    ensures
        r * r <= n,
        n < (r + 1) * (r + 1),
        r < 0x1_0000_0000_0000_0000,
{
    let mut lo: u128 = 0;
    let mut hi: u128 = 0x1_0000_0000_0000_0000;
    proof {
        assert((0x1_0000_0000_0000_0000 as int) * (0x1_0000_0000_0000_0000 as int) > n as int)
            by (nonlinear_arith)
            requires n <= u128::MAX;
    }
    while lo + 1 < hi
        invariant
            0 <= lo < hi <= 0x1_0000_0000_0000_0000,
            (lo as int) * (lo as int) <= n as int,
            n < (hi as int) * (hi as int),
        decreases hi - lo,
    {
        let mid: u128 = lo + (hi - lo) / 2;
        assert(mid * mid <= u128::MAX) by (nonlinear_arith)
            requires mid < 0x1_0000_0000_0000_0000;
        if mid * mid <= n {
            lo = mid;
        } else {
            hi = mid;
        }
    }
    lo
}

/// Square root of a nonnegative fixed-point scalar.
pub fn fx_sqrt(x: i64) -> (r: i64)
    requires
        x >= 0,
    ensures
        r == fsqrt(x as int),
        r >= 0,
{
    proof {
        assert((x as int) * 65536 <= 0x8000_0000_0000_0000_0000int) by (nonlinear_arith)
            requires 0 <= x <= i64::MAX;
    }
    let n: u128 = (x as u128) * (FX_ONE as u128);
    let s = isqrt_u128(n);
    proof {
        lemma_sqrt_floor_unique(n as int, s as int);
        assert(n as int <= 0x8000_0000_0000_0000_0000int) by (nonlinear_arith)
            requires
                n as int == (x as int) * 65536,
                0 <= x <= i64::MAX;
        assert(s as int * (s as int) <= n as int);
        assert(s as int <= 0x100_0000_0000) by (nonlinear_arith)
            requires
                s as int * (s as int) <= n as int,
                n as int <= 0x8000_0000_0000_0000_0000int,
                s >= 0;
    }
    s as i64
}

} // verus!
