use vstd::prelude::*;
use crate::fixed::{fdiv, fmul, fx_div, fx_mul, tdiv, FX_ONE};

verus! {

/// Color-component threshold under which a divisor counts as zero.
pub const COLOR_EPS: i64 = 1;

/// An unclamped linear-radiance color with fixed-point components.
#[derive(Clone, Copy, Debug, PartialEq, Eq, Structural)]
pub struct ColorRgb {
    pub r: i64,
    pub g: i64,
    pub b: i64,
}

impl ColorRgb {
    #[inline]
    pub fn new(r: i64, g: i64, b: i64) -> (c: ColorRgb)
        ensures
            c == (ColorRgb { r, g, b }),
    {
        ColorRgb { r, g, b }
    }

    pub open spec fn black_spec() -> ColorRgb {
        ColorRgb { r: 0, g: 0, b: 0 }
    }

    #[inline]
    pub fn black() -> (c: ColorRgb)
        ensures
            c == ColorRgb::black_spec(),
    {
        ColorRgb { r: 0, g: 0, b: 0 }
    }

    #[inline]
    pub fn white() -> (c: ColorRgb)
        ensures
            c == (ColorRgb { r: FX_ONE as i64, g: FX_ONE as i64, b: FX_ONE as i64 }),
    {
        ColorRgb { r: FX_ONE, g: FX_ONE, b: FX_ONE }
    }

    /// Componentwise sum; exact.
    #[inline]
    pub fn add(&self, rhs: &ColorRgb) -> (c: ColorRgb)
        requires
            i64::MIN <= self.r + rhs.r <= i64::MAX,
            i64::MIN <= self.g + rhs.g <= i64::MAX,
            i64::MIN <= self.b + rhs.b <= i64::MAX,
        ensures
            c.r == self.r + rhs.r,
            c.g == self.g + rhs.g,
            c.b == self.b + rhs.b,
    {
        ColorRgb { r: self.r + rhs.r, g: self.g + rhs.g, b: self.b + rhs.b }
    }

    /// Componentwise (filtering) product, each component rounded once.
    #[inline]
    pub fn mul(&self, rhs: &ColorRgb) -> (c: ColorRgb)
        requires
            i64::MIN <= fmul(self.r as int, rhs.r as int) <= i64::MAX,
            i64::MIN <= fmul(self.g as int, rhs.g as int) <= i64::MAX,
            i64::MIN <= fmul(self.b as int, rhs.b as int) <= i64::MAX,
        ensures
            c.r == fmul(self.r as int, rhs.r as int),
            c.g == fmul(self.g as int, rhs.g as int),
            c.b == fmul(self.b as int, rhs.b as int),
    {
        ColorRgb { r: fx_mul(self.r, rhs.r), g: fx_mul(self.g, rhs.g), b: fx_mul(self.b, rhs.b) }
    }

    /// Scaling by a fixed-point scalar, each component rounded once.
    #[inline]
    pub fn scale(&self, s: i64) -> (c: ColorRgb)
        requires
            i64::MIN <= fmul(self.r as int, s as int) <= i64::MAX,
            i64::MIN <= fmul(self.g as int, s as int) <= i64::MAX,
            i64::MIN <= fmul(self.b as int, s as int) <= i64::MAX,
        ensures
            c.r == fmul(self.r as int, s as int),
            c.g == fmul(self.g as int, s as int),
            c.b == fmul(self.b as int, s as int),
    {
        ColorRgb { r: fx_mul(self.r, s), g: fx_mul(self.g, s), b: fx_mul(self.b, s) }
    }

    /// The quotient by a scalar: black when the divisor falls under the
    /// threshold, else each component divided with one rounding.
    pub open spec fn div_spec(c: ColorRgb, s: int) -> ColorRgb {
        if -COLOR_EPS < s < COLOR_EPS {
            ColorRgb::black_spec()
        } else {
            ColorRgb {
                r: fdiv(c.r as int, s) as i64,
                g: fdiv(c.g as int, s) as i64,
                b: fdiv(c.b as int, s) as i64,
            }
        }
    }

    pub fn div(&self, s: i64) -> (c: ColorRgb)
        requires
            i64::MIN <= fdiv(self.r as int, s as int) <= i64::MAX,
            i64::MIN <= fdiv(self.g as int, s as int) <= i64::MAX,
            i64::MIN <= fdiv(self.b as int, s as int) <= i64::MAX,
        ensures
            c == ColorRgb::div_spec(*self, s as int),
    {
        if -COLOR_EPS < s && s < COLOR_EPS {
            ColorRgb::black()
        } else {
            ColorRgb { r: fx_div(self.r, s), g: fx_div(self.g, s), b: fx_div(self.b, s) }
        }
    }

    /// Whether every component lies in the unit range.
    pub fn check_valid(&self) -> (ok: bool)
        ensures
            ok == (0 <= self.r <= FX_ONE && 0 <= self.g <= FX_ONE && 0 <= self.b <= FX_ONE),
    {
        0 <= self.r && self.r <= FX_ONE && 0 <= self.g && self.g <= FX_ONE && 0 <= self.b
            && self.b <= FX_ONE
    }

    /// Linear interpolation: `t == 0` gives `c1`, `t == FX_ONE` gives `c2`.
    pub open spec fn lerp_spec(c1: ColorRgb, c2: ColorRgb, t: int) -> ColorRgb {
        ColorRgb {
            r: (fmul(c1.r as int, (FX_ONE as int) - t) + fmul(c2.r as int, t)) as i64,
            g: (fmul(c1.g as int, (FX_ONE as int) - t) + fmul(c2.g as int, t)) as i64,
            b: (fmul(c1.b as int, (FX_ONE as int) - t) + fmul(c2.b as int, t)) as i64,
        }
    }

    pub fn lerp(c1: ColorRgb, c2: ColorRgb, t: i64) -> (c: ColorRgb)
        requires
            0 <= t <= FX_ONE,
            -0x1_0000_0000_0000 <= c1.r <= 0x1_0000_0000_0000,
            -0x1_0000_0000_0000 <= c1.g <= 0x1_0000_0000_0000,
            -0x1_0000_0000_0000 <= c1.b <= 0x1_0000_0000_0000,
            -0x1_0000_0000_0000 <= c2.r <= 0x1_0000_0000_0000,
            -0x1_0000_0000_0000 <= c2.g <= 0x1_0000_0000_0000,
            -0x1_0000_0000_0000 <= c2.b <= 0x1_0000_0000_0000,
        ensures
            c == ColorRgb::lerp_spec(c1, c2, t as int),
    {
        proof {
            lemma_lerp_part(c1.r as int, c2.r as int, t as int);
            lemma_lerp_part(c1.g as int, c2.g as int, t as int);
            lemma_lerp_part(c1.b as int, c2.b as int, t as int);
        }
        let s: i64 = FX_ONE - t;
        ColorRgb {
            r: fx_mul(c1.r, s) + fx_mul(c2.r, t),
            g: fx_mul(c1.g, s) + fx_mul(c2.g, t),
            b: fx_mul(c1.b, s) + fx_mul(c2.b, t),
        }
    }
}

/// Largest magnitude a radiance component may reach; the accumulating
/// operators saturate here instead of overflowing.
pub const COLOR_LIMIT: i64 = 0x1_0000_0000_0000;

/// Saturation of a radiance component.
pub open spec fn clamp_c(x: int) -> int {
    if x < -(COLOR_LIMIT as int) {
        -(COLOR_LIMIT as int)
    } else if x > COLOR_LIMIT as int {
        COLOR_LIMIT as int
    } else {
        x
    }
}

/// Saturate one radiance component, executable (from a wide intermediate).
fn clamp_c_exec(x: i128) -> (r: i64)
    ensures
        r == clamp_c(x as int),
{
    if x < -(COLOR_LIMIT as i128) {
        -COLOR_LIMIT
    } else if x > COLOR_LIMIT as i128 {
        COLOR_LIMIT
    } else {
        x as i64
    }
}

impl ColorRgb {
    /// Componentwise sum, saturated into the radiance range; exact whenever
    /// the sum stays within it.
    pub open spec fn cadd_spec(a: ColorRgb, b: ColorRgb) -> ColorRgb {
        ColorRgb {
            r: clamp_c(a.r + b.r) as i64,
            g: clamp_c(a.g + b.g) as i64,
            b: clamp_c(a.b + b.b) as i64,
        }
    }

    pub fn cadd(&self, rhs: &ColorRgb) -> (c: ColorRgb)
        ensures
            c == ColorRgb::cadd_spec(*self, *rhs),
    {
        ColorRgb {
            r: clamp_c_exec((self.r as i128) + (rhs.r as i128)),
            g: clamp_c_exec((self.g as i128) + (rhs.g as i128)),
            b: clamp_c_exec((self.b as i128) + (rhs.b as i128)),
        }
    }

    /// Componentwise filtering product, rounded once and saturated into the
    /// radiance range.
    pub open spec fn cmul_spec(a: ColorRgb, b: ColorRgb) -> ColorRgb {
        ColorRgb {
            r: clamp_c(fmul(a.r as int, b.r as int)) as i64,
            g: clamp_c(fmul(a.g as int, b.g as int)) as i64,
            b: clamp_c(fmul(a.b as int, b.b as int)) as i64,
        }
    }

    pub fn cmul(&self, rhs: &ColorRgb) -> (c: ColorRgb)
        ensures
            c == ColorRgb::cmul_spec(*self, *rhs),
    {
        ColorRgb {
            r: Self::cmul_part(self.r, rhs.r),
            g: Self::cmul_part(self.g, rhs.g),
            b: Self::cmul_part(self.b, rhs.b),
        }
    }

    fn cmul_part(a: i64, b: i64) -> (r: i64)
        ensures
            r == clamp_c(fmul(a as int, b as int)),
    {
        proof {
            crate::fixed::lemma_mul_bound(a as int, b as int, 0x8000_0000_0000_0000,
                0x8000_0000_0000_0000);
        }
        let p: i128 = (a as i128) * (b as i128);
        let q: i128 = if p >= 0 {
            p / (FX_ONE as i128)
        } else {
            -((-p) / (FX_ONE as i128))
        };
        clamp_c_exec(q)
    }
}

/// The sum of the weights of the first `i` samples.
pub open spec fn weights_total(s: Seq<(ColorRgb, i64)>, i: int) -> int
    decreases i,
{
    if i <= 0 {
        0
    } else {
        weights_total(s, i - 1) + s[i - 1].1
    }
}

/// The weighted accumulation of the first `i` samples: each color scaled by
/// its weight's share of the total, folded with the saturating sum.
pub open spec fn mix_fold(s: Seq<(ColorRgb, i64)>, tot: int, i: int) -> ColorRgb
    decreases i,
{
    if i <= 0 {
        ColorRgb::black_spec()
    } else {
        let prev = mix_fold(s, tot, i - 1);
        let share = fdiv(s[i - 1].1 as int, tot);
        let term = ColorRgb {
            r: clamp_c(fmul(s[i - 1].0.r as int, share)) as i64,
            g: clamp_c(fmul(s[i - 1].0.g as int, share)) as i64,
            b: clamp_c(fmul(s[i - 1].0.b as int, share)) as i64,
        };
        ColorRgb::cadd_spec(prev, term)
    }
}

impl ColorRgb {
    /// The weighted mix of a set of samples: black when the weights sum to
    /// (numerically) nothing, else each color contributes its weight's share
    /// of the total.
    pub fn mix_samples(samples: &Vec<(ColorRgb, i64)>) -> (res: ColorRgb)
        requires
            samples@.len() <= 0x1_0000,
            forall|i: int| 0 <= i < samples@.len() ==> 0 <= (#[trigger] samples@[i]).1
                <= 0x1_0000_0000,
        ensures
            weights_total(samples@, samples@.len() as int) < COLOR_EPS ==> res
                == ColorRgb::black_spec(),
            weights_total(samples@, samples@.len() as int) >= COLOR_EPS ==> res == mix_fold(
                samples@,
                weights_total(samples@, samples@.len() as int),
                samples@.len() as int,
            ),
    {
        let mut tot: i64 = 0;
        let mut i: usize = 0;
        while i < samples.len()
            invariant
                0 <= i <= samples@.len(),
                samples@.len() <= 0x1_0000,
                forall|j: int| 0 <= j < samples@.len() ==> 0 <= (#[trigger] samples@[j]).1
                    <= 0x1_0000_0000,
                tot == weights_total(samples@, i as int),
                0 <= tot <= i * 0x1_0000_0000,
            decreases samples@.len() - i,
        {
            proof {
                assert((i + 1) * 0x1_0000_0000 == i * 0x1_0000_0000 + 0x1_0000_0000)
                    by (nonlinear_arith);
            }
            tot = tot + samples[i].1;
            i = i + 1;
        }
        if tot < COLOR_EPS {
            return ColorRgb::black();
        }
        let mut res = ColorRgb::black();
        let mut i: usize = 0;
        while i < samples.len()
            invariant
                0 <= i <= samples@.len(),
                tot == weights_total(samples@, samples@.len() as int),
                tot >= COLOR_EPS,
                forall|j: int| 0 <= j < samples@.len() ==> 0 <= (#[trigger] samples@[j]).1
                    <= 0x1_0000_0000,
                res == mix_fold(samples@, tot as int, i as int),
            decreases samples@.len() - i,
        {
            proof {
                crate::fixed::lemma_mul_bound(samples@[i as int].1 as int, FX_ONE as int,
                    0x1_0000_0000, 65536);
                crate::fixed::lemma_tdiv_bound((samples@[i as int].1 as int) * (FX_ONE as int),
                    tot as int, 0x1_0000_0000int * 65536);
            }
            let (color, weight) = samples[i];
            let share = fx_div(weight, tot);
            let term = color.cmul(&ColorRgb { r: share, g: share, b: share });
            res = res.cadd(&term);
            i = i + 1;
        }
        res
    }
}

proof fn lemma_lerp_part(a: int, b: int, t: int)
    requires
        0 <= t <= FX_ONE,
        -0x1_0000_0000_0000 <= a <= 0x1_0000_0000_0000,
        -0x1_0000_0000_0000 <= b <= 0x1_0000_0000_0000,
    ensures
        -0x1_0000_0000_0000 <= fmul(a, (FX_ONE as int) - t) <= 0x1_0000_0000_0000,
        -0x1_0000_0000_0000 <= fmul(b, t) <= 0x1_0000_0000_0000,
{
    crate::fixed::lemma_fmul_bound(a, (FX_ONE as int) - t, 0x1_0000_0000_0000, 65536);
    crate::fixed::lemma_fmul_bound(b, t, 0x1_0000_0000_0000, 65536);
    assert(tdiv(0x1_0000_0000_0000int * 65536, FX_ONE as int) == 0x1_0000_0000_0000);
}

} // verus!
