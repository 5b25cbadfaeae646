use vstd::prelude::*;
use crate::color::{clamp_c, ColorRgb};
use crate::film::{film_wf, SimpleFilm};
use crate::fixed::{fdiv, fmul, fsqrt, fx_div, fx_mul, fx_sqrt, COORD_LIMIT, FX_ONE};

verus! {

/// Coefficients of the filmic tone curve `x(a x + b) / (x(c x + d) + e)`.
pub const ACES_A: i64 = 164495;

pub const ACES_B: i64 = 1966;

pub const ACES_C: i64 = 159252;

pub const ACES_D: i64 = 38666;

pub const ACES_E: i64 = 9175;

/// Scales every pixel by a fixed exposure factor.
pub struct ExposureFilter {
    pub factor: i64,
}

/// The filmic tone curve, applied per component and clamped to the unit range.
pub struct AcesFilmicFilter;

/// Darkens pixels by their distance from the image center.
pub struct VignetteFilter {
    pub intensity: i64,
}

/// The range-compression curve `x / (1 + x)`, applied per component.
pub struct ReinhardFilter;

/// A post-process step: a closed union of the filter kinds.
pub enum Filter {
    Exposure(ExposureFilter),
    Aces(AcesFilmicFilter),
    Vignette(VignetteFilter),
    Reinhard(ReinhardFilter),
}

/// A filter whose parameters lie in range.
pub open spec fn fok(f: Filter) -> bool {
    match f {
        Filter::Exposure(e) => -COORD_LIMIT <= e.factor <= COORD_LIMIT,
        Filter::Aces(_) => true,
        Filter::Vignette(v) => 0 <= v.intensity <= FX_ONE,
        Filter::Reinhard(_) => true,
    }
}

/// The tone curve on one component: zero on a vanishing denominator, else
/// the rational curve clamped to the unit range.
pub open spec fn aces_map(x: int) -> int {
    let num = fmul(x, fmul(ACES_A as int, x) + ACES_B);
    let den = fmul(x, fmul(ACES_C as int, x) + ACES_D) + ACES_E;
    if den == 0 {
        0
    } else {
        let y = fdiv(num, den);
        if y < 0 {
            0
        } else if y > FX_ONE {
            FX_ONE as int
        } else {
            y
        }
    }
}

/// The compression curve on one component: zero on a vanishing denominator,
/// saturated into the radiance range.
pub open spec fn reinhard_map(x: int) -> int {
    if (FX_ONE as int) + x == 0 {
        0
    } else {
        clamp_c(fdiv(x, (FX_ONE as int) + x))
    }
}

/// The vignette factor at pixel `(x, y)`: one minus the scaled distance from
/// the center, floored at zero.
pub open spec fn vignette_factor(intensity: int, w: int, h: int, x: int, y: int) -> int {
    let u = fdiv(x * (FX_ONE as int) + (FX_ONE as int) / 2, w * (FX_ONE as int)) - (
    FX_ONE as int) / 2;
    let v = fdiv(y * (FX_ONE as int) + (FX_ONE as int) / 2, h * (FX_ONE as int)) - (
    FX_ONE as int) / 2;
    let dist = fsqrt(fmul(u, u) + fmul(v, v));
    let fac = (FX_ONE as int) - fmul(dist, intensity);
    if fac < 0 {
        0
    } else {
        fac
    }
}

/// What a filter does to the pixel at flat index `i` of a `w` by `h` film.
pub open spec fn filter_map_spec(f: Filter, w: int, h: int, i: int, c: ColorRgb) -> ColorRgb {
    match f {
        Filter::Exposure(e) => ColorRgb {
            r: clamp_c(fmul(c.r as int, e.factor as int)) as i64,
            g: clamp_c(fmul(c.g as int, e.factor as int)) as i64,
            b: clamp_c(fmul(c.b as int, e.factor as int)) as i64,
        },
        Filter::Aces(_) => ColorRgb {
            r: aces_map(c.r as int) as i64,
            g: aces_map(c.g as int) as i64,
            b: aces_map(c.b as int) as i64,
        },
        Filter::Vignette(v) => {
            let fac = vignette_factor(v.intensity as int, w, h, i % w, i / w);
            ColorRgb {
                r: clamp_c(fmul(c.r as int, fac)) as i64,
                g: clamp_c(fmul(c.g as int, fac)) as i64,
                b: clamp_c(fmul(c.b as int, fac)) as i64,
            }
        },
        Filter::Reinhard(_) => ColorRgb {
            r: reinhard_map(c.r as int) as i64,
            g: reinhard_map(c.g as int) as i64,
            b: reinhard_map(c.b as int) as i64,
        },
    }
}

/// The tone curve on one component, executable.
fn aces_exec(x: i64) -> (y: i64)
    requires
        -crate::color::COLOR_LIMIT <= x <= crate::color::COLOR_LIMIT,
    ensures
        y == aces_map(x as int),
        0 <= y <= FX_ONE,
{
    proof {
        crate::fixed::lemma_fmul_bound(ACES_A as int, x as int, 0x10_0000,
            crate::color::COLOR_LIMIT as int);
        crate::fixed::lemma_fmul_bound(ACES_C as int, x as int, 0x10_0000,
            crate::color::COLOR_LIMIT as int);
    }
    let ax = fx_mul_wide(ACES_A, x);
    let cx = fx_mul_wide(ACES_C, x);
    let num = fx_mul_wide128(x, ax + (ACES_B as i128));
    let den = fx_mul_wide128(x, cx + (ACES_D as i128)) + (ACES_E as i128);
    if den == 0 {
        0
    } else {
        let nn: i128 = num * (FX_ONE as i128);
        let y: i128 = if den > 0 {
            if nn >= 0 { nn / den } else { -((-nn) / den) }
        } else {
            if nn >= 0 { -(nn / (-den)) } else { (-nn) / (-den) }
        };
        proof {
            crate::fixed::lemma_mul_bound(num as int, FX_ONE as int,
                0x100_0000_0000_0000_0000_0000_0000, 65536);
            crate::fixed::lemma_tdiv_bound(num as int * (FX_ONE as int),
                if den > 0 { den as int } else { -(den as int) },
                0x100_0000_0000_0000_0000_0000_0000int * 65536);
        }
        if y < 0 {
            0
        } else if y > FX_ONE as i128 {
            FX_ONE
        } else {
            y as i64
        }
    }
}

/// `fmul` of a small coefficient with a radiance-bounded operand, widened.
fn fx_mul_wide(a: i64, b: i64) -> (r: i128)
    requires
        -0x10_0000 <= a <= 0x10_0000,
        -crate::color::COLOR_LIMIT <= b <= crate::color::COLOR_LIMIT,
    ensures
        r == fmul(a as int, b as int),
        -0x10_0000_0000_0000_0000 <= r <= 0x10_0000_0000_0000_0000,
{
    proof {
        crate::fixed::lemma_mul_bound(a as int, b as int, 0x10_0000,
            crate::color::COLOR_LIMIT as int);
        crate::fixed::lemma_tdiv_bound((a as int) * (b as int), FX_ONE as int,
            0x10_0000int * (crate::color::COLOR_LIMIT as int));
    }
    let p: i128 = (a as i128) * (b as i128);
    if p >= 0 {
        p / (FX_ONE as i128)
    } else {
        -((-p) / (FX_ONE as i128))
    }
}

/// `fmul` of a radiance-bounded operand with a wider bounded one.
fn fx_mul_wide128(a: i64, b: i128) -> (r: i128)
    requires
        -crate::color::COLOR_LIMIT <= a <= crate::color::COLOR_LIMIT,
        -0x100_0000_0000_0000_0000 <= b <= 0x100_0000_0000_0000_0000,
    ensures
        r == fmul(a as int, b as int),
        -0x100_0000_0000_0000_0000_0000_0000 <= r <= 0x100_0000_0000_0000_0000_0000_0000,
{
    proof {
        crate::fixed::lemma_mul_bound(a as int, b as int, crate::color::COLOR_LIMIT as int,
            0x100_0000_0000_0000_0000);
        crate::fixed::lemma_tdiv_bound((a as int) * (b as int), FX_ONE as int,
            (crate::color::COLOR_LIMIT as int) * 0x100_0000_0000_0000_0000);
    }
    let p: i128 = (a as i128) * b;
    if p >= 0 {
        p / (FX_ONE as i128)
    } else {
        -((-p) / (FX_ONE as i128))
    }
}

/// The compression curve on one component, executable.
fn reinhard_exec(x: i64) -> (y: i64)
    ensures
        y == reinhard_map(x as int),
        -crate::color::COLOR_LIMIT <= y <= crate::color::COLOR_LIMIT,
{
    let den: i128 = (FX_ONE as i128) + (x as i128);
    if den == 0 {
        0
    } else {
        let nn: i128 = (x as i128) * (FX_ONE as i128);
        proof {
            crate::fixed::lemma_mul_bound(x as int, FX_ONE as int, 0x8000_0000_0000_0000, 65536);
            crate::fixed::lemma_tdiv_bound((x as int) * (FX_ONE as int),
                if den > 0 { den as int } else { -(den as int) },
                0x8000_0000_0000_0000int * 65536);
        }
        let q: i128 = if den > 0 {
            if nn >= 0 { nn / den } else { -((-nn) / den) }
        } else {
            if nn >= 0 { -(nn / (-den)) } else { (-nn) / (-den) }
        };
        if q < -(crate::color::COLOR_LIMIT as i128) {
            -crate::color::COLOR_LIMIT
        } else if q > crate::color::COLOR_LIMIT as i128 {
            crate::color::COLOR_LIMIT
        } else {
            q as i64
        }
    }
}

impl Filter {
    /// Apply the filter to one pixel value at flat index `i`.
    fn map_pixel(&self, w: u32, h: u32, i: usize, c: ColorRgb) -> (r: ColorRgb)
        requires
            fok(*self),
            w >= 1,
            h >= 1,
            i < (w as int) * (h as int),
            crate::texture::cok(c),
        ensures
            r == filter_map_spec(*self, w as int, h as int, i as int, c),
            crate::texture::cok(r),
    {
        match self {
            Filter::Exposure(e) => ColorRgb {
                r: cmul_clamped(c.r, e.factor),
                g: cmul_clamped(c.g, e.factor),
                b: cmul_clamped(c.b, e.factor),
            },
            Filter::Aces(_) => ColorRgb {
                r: aces_exec(c.r),
                g: aces_exec(c.g),
                b: aces_exec(c.b),
            },
            Filter::Vignette(v) => {
                proof {
                    let wi = w as int;
                    let hi = h as int;
                    let ii = i as int;
                    vstd::arithmetic::div_mod::lemma_fundamental_div_mod(ii, wi);
                    vstd::arithmetic::div_mod::lemma_div_pos_is_pos(ii, wi);
                    assert(ii / wi < hi) by (nonlinear_arith)
                        requires
                            wi * (ii / wi) + ii % wi == ii,
                            0 <= ii % wi,
                            ii < wi * hi,
                            wi >= 1,
                            0 <= ii / wi;
                }
                let x: u32 = (i % (w as usize)) as u32;
                let y: u32 = (i / (w as usize)) as u32;
                let fac = vignette_exec(v.intensity, w, h, x, y);
                ColorRgb {
                    r: cmul_clamped(c.r, fac),
                    g: cmul_clamped(c.g, fac),
                    b: cmul_clamped(c.b, fac),
                }
            },
            Filter::Reinhard(_) => ColorRgb {
                r: reinhard_exec(c.r),
                g: reinhard_exec(c.g),
                b: reinhard_exec(c.b),
            },
        }
    }

    /// Apply the filter to every pixel of the film.
    pub fn process(&self, film: &mut SimpleFilm)
        requires
            fok(*self),
            film_wf(*old(film)),
            old(film).width >= 1,
            old(film).height >= 1,
        ensures
            film_wf(*final(film)),
            final(film).width == old(film).width,
            final(film).height == old(film).height,
            final(film).buffer@.len() == old(film).buffer@.len(),
            forall|i: int| 0 <= i < old(film).buffer@.len()
                ==> #[trigger] final(film).buffer@[i] == filter_map_spec(*self,
                old(film).width as int, old(film).height as int, i, old(film).buffer@[i]),
    {
        let ghost orig = film.buffer@;
        let n = film.buffer.len();
        let mut i: usize = 0;
        while i < n
            invariant
                0 <= i <= n,
                fok(*self),
                film_wf(*film),
                film.width == old(film).width,
                film.height == old(film).height,
                film.buffer@.len() == n,
                orig == old(film).buffer@,
                orig.len() == n,
                forall|j: int| 0 <= j < i ==> #[trigger] film.buffer@[j] == filter_map_spec(
                    *self,
                    film.width as int,
                    film.height as int,
                    j,
                    orig[j],
                ),
                forall|j: int| i <= j < n ==> #[trigger] film.buffer@[j] == orig[j],
            decreases n - i,
        {
            let c = film.buffer[i];
            let mapped = self.map_pixel(film.width, film.height, i, c);
            film.buffer.set(i, mapped);
            i = i + 1;
        }
    }
}

/// The product of a component and a factor, rounded once and saturated.
fn cmul_clamped(a: i64, b: i64) -> (r: i64)
    ensures
        r == clamp_c(fmul(a as int, b as int)),
{
    proof {
        crate::fixed::lemma_mul_bound(a as int, b as int, 0x8000_0000_0000_0000,
            0x8000_0000_0000_0000);
    }
    let p: i128 = (a as i128) * (b as i128);
    let q: i128 = if p >= 0 {
        p / (FX_ONE as i128)
    } else {
        -((-p) / (FX_ONE as i128))
    };
    if q < -(crate::color::COLOR_LIMIT as i128) {
        -crate::color::COLOR_LIMIT
    } else if q > crate::color::COLOR_LIMIT as i128 {
        crate::color::COLOR_LIMIT
    } else {
        q as i64
    }
}

/// The vignette factor at a pixel, executable.
fn vignette_exec(intensity: i64, w: u32, h: u32, x: u32, y: u32) -> (fac: i64)
    requires
        0 <= intensity <= FX_ONE,
        w >= 1,
        h >= 1,
        x < w,
        y < h,
    ensures
        fac == vignette_factor(intensity as int, w as int, h as int, x as int, y as int),
        0 <= fac <= FX_ONE,
{
    let u = center_offset(x, w);
    let v = center_offset(y, h);
    proof {
        crate::fixed::lemma_fmul_bound(u as int, u as int, 0x1_8000, 0x1_8000);
        crate::fixed::lemma_fmul_bound(v as int, v as int, 0x1_8000, 0x1_8000);
        assert((u as int) * (u as int) >= 0) by (nonlinear_arith);
        assert((v as int) * (v as int) >= 0) by (nonlinear_arith);
        vstd::arithmetic::div_mod::lemma_div_pos_is_pos((u as int) * (u as int), FX_ONE as int);
        vstd::arithmetic::div_mod::lemma_div_pos_is_pos((v as int) * (v as int), FX_ONE as int);
        crate::fixed::lemma_mul_nonneg(
            fmul(u as int, u as int) + fmul(v as int, v as int),
            FX_ONE as int,
        );
        crate::fixed::lemma_sqrt_floor_correct(
            (fmul(u as int, u as int) + fmul(v as int, v as int)) * (FX_ONE as int),
        );
        let s2 = fmul(u as int, u as int) + fmul(v as int, v as int);
        let rt = fsqrt(s2);
        assert(rt <= 0x6_0000) by (nonlinear_arith)
            requires
                rt >= 0,
                rt * rt <= s2 * 65536,
                s2 <= 2 * 0x2_4000,
                s2 * 65536 <= 2 * 0x2_4000 * 65536;
        crate::fixed::lemma_fmul_bound(rt, intensity as int, 0x6_0000, 65536);
    }
    let uu = fx_mul(u, u);
    let vv = fx_mul(v, v);
    let dist = fx_sqrt(uu + vv);
    let fac = FX_ONE - fx_mul(dist, intensity);
    if fac < 0 {
        0
    } else {
        fac
    }
}

/// The normalized offset of a pixel from the image center on one axis.
fn center_offset(x: u32, w: u32) -> (u: i64)
    requires
        w >= 1,
        x < w,
    ensures
        u == fdiv((x as int) * (FX_ONE as int) + (FX_ONE as int) / 2, (w as int) * (
        FX_ONE as int)) - (FX_ONE as int) / 2,
        -0x1_8000 <= u <= 0x1_8000,
{
    let xf: i64 = (x as i64) * FX_ONE + FX_ONE / 2;
    let wf: i64 = (w as i64) * FX_ONE;
    proof {
        crate::fixed::lemma_mul_bound(x as int, FX_ONE as int, 0xFFFF_FFFF, 65536);
        crate::fixed::lemma_mul_bound(w as int, FX_ONE as int, 0xFFFF_FFFF, 65536);
        crate::fixed::lemma_mul_nonneg(x as int, FX_ONE as int);
        assert(xf as int <= wf as int) by (nonlinear_arith)
            requires
                xf as int == (x as int) * 65536 + 32768,
                wf as int == (w as int) * 65536,
                (x as int) < (w as int);
        crate::trig::lemma_ratio_unit(xf as int, wf as int);
    }
    fx_div(xf, wf) - FX_ONE / 2
}

/// An ordered list of post-process steps, applied front to back.
pub struct FilterList {
    pub filters: Vec<Filter>,
}

/// Every filter in range.
pub open spec fn flok(l: FilterList) -> bool {
    forall|i: int| 0 <= i < l.filters@.len() ==> fok(#[trigger] l.filters@[i])
}

impl FilterList {
    pub fn new() -> (l: FilterList)
        ensures
            flok(l),
            l.filters@.len() == 0,
    {
        FilterList { filters: Vec::new() }
    }

    pub fn add_filter(&mut self, f: Filter)
        requires
            flok(*old(self)),
            fok(f),
        ensures
            flok(*final(self)),
            final(self).filters@ == old(self).filters@.push(f),
    {
        self.filters.push(f);
    }

    /// Apply every filter in order.
    pub fn process(&self, film: &mut SimpleFilm)
        requires
            flok(*self),
            film_wf(*old(film)),
            old(film).width >= 1,
            old(film).height >= 1,
        ensures
            film_wf(*final(film)),
            final(film).width == old(film).width,
            final(film).height == old(film).height,
    {
        let mut i: usize = 0;
        while i < self.filters.len()
            invariant
                0 <= i <= self.filters@.len(),
                flok(*self),
                film_wf(*film),
                film.width == old(film).width,
                film.height == old(film).height,
                film.width >= 1,
                film.height >= 1,
            decreases self.filters@.len() - i,
        {
            self.filters[i].process(film);
            i = i + 1;
        }
    }
}

} // verus!
