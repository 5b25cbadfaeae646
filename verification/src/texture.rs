use vstd::prelude::*;
use std::sync::Arc;
use crate::color::{ColorRgb, COLOR_LIMIT};
use crate::fixed::{fmul, sok, tdiv, FX_ONE};
use crate::vec3::{vok, Vec3d, UV};

verus! {

/// A surface color that does not depend on the lookup coordinate.
pub struct SolidColorTexture {
    pub color: ColorRgb,
}

/// A decoded image sampled by surface coordinate. The pixel pool is indexed
/// row by row; loading and color-space conversion happen outside the library,
/// which receives plain linear color values.
pub struct ImageTexture {
    pub width: u32,
    pub height: u32,
    pub pixels: Vec<ColorRgb>,
}

/// A checker of two textures over the surface coordinate grid.
pub struct UVCheckerTexture {
    pub scale_u: i64,
    pub scale_v: i64,
    pub even: Arc<Texture>,
    pub odd: Arc<Texture>,
}

/// A checker of two textures over the spatial grid.
pub struct SpatialCheckerTexture {
    pub scale_x: i64,
    pub scale_y: i64,
    pub scale_z: i64,
    pub even: Arc<Texture>,
    pub odd: Arc<Texture>,
}

/// A pure surface-color source: a closed union of the texture kinds.
pub enum Texture {
    Solid(SolidColorTexture),
    Image(ImageTexture),
    UVChecker(UVCheckerTexture),
    SpatialChecker(SpatialCheckerTexture),
}

/// Largest magnitude of a surface-coordinate component a lookup accepts.
pub const UV_LIMIT: i64 = 0x4_0000_0000;

/// A color that may be stored in a texture.
pub open spec fn cok(c: ColorRgb) -> bool {
    -COLOR_LIMIT <= c.r <= COLOR_LIMIT && -COLOR_LIMIT <= c.g <= COLOR_LIMIT && -COLOR_LIMIT <= c.b
        <= COLOR_LIMIT
}

/// A well-formed texture: image pools match their dimensions, scales are in
/// range, and every stored color lies in the radiance range.
pub open spec fn texok(t: Texture) -> bool
    decreases t,
{
    match t {
        Texture::Solid(s) => cok(s.color),
        Texture::Image(im) => im.pixels@.len() == (im.width as int) * (im.height as int)
            && im.width >= 1 && im.height >= 1 && forall|i: int|
            0 <= i < im.pixels@.len() ==> cok(#[trigger] im.pixels@[i]),
        Texture::UVChecker(c) => sok(c.scale_u) && sok(c.scale_v) && texok(*c.even) && texok(
            *c.odd,
        ),
        Texture::SpatialChecker(c) => sok(c.scale_x) && sok(c.scale_y) && sok(c.scale_z) && texok(
            *c.even,
        ) && texok(*c.odd),
    }
}

/// The floor of a fixed-point scalar as a grid index (Euclidean division by
/// the scale is exactly the floor).
pub open spec fn grid_of(x: int) -> int {
    x / (FX_ONE as int)
}

/// The machine remainder by two (truncating, so negative for negative
/// operands), used to mirror the checker parity tests exactly.
pub open spec fn rem2(x: int) -> int {
    if x >= 0 {
        x % 2
    } else {
        -((-x) % 2)
    }
}

/// The color an image texture yields at a surface coordinate: the coordinate
/// is scaled to the pixel grid, clamped into it, and looked up with the
/// vertical axis flipped.
pub open spec fn image_value_spec(im: ImageTexture, uv: UV) -> ColorRgb {
    let i0 = tdiv((uv.u as int) * (im.width as int), FX_ONE as int);
    let j0 = tdiv(((FX_ONE as int) - uv.v) * (im.height as int), FX_ONE as int);
    let i = if i0 < 0 { 0 } else if i0 >= im.width as int { im.width as int - 1 } else { i0 };
    let j = if j0 < 0 { 0 } else if j0 >= im.height as int { im.height as int - 1 } else { j0 };
    im.pixels@[j * (im.width as int) + i]
}

/// The color a texture yields at a surface coordinate and point.
pub open spec fn texture_value_spec(t: Texture, uv: UV, p: Vec3d) -> ColorRgb
    decreases t,
{
    match t {
        Texture::Solid(s) => s.color,
        Texture::Image(im) => image_value_spec(im, uv),
        Texture::UVChecker(c) => {
            let gu = grid_of(fmul(uv.u as int, c.scale_u as int));
            let gv = grid_of(fmul(uv.v as int, c.scale_v as int));
            if rem2(gu + gv) == 0 {
                texture_value_spec(*c.even, uv, p)
            } else {
                texture_value_spec(*c.odd, uv, p)
            }
        },
        Texture::SpatialChecker(c) => {
            let gx = grid_of(fmul(p.x as int, c.scale_x as int));
            let gy = grid_of(fmul(p.y as int, c.scale_y as int));
            let gz = grid_of(fmul(p.z as int, c.scale_z as int));
            // The parity test applies the remainder to the third axis alone
            // before summing; this mirrors the renderer's established,
            // observable behavior and is kept deliberately.
            if gx + gy + rem2(gz) == 0 {
                texture_value_spec(*c.even, uv, p)
            } else {
                texture_value_spec(*c.odd, uv, p)
            }
        },
    }
}

impl SolidColorTexture {
    pub fn new(color: ColorRgb) -> (t: SolidColorTexture)
        ensures
            t.color == color,
    {
        SolidColorTexture { color }
    }
}

impl ImageTexture {
    /// Wrap a decoded pixel pool; `Some` exactly when the pool matches the
    /// dimensions and every color lies in the radiance range.
    pub fn new(width: u32, height: u32, pixels: Vec<ColorRgb>) -> (res: Option<ImageTexture>)
        ensures
            res matches Some(t) ==> texok(Texture::Image(t)) && t.width == width && t.height
                == height && t.pixels@ == pixels@,
            res is None ==> !texok(Texture::Image(ImageTexture { width, height, pixels })),
    {
        if width < 1 || height < 1 {
            return None;
        }
        proof {
            crate::fixed::lemma_mul_bound(width as int, height as int, 0xFFFF_FFFF,
                0xFFFF_FFFF);
        }
        let n: u64 = (width as u64) * (height as u64);
        if (pixels.len() as u64) != n {
            return None;
        }
        let mut i: usize = 0;
        while i < pixels.len()
            invariant
                0 <= i <= pixels@.len(),
                forall|j: int| 0 <= j < i ==> cok(#[trigger] pixels@[j]),
            decreases pixels@.len() - i,
        {
            let c = pixels[i];
            if c.r < -COLOR_LIMIT || c.r > COLOR_LIMIT || c.g < -COLOR_LIMIT || c.g > COLOR_LIMIT
                || c.b < -COLOR_LIMIT || c.b > COLOR_LIMIT {
                proof {
                    let t = ImageTexture { width, height, pixels };
                    assert(t.pixels@[i as int] == c);
                }
                return None;
            }
            i = i + 1;
        }
        Some(ImageTexture { width, height, pixels })
    }
}

impl UVCheckerTexture {
    pub fn new(scale_u: i64, scale_v: i64, even: Arc<Texture>, odd: Arc<Texture>) -> (t:
        UVCheckerTexture)
        ensures
            t.scale_u == scale_u,
            t.scale_v == scale_v,
            t.even == even,
            t.odd == odd,
    {
        UVCheckerTexture { scale_u, scale_v, even, odd }
    }

    /// A checker of two flat colors.
    pub fn from_colors(scale_u: i64, scale_v: i64, c1: ColorRgb, c2: ColorRgb) -> (t:
        UVCheckerTexture)
        ensures
            t.scale_u == scale_u,
            t.scale_v == scale_v,
            *t.even == Texture::Solid(SolidColorTexture { color: c1 }),
            *t.odd == Texture::Solid(SolidColorTexture { color: c2 }),
    {
        UVCheckerTexture {
            scale_u,
            scale_v,
            even: Arc::new(Texture::Solid(SolidColorTexture::new(c1))),
            odd: Arc::new(Texture::Solid(SolidColorTexture::new(c2))),
        }
    }
}

impl SpatialCheckerTexture {
    pub fn new(
        scale_x: i64,
        scale_y: i64,
        scale_z: i64,
        even: Arc<Texture>,
        odd: Arc<Texture>,
    ) -> (t: SpatialCheckerTexture)
        ensures
            t.scale_x == scale_x,
            t.scale_y == scale_y,
            t.scale_z == scale_z,
            t.even == even,
            t.odd == odd,
    {
        SpatialCheckerTexture { scale_x, scale_y, scale_z, even, odd }
    }

    /// A checker of two flat colors.
    pub fn from_colors(scale_x: i64, scale_y: i64, scale_z: i64, c1: ColorRgb, c2: ColorRgb)
        -> (t: SpatialCheckerTexture)
        ensures
            t.scale_x == scale_x,
            t.scale_y == scale_y,
            t.scale_z == scale_z,
            *t.even == Texture::Solid(SolidColorTexture { color: c1 }),
            *t.odd == Texture::Solid(SolidColorTexture { color: c2 }),
    {
        SpatialCheckerTexture {
            scale_x,
            scale_y,
            scale_z,
            even: Arc::new(Texture::Solid(SolidColorTexture::new(c1))),
            odd: Arc::new(Texture::Solid(SolidColorTexture::new(c2))),
        }
    }
}

/// The floor of a fixed-point scalar as a grid index, executable.
fn grid_exec(x: i64) -> (g: i64)
    ensures
        g == grid_of(x as int),
{
    if x >= 0 {
        x / FX_ONE
    } else {
        let m = (-(x as i128)) / (FX_ONE as i128);
        let r = (-(x as i128)) % (FX_ONE as i128);
        proof {
            vstd::arithmetic::div_mod::lemma_fundamental_div_mod(-(x as int), FX_ONE as int);
            vstd::arithmetic::div_mod::lemma_div_pos_is_pos(-(x as int), FX_ONE as int);
            vstd::arithmetic::div_mod::lemma_fundamental_div_mod(x as int, FX_ONE as int);
            vstd::arithmetic::div_mod::lemma_div_nonincreasing(-(x as int), FX_ONE as int);
        }
        if r == 0 {
            (-m) as i64
        } else {
            (-m - 1) as i64
        }
    }
}

impl Texture {
    /// The color at a surface coordinate and point: a pure lookup.
    pub fn value(&self, uv: UV, p: &Vec3d) -> (c: ColorRgb)
        requires
            texok(*self),
            -UV_LIMIT <= uv.u <= UV_LIMIT,
            -UV_LIMIT <= uv.v <= UV_LIMIT,
            vok(*p),
        ensures
            c == texture_value_spec(*self, uv, *p),
            cok(c),
        decreases *self,
    {
        match self {
            Texture::Solid(s) => s.color,
            Texture::Image(im) => {
                proof {
                    crate::fixed::lemma_mul_bound(uv.u as int, im.width as int,
                        UV_LIMIT as int, 0x1_0000_0000);
                    crate::fixed::lemma_mul_bound((FX_ONE as int) - (uv.v as int),
                        im.height as int, 0x8_0000_0000, 0x1_0000_0000);
                    crate::fixed::lemma_tdiv_bound((uv.u as int) * (im.width as int),
                        FX_ONE as int, (UV_LIMIT as int) * 0x1_0000_0000);
                    crate::fixed::lemma_tdiv_bound(
                        ((FX_ONE as int) - (uv.v as int)) * (im.height as int), FX_ONE as int,
                        0x8_0000_0000int * 0x1_0000_0000);
                }
                let iu: i128 = ((uv.u as i128) * (im.width as i128)) / (FX_ONE as i128);
                let i0: i128 = if (uv.u as i128) * (im.width as i128) >= 0 {
                    iu
                } else {
                    -((-((uv.u as i128) * (im.width as i128))) / (FX_ONE as i128))
                };
                let jn: i128 = ((FX_ONE as i128) - (uv.v as i128)) * (im.height as i128);
                let j0: i128 = if jn >= 0 {
                    jn / (FX_ONE as i128)
                } else {
                    -((-jn) / (FX_ONE as i128))
                };
                let w = im.width as i128;
                let h = im.height as i128;
                let i: i128 = if i0 < 0 { 0 } else if i0 >= w { w - 1 } else { i0 };
                let j: i128 = if j0 < 0 { 0 } else if j0 >= h { h - 1 } else { j0 };
                proof {
                    crate::fixed::lemma_mul_bound(j as int, im.width as int, im.height as int - 1,
                        im.width as int);
                    assert((j as int) * (im.width as int) + (i as int) < (im.height as int) * (
                    im.width as int)) by (nonlinear_arith)
                        requires
                            0 <= j as int <= im.height as int - 1,
                            0 <= i as int <= im.width as int - 1,
                            im.width as int >= 1;
                    assert((j as int) * (im.width as int) >= 0) by (nonlinear_arith)
                        requires j as int >= 0, im.width as int >= 1;
                }
                let len = im.pixels.len();
                proof {
                    assert(len == (im.width as int) * (im.height as int));
                    assert((im.height as int) * (im.width as int) == (im.width as int) * (
                    im.height as int)) by (nonlinear_arith);
                }
                let idx: usize = (j as usize) * (im.width as usize) + (i as usize);
                im.pixels[idx]
            },
            Texture::UVChecker(c) => {
                proof {
                    lemma_scaled_fits(uv.u as int, c.scale_u as int);
                    lemma_scaled_fits(uv.v as int, c.scale_v as int);
                }
                let gu = grid_exec(crate::fixed::fx_mul(uv.u, c.scale_u));
                let gv = grid_exec(crate::fixed::fx_mul(uv.v, c.scale_v));
                let s: i64 = gu + gv;
                let even_cell = (if s >= 0 { s % 2 } else { -((-s) % 2) }) == 0;
                if even_cell {
                    c.even.value(uv, p)
                } else {
                    c.odd.value(uv, p)
                }
            },
            Texture::SpatialChecker(c) => {
                proof {
                    lemma_scaled_fits(p.x as int, c.scale_x as int);
                    lemma_scaled_fits(p.y as int, c.scale_y as int);
                    lemma_scaled_fits(p.z as int, c.scale_z as int);
                }
                let gx = grid_exec(crate::fixed::fx_mul(p.x, c.scale_x));
                let gy = grid_exec(crate::fixed::fx_mul(p.y, c.scale_y));
                let gz = grid_exec(crate::fixed::fx_mul(p.z, c.scale_z));
                let rz: i64 = if gz >= 0 {
                    gz % 2
                } else {
                    -((-gz) % 2)
                };
                if gx + gy + rz == 0 {
                    c.even.value(uv, p)
                } else {
                    c.odd.value(uv, p)
                }
            },
        }
    }
}

/// The product of a coordinate-bounded value and scale fits, as does its
/// grid index.
proof fn lemma_scaled_fits(x: int, s: int)
    requires
        -(UV_LIMIT as int) <= x <= UV_LIMIT as int,
        -(UV_LIMIT as int) <= s <= UV_LIMIT as int,
    ensures
        -0x10_0000_0000_0000 <= fmul(x, s) <= 0x10_0000_0000_0000,
        -0x10_0000_0000_0000 <= grid_of(fmul(x, s)) <= 0x10_0000_0000_0000,
{
    crate::fixed::lemma_fmul_bound(x, s, UV_LIMIT as int, UV_LIMIT as int);
    assert(tdiv((UV_LIMIT as int) * (UV_LIMIT as int), FX_ONE as int) == 0x10_0000_0000_0000);
    let v = fmul(x, s);
    vstd::arithmetic::div_mod::lemma_div_is_ordered(v, 0x10_0000_0000_0000, FX_ONE as int);
    vstd::arithmetic::div_mod::lemma_div_is_ordered(-0x10_0000_0000_0000, v, FX_ONE as int);
    assert((-0x10_0000_0000_0000) / (FX_ONE as int) >= -0x10_0000_0000_0000);
    assert(0x10_0000_0000_0000int / (FX_ONE as int) <= 0x10_0000_0000_0000);
}

} // verus!
