use vstd::prelude::*;
use crate::color::{ColorRgb, COLOR_LIMIT};

verus! {

/// A rectangular buffer of unclamped linear-radiance pixels, indexed row by
/// row.
pub struct SimpleFilm {
    pub width: u32,
    pub height: u32,
    pub buffer: Vec<ColorRgb>,
}

/// A well-formed film: the buffer matches the dimensions and every pixel
/// lies in the radiance range.
pub open spec fn film_wf(f: SimpleFilm) -> bool {
    &&& f.buffer@.len() == (f.width as int) * (f.height as int)
    &&& forall|i: int| 0 <= i < f.buffer@.len() ==> crate::texture::cok(#[trigger] f.buffer@[i])
}

/// The flat index of a pixel.
pub open spec fn pixel_index(f: SimpleFilm, x: int, y: int) -> int {
    y * (f.width as int) + x
}

impl SimpleFilm {
    /// A black film of the given dimensions.
    pub fn new(width: u32, height: u32) -> (f: SimpleFilm)
        ensures
            film_wf(f),
            f.width == width,
            f.height == height,
            forall|i: int| 0 <= i < f.buffer@.len() ==> #[trigger] f.buffer@[i]
                == ColorRgb::black_spec(),
    {
        proof {
            crate::fixed::lemma_mul_bound(width as int, height as int, 0xFFFF_FFFF, 0xFFFF_FFFF);
            crate::fixed::lemma_mul_nonneg(width as int, height as int);
        }
        let n: u64 = (width as u64) * (height as u64);
        let mut buffer: Vec<ColorRgb> = Vec::new();
        let mut i: u64 = 0;
        while i < n
            invariant
                0 <= i <= n,
                buffer@.len() == i,
                forall|j: int| 0 <= j < i ==> #[trigger] buffer@[j] == ColorRgb::black_spec(),
            decreases n - i,
        {
            buffer.push(ColorRgb::black());
            i = i + 1;
        }
        SimpleFilm { width, height, buffer }
    }

    pub fn width(&self) -> (w: u32)
        ensures
            w == self.width,
    {
        self.width
    }

    pub fn height(&self) -> (h: u32)
        ensures
            h == self.height,
    {
        self.height
    }

    pub fn set_pixel(&mut self, x: u32, y: u32, color: ColorRgb)
        requires
            film_wf(*old(self)),
            x < old(self).width,
            y < old(self).height,
            crate::texture::cok(color),
        ensures
            film_wf(*final(self)),
            final(self).width == old(self).width,
            final(self).height == old(self).height,
            final(self).buffer@ == old(self).buffer@.update(
                pixel_index(*old(self), x as int, y as int),
                color,
            ),
    {
        proof {
            lemma_pixel_index(self.width as int, self.height as int, x as int, y as int);
        }
        let n = self.buffer.len();
        let idx: usize = (y as usize) * (self.width as usize) + (x as usize);
        self.buffer.set(idx, color);
    }

    pub fn get_pixel(&self, x: u32, y: u32) -> (c: ColorRgb)
        requires
            film_wf(*self),
            x < self.width,
            y < self.height,
        ensures
            c == self.buffer@[pixel_index(*self, x as int, y as int)],
    {
        proof {
            lemma_pixel_index(self.width as int, self.height as int, x as int, y as int);
        }
        let n = self.buffer.len();
        let idx: usize = (y as usize) * (self.width as usize) + (x as usize);
        self.buffer[idx]
    }
}

/// A pixel's flat index lies inside the buffer.
proof fn lemma_pixel_index(w: int, h: int, x: int, y: int)
    requires
        0 <= x < w,
        0 <= y < h,
    ensures
        0 <= y * w + x < w * h,
        y * w <= (h - 1) * w,
{
    assert(0 <= y * w + x < w * h && y * w <= (h - 1) * w) by (nonlinear_arith)
        requires 0 <= x < w, 0 <= y < h;
}

} // verus!
