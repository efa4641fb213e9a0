//! Texture sampling over an already decoded RGBA image. Decoding a file
//! is the display layer's job; the core only reads pixels by nearest
//! lookup and turns bytes into unit-interval channels.

use vstd::prelude::*;
use crate::fixed::SCALE;
use crate::fixed::div_trunc;
use crate::fixed::div_trunc_i128;
use crate::fixed::lemma_div_trunc_le;
use crate::fixed::lemma_div_trunc_ge;
use crate::vec3::Vector3;
use crate::ray::color_wf;

verus! {

/// Largest texture side accepted.
pub const TEX_DIM_MAX: u32 = 0x4000;

#[derive(Clone, Debug)]
pub struct Texture {
    pub width: u32,
    pub height: u32,
    pub pixels: Vec<u8>,
}

/// Decoded and bounded: four bytes per pixel, row major.
pub open spec fn tex_wf(t: Texture) -> bool {
    &&& 1 <= t.width <= TEX_DIM_MAX
    &&& 1 <= t.height <= TEX_DIM_MAX
    &&& t.pixels@.len() == t.width * t.height * 4
}

/// The fractional part of a fixed-point scalar, truncated toward zero as
/// in the original floating sampling: negative inputs keep their sign.
pub open spec fn s_fract(u: int) -> int {
    if u >= 0 {
        u % (SCALE as int)
    } else {
        -((-u) % (SCALE as int))
    }
}

/// The texel column a horizontal coordinate selects: scaled, floored at
/// zero and clamped to the last column.
pub open spec fn s_tex_x(t: Texture, u: int) -> int {
    let xf = div_trunc(s_fract(u) * t.width, SCALE as int);
    if xf < 0 {
        0
    } else if xf > t.width - 1 {
        t.width - 1
    } else {
        xf
    }
}

/// The texel row: vertically flipped, then clamped to the last row.
pub open spec fn s_tex_y(t: Texture, v: int) -> int {
    let yf = div_trunc((SCALE - s_fract(v)) * t.height, SCALE as int);
    if yf < 0 {
        0
    } else if yf > t.height - 1 {
        t.height - 1
    } else {
        yf
    }
}

/// One byte turned into a unit-interval channel.
pub open spec fn s_channel(b: int) -> int {
    (b * SCALE) / 255
}

/// The color `sample` returns: the RGB bytes of the selected texel.
pub open spec fn s_sample(t: Texture, u: int, v: int) -> (int, int, int) {
    let idx = (s_tex_y(t, v) * t.width + s_tex_x(t, u)) * 4;
    (
        s_channel(t.pixels@[idx] as int),
        s_channel(t.pixels@[idx + 1] as int),
        s_channel(t.pixels@[idx + 2] as int),
    )
}

impl Texture {
    /// Wrap decoded RGBA bytes; the caller guarantees the dimensions
    /// match the byte count, as a decoder always does.
    pub fn new(width: u32, height: u32, pixels: Vec<u8>) -> (r: Texture)
        requires
            1 <= width <= TEX_DIM_MAX,
            1 <= height <= TEX_DIM_MAX,
            pixels@.len() == width * height * 4,
        ensures
            r.width == width,
            r.height == height,
            r.pixels == pixels,
            tex_wf(r),
    {
        Texture { width, height, pixels }
    }

    /// Nearest-texel lookup at fixed-point coordinates, wrapping the
    /// fractional part and flipping vertically.
    pub fn sample(&self, u: i64, v: i64) -> (r: Vector3)
        requires
            tex_wf(*self),
            i64::MIN < u,
            i64::MIN < v,
        ensures
            r@ == s_sample(*self, u as int, v as int),
            color_wf(r@),
    {
        let uf: i64 = fract_fixed(u);
        let vf: i64 = fract_fixed(v);
        let w = self.width as i64;
        let h = self.height as i64;
        let xf: i64 = {
            proof {
                assert(-0x4000 * (SCALE as int) <= (uf as int) * w <= 0x4000 * (SCALE as int))
                    by (nonlinear_arith)
                    requires
                        -SCALE < uf < SCALE,
                        1 <= w <= 0x4000,
                ;
                lemma_div_trunc_le(uf * w, SCALE as int, 0x4000);
                lemma_div_trunc_ge(uf * w, SCALE as int, -0x4000);
            }
            let p: i128 = (uf as i128) * (w as i128);
            div_trunc_i128(p, SCALE as i128) as i64
        };
        let x: i64 = if xf < 0 {
            0
        } else if xf > w - 1 {
            w - 1
        } else {
            xf
        };
        let yf: i64 = {
            proof {
                assert(-0x8000 * (SCALE as int) <= (SCALE - vf) as int * h <= 0x8000 * (
                SCALE as int)) by (nonlinear_arith)
                    requires
                        -SCALE < vf < SCALE,
                        1 <= h <= 0x4000,
                ;
                lemma_div_trunc_le((SCALE - vf) * h, SCALE as int, 0x8000);
                lemma_div_trunc_ge((SCALE - vf) * h, SCALE as int, -0x8000);
            }
            let p: i128 = ((SCALE - vf) as i128) * (h as i128);
            div_trunc_i128(p, SCALE as i128) as i64
        };
        let y: i64 = if yf < 0 {
            0
        } else if yf > h - 1 {
            h - 1
        } else {
            yf
        };
        proof {
            assert(0 <= y * w <= 0x4000 * 0x4000 && y * w + x < h * w && h * w == w * h)
                by (nonlinear_arith)
                requires
                    0 <= x <= w - 1,
                    0 <= y <= h - 1,
                    1 <= w <= 0x4000,
                    1 <= h <= 0x4000,
            ;
            assert((y * w + x) * 4 + 2 < w * h * 4);
        }
        let idx: usize = ((y * w + x) * 4) as usize;
        let pr = self.pixels[idx];
        let pg = self.pixels[idx + 1];
        let pb = self.pixels[idx + 2];
        Vector3 { x: channel_fixed(pr), y: channel_fixed(pg), z: channel_fixed(pb) }
    }
}

/// Truncation-signed remainder by SCALE.
fn fract_fixed(u: i64) -> (r: i64)
    requires
        i64::MIN < u,
    ensures
        r == s_fract(u as int),
        -SCALE < r < SCALE,
{
    if u >= 0 {
        u % SCALE
    } else {
        -((-u) % SCALE)
    }
}

/// One byte as a unit-interval fixed-point channel.
fn channel_fixed(b: u8) -> (r: i64)
    ensures
        r == s_channel(b as int),
        0 <= r <= SCALE,
{
    ((b as i64) * SCALE) / 255
}

} // verus!
