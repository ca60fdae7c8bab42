//! The image: how many pixels it has, where each one lies in the buffer, and
//! how display levels become bytes.
//!
//! Pixels are stored row by row, the top row first and each row from left to
//! right. The byte buffer holds three bytes a pixel, red, green and blue, in
//! the same order.

use vstd::prelude::*;
use crate::color::Color;

verus! {

/// The bytes of one pixel: each colour channel rounded to the nearest
/// integer and held to `0..=255`. Alpha is dropped.
pub open spec fn spec_quantize(level: Color) -> (u8, u8, u8) {
    (level.r@.nearest_byte() as u8, level.g@.nearest_byte() as u8, level.b@.nearest_byte() as u8)
}

/// The byte buffer of an image: pixel `i` fills bytes `3 * i` to `3 * i + 2`.
pub open spec fn is_rgb8_of(bytes: Seq<u8>, levels: Seq<Color>) -> bool {
    &&& bytes.len() == 3 * levels.len()
    &&& forall|i: int|
        0 <= i < levels.len() ==> (bytes[3 * i], bytes[3 * i + 1], bytes[3 * i + 2]) == spec_quantize(
            #[trigger] levels[i],
        )
}

/// The number of pixels of an image, or `None` if it does not fit a `usize`.
pub fn pixel_count(width: u32, height: u32) -> (r: Option<usize>)
    ensures
        r matches Some(n) ==> n == width * height,
        r is None <==> width * height > usize::MAX,
{
    (width as usize).checked_mul(height as usize)
}

/// The place of pixel `(x, y)` in the buffer, with `x` counted from the left
/// and `y` from the top.
///
/// Distinct pixels have distinct places: `x` and `y` can be read back from
/// the index.
pub fn pixel_index(x: u32, y: u32, width: u32, height: u32) -> (r: usize)
    requires
        x < width,
        y < height,
        width * height <= usize::MAX,
    ensures
        r == y * width + x,
        r < width * height,
        r % (width as usize) == x,
        r / (width as usize) == y,
{
    proof {
        assert(y * width + x < width * height) by (nonlinear_arith)
            requires
                x < width,
                y < height,
        ;
        assert(0 <= y * width) by (nonlinear_arith);
        vstd::arithmetic::div_mod::lemma_fundamental_div_mod_converse(
            y * width + x,
            width as int,
            y as int,
            x as int,
        );
        assert(y * width == width * y) by (nonlinear_arith);
    }
    (y as usize) * (width as usize) + (x as usize)
}

/// The three bytes of a pixel whose channels hold display levels.
///
/// A display level is the channel's square root times `255.99`; the byte is
/// the level rounded to the nearest integer, never under 0 or over 255.
pub fn quantize(level: &Color) -> (r: (u8, u8, u8))
    ensures
        r == spec_quantize(*level),
{
    (level.r.round_to_byte(), level.g.round_to_byte(), level.b.round_to_byte())
}

/// The byte buffer of an image, from the display levels of its pixels.
pub fn convert_to_rgb8(levels: &Vec<Color>) -> (out: Vec<u8>)
    ensures
        is_rgb8_of(out@, levels@),
{
    let mut out: Vec<u8> = Vec::new();
    let mut i: usize = 0;
    while i < levels.len()
        invariant
            i <= levels.len(),
            is_rgb8_of(out@, levels@.take(i as int)),
        decreases levels.len() - i,
    {
        let ghost before = out@;
        let (r, g, b) = quantize(&levels[i]);
        out.push(r);
        out.push(g);
        out.push(b);
        proof {
            let done = levels@.take(i + 1);
            assert forall|k: int| 0 <= k < done.len() implies (out@[3 * k], out@[3 * k + 1], out@[3 * k + 2])
                == spec_quantize(#[trigger] done[k]) by {
                if k < i {
                    assert(levels@.take(i as int)[k] == done[k]);
                    assert(out@[3 * k] == before[3 * k]);
                    assert(out@[3 * k + 1] == before[3 * k + 1]);
                    assert(out@[3 * k + 2] == before[3 * k + 2]);
                }
            }
        }
        i = i + 1;
    }
    assert(levels@.take(i as int) =~= levels@);
    out
}

} // verus!
