//! Receive-side frame handling around the H.264 decoder: making the decoder's
//! RGB24 output the requested size, and drawing frames into a window buffer.

use vstd::prelude::*;

verus! {

/// A decoded RGB24 frame.
pub struct RgbFrame {
    pub width: u32,
    pub height: u32,
    pub rgb24: Vec<u8>,
}

/// Common frame widths tried, in order, when a decoder output has an unexpected size.
pub open spec fn candidate_widths() -> Seq<u32> {
    seq![1920u32, 1680, 1600, 1440, 1366, 1280, 1024, 854, 800, 720, 640, 480, 426, 320]
}

/// `w` divides `px` pixels into between 1 and 4320 rows.
pub open spec fn fits_width(px: int, w: int) -> bool {
    w != 0 && px % w == 0 && 1 <= px / w <= 4320
}

/// The first candidate width from position `i` on that fits `px` pixels, with its height.
pub open spec fn infer_from(px: int, i: int) -> Option<(u32, u32)>
    decreases 14 - i,
{
    if i >= 14 || i < 0 {
        None
    } else {
        let w = candidate_widths()[i];
        if fits_width(px, w as int) {
            Some((w, (px / w as int) as u32))
        } else {
            infer_from(px, i + 1)
        }
    }
}

/// Dimensions of an RGB24 buffer of `len` bytes: the first common width that
/// divides it into 1 to 4320 rows, if `len` is a whole number of pixels.
pub open spec fn inferred_dims(len: int) -> Option<(u32, u32)> {
    if len % 3 != 0 {
        None
    } else {
        infer_from(len / 3, 0)
    }
}

/// Guesses the dimensions of an RGB24 buffer from its length.
pub fn infer_rgb24_dimensions(len: usize) -> (r: Option<(u32, u32)>)
    ensures
        r == inferred_dims(len as int),
{
    if len % 3 != 0 {
        return None;
    }
    let px: usize = len / 3;
    let widths: [u32; 14] = [1920, 1680, 1600, 1440, 1366, 1280, 1024, 854, 800, 720, 640, 480, 426, 320];
    assert(widths@ =~= candidate_widths());
    let mut i: usize = 0;
    while i < 14
        invariant
            i <= 14,
            widths@ == candidate_widths(),
            px == len / 3,
            len % 3 == 0,
            infer_from(px as int, 0) == infer_from(px as int, i as int),
        decreases 14 - i,
    {
        let w: usize = widths[i] as usize;
        assert(candidate_widths()[i as int] == w);
        if w != 0 && px % w == 0 {
            let h: usize = px / w;
            if 1 <= h && h <= 4320 {
                assert(fits_width(px as int, w as int));
                assert(infer_from(px as int, i as int) == Some((w as u32, h as u32)));
                assert(inferred_dims(len as int) == infer_from(px as int, 0));
                return Some((w as u32, h as u32));
            }
        }
        assert(!fits_width(px as int, w as int));
        assert(infer_from(px as int, i as int) == infer_from(px as int, i + 1));
        i += 1;
    }
    None
}

/// Byte `k` of an RGB24 frame scaled (nearest neighbour) to `dst_w` pixels per
/// row: source pixel (row `dy * src_h / dst_h`, column `dx * src_w / dst_w`);
/// black where that reaches past the source.
pub open spec fn rgb_scaled_byte(src: Seq<u8>, src_w: int, src_h: int, dst_w: int, dst_h: int, k: int) -> u8 {
    let p = k / 3;
    let dy = p / dst_w;
    let dx = p % dst_w;
    let si = ((dy * src_h / dst_h) * src_w + dx * src_w / dst_w) * 3;
    if si + 2 < src.len() {
        src[si + k % 3]
    } else {
        0
    }
}

/// `b` is `src` scaled to `dst_w` x `dst_h` by nearest neighbour.
pub open spec fn is_rgb_scaled(b: Seq<u8>, src: Seq<u8>, src_w: int, src_h: int, dst_w: int, dst_h: int) -> bool {
    &&& b.len() == dst_w * dst_h * 3
    &&& forall|k: int| 0 <= k < b.len() ==> #[trigger] b[k] == rgb_scaled_byte(src, src_w, src_h, dst_w, dst_h, k)
}

/// Scales an RGB24 frame to `dst_w` x `dst_h` by nearest neighbour.
pub fn scale_rgb24_nearest(src: &[u8], src_w: u32, src_h: u32, dst_w: u32, dst_h: u32) -> (out: Vec<u8>)
    requires
        dst_w as int * dst_h as int * 3 <= usize::MAX,
    ensures
        is_rgb_scaled(out@, src@, src_w as int, src_h as int, dst_w as int, dst_h as int),
{
    let dw: usize = dst_w as usize;
    let dh: usize = dst_h as usize;
    let n: usize = dw * dh;
    let len: usize = src.len();
    let mut out: Vec<u8> = Vec::new();
    let mut p: usize = 0;
    while p < n
        invariant
            n == dw * dh,
            n * 3 <= usize::MAX,
            dw == dst_w,
            dh == dst_h,
            len == src@.len(),
            p <= n,
            out@.len() == p * 3,
            forall|k: int| 0 <= k < out@.len() ==> #[trigger] out@[k] == rgb_scaled_byte(src@, src_w as int, src_h as int, dw as int, dh as int, k),
        decreases n - p,
    {
        assert(dw > 0 && dh > 0) by (nonlinear_arith)
            requires p < n, n == dw * dh;
        let dy: usize = p / dw;
        let dx: usize = p % dw;
        assert(dy < dh) by (nonlinear_arith)
            requires p < dw * dh, dy == p / dw, dw > 0;
        assert(dy * src_h <= 0xffff_ffff_ffff_ffff * 0xffff_ffff) by (nonlinear_arith)
            requires dy <= 0xffff_ffff_ffff_ffff, src_h <= 0xffff_ffff;
        assert(dx * src_w <= 0xffff_ffff_ffff_ffff * 0xffff_ffff) by (nonlinear_arith)
            requires dx <= 0xffff_ffff_ffff_ffff, src_w <= 0xffff_ffff;
        let sy: u128 = (dy as u128 * src_h as u128) / dh as u128;
        let sx: u128 = (dx as u128 * src_w as u128) / dw as u128;
        assert(sy <= src_h) by (nonlinear_arith)
            requires sy == (dy as int * src_h as int) / (dh as int), dy < dh, dh > 0, src_h >= 0;
        assert(sx <= src_w) by (nonlinear_arith)
            requires sx == (dx as int * src_w as int) / (dw as int), dx < dw, dw > 0, src_w >= 0;
        assert(sy * src_w <= 0xffff_ffff * 0xffff_ffff) by (nonlinear_arith)
            requires sy <= src_h, src_h <= 0xffff_ffff, src_w <= 0xffff_ffff;
        let si: u128 = (sy * src_w as u128 + sx) * 3;
        let ghost base = out@.len() as int;
        if si + 2 < len as u128 {
            let i: usize = si as usize;
            out.push(src[i]);
            out.push(src[i + 1]);
            out.push(src[i + 2]);
        } else {
            out.push(0);
            out.push(0);
            out.push(0);
        }
        assert forall|k: int| 0 <= k < out@.len() implies #[trigger] out@[k] == rgb_scaled_byte(src@, src_w as int, src_h as int, dw as int, dh as int, k) by {
            if k >= base {
                assert(k / 3 == p as int);
                assert(k % 3 == k - base);
            }
        }
        p += 1;
    }
    out
}

/// Why a decoded frame could not be used.
#[derive(Debug, Clone, Copy, PartialEq, Eq, Structural)]
pub enum DecodeError {
    /// The access unit was empty.
    EmptyAccessUnit,
    /// The decoder wrote fewer bytes than one frame of the requested size.
    ShortRead { got: usize, expected: usize },
    /// The decoder wrote more bytes than one frame, and no common size fits them.
    SizeMismatch { got: usize, expected: usize },
}

/// An access unit can be handed to the decoder: it is not empty.
pub fn check_access_unit(annex_b: &[u8]) -> (r: Result<(), DecodeError>)
    ensures
        annex_b@.len() == 0 <==> r == Err::<(), DecodeError>(DecodeError::EmptyAccessUnit),
        r is Err ==> annex_b@.len() == 0,
{
    if annex_b.len() == 0 {
        Err(DecodeError::EmptyAccessUnit)
    } else {
        Ok(())
    }
}

/// Makes the decoder's output a `hint_width` x `hint_height` RGB24 frame: too
/// short is an error; exactly one frame is kept; a longer output of a
/// recognisable size is scaled down to the requested size.
pub fn finish_decoded_frame(rgb: Vec<u8>, hint_width: u32, hint_height: u32) -> (r: Result<(Vec<u8>, u32, u32), DecodeError>)
    requires
        hint_width as int * hint_height as int * 3 <= usize::MAX,
    ensures
        ({
            let expected = hint_width as int * hint_height as int * 3;
            let len = rgb@.len() as int;
            if len < expected {
                r == Err::<(Vec<u8>, u32, u32), DecodeError>(DecodeError::ShortRead { got: len as usize, expected: expected as usize })
            } else if len == expected {
                r matches Ok(t) && t.0@ == rgb@ && t.1 == hint_width && t.2 == hint_height
            } else {
                match inferred_dims(len) {
                    None => r == Err::<(Vec<u8>, u32, u32), DecodeError>(DecodeError::SizeMismatch { got: len as usize, expected: expected as usize }),
                    Some(d) => r matches Ok(t) && t.1 == hint_width && t.2 == hint_height
                        && is_rgb_scaled(t.0@, rgb@, d.0 as int, d.1 as int, hint_width as int, hint_height as int),
                }
            }
        }),
{
    let expected: usize = (hint_width as usize) * (hint_height as usize) * 3;
    if rgb.len() < expected {
        return Err(DecodeError::ShortRead { got: rgb.len(), expected });
    }
    if rgb.len() == expected {
        return Ok((rgb, hint_width, hint_height));
    }
    match infer_rgb24_dimensions(rgb.len()) {
        None => Err(DecodeError::SizeMismatch { got: rgb.len(), expected }),
        Some((src_w, src_h)) => {
            let scaled = scale_rgb24_nearest(rgb.as_slice(), src_w, src_h, hint_width, hint_height);
            Ok((scaled, hint_width, hint_height))
        },
    }
}

/// A decoded frame is shown only when it holds exactly `width * height` pixels.
pub fn frame_has_expected_size(rgb_len: usize, width: u32, height: u32) -> (r: bool)
    ensures
        r == (rgb_len as int == width as int * height as int * 3),
{
    assert(width * height * 3 <= 0xffff_ffff * 0xffff_ffff * 3) by (nonlinear_arith)
        requires width <= 0xffff_ffff, height <= 0xffff_ffff;
    (rgb_len as u128) == (width as u128) * (height as u128) * 3
}

/// Window pixel `i` (0x00RRGGBB) after drawing an RGB24 frame of
/// `src_w` x `src_h` into a `dst_w`-wide window: the frame's pixel where the
/// window and the frame overlap, black elsewhere.
pub open spec fn blit_pixel(rgb: Seq<u8>, src_w: int, src_h: int, dst_w: int, dst_h: int, i: int) -> u32 {
    let y = i / dst_w;
    let x = i % dst_w;
    if y < dst_h && y < src_h && x < src_w {
        let si = (y * src_w + x) * 3;
        (rgb[si] as int * 65536 + rgb[si + 1] as int * 256 + rgb[si + 2] as int) as u32
    } else {
        0
    }
}

/// Draws an RGB24 frame into the top-left corner of a `dst_w` x `dst_h`
/// window buffer, clearing the rest; a frame shorter than `src_w * src_h`
/// pixels leaves the buffer as it was.
pub fn blit_rgb24(dst: &mut Vec<u32>, dst_w: usize, dst_h: usize, rgb: &[u8], src_w: usize, src_h: usize)
    requires
        old(dst)@.len() == dst_w * dst_h,
    ensures
        rgb@.len() < src_w as int * src_h as int * 3 ==> final(dst)@ == old(dst)@,
        rgb@.len() >= src_w as int * src_h as int * 3 ==> final(dst)@.len() == old(dst)@.len()
            && forall|i: int| 0 <= i < final(dst)@.len() ==> #[trigger] final(dst)@[i] == blit_pixel(rgb@, src_w as int, src_h as int, dst_w as int, dst_h as int, i),
{
    let len: usize = rgb.len();
    assert(src_w * src_h <= 0xffff_ffff_ffff_ffff * 0xffff_ffff_ffff_ffff) by (nonlinear_arith)
        requires src_w <= 0xffff_ffff_ffff_ffff, src_h <= 0xffff_ffff_ffff_ffff;
    let frame_px: u128 = (src_w as u128) * (src_h as u128);
    if (len as u128) / 3 < frame_px {
        return;
    }
    let n: usize = dst.len();
    let mut out: Vec<u32> = Vec::new();
    let mut i: usize = 0;
    while i < n
        invariant
            n == old(dst)@.len(),
            n == dst_w * dst_h,
            len == rgb@.len(),
            len >= src_w as int * src_h as int * 3,
            i <= n,
            out@.len() == i,
            forall|j: int| 0 <= j < i ==> #[trigger] out@[j] == blit_pixel(rgb@, src_w as int, src_h as int, dst_w as int, dst_h as int, j),
        decreases n - i,
    {
        assert(dst_w > 0) by (nonlinear_arith)
            requires i < n, n == dst_w * dst_h;
        let y: usize = i / dst_w;
        let x: usize = i % dst_w;
        if y < dst_h && y < src_h && x < src_w {
            assert((y * src_w + x) * 3 + 2 < src_w * src_h * 3) by (nonlinear_arith)
                requires y < src_h, x < src_w;
            let si: usize = (y * src_w + x) * 3;
            let px: u32 = rgb[si] as u32 * 65536 + rgb[si + 1] as u32 * 256 + rgb[si + 2] as u32;
            out.push(px);
        } else {
            out.push(0);
        }
        i += 1;
    }
    *dst = out;
}

} // verus!
