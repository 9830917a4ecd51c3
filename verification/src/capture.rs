//! Screen capture model: the synthetic capturer used where no display can be
//! grabbed, the captured-frame scaler (BGRA to RGB24), and the primary-display
//! description. Grabbing pixels from the OS happens in the application.

use vstd::prelude::*;
use crate::test_pattern::channel;

verus! {

/// Colour of synthetic frame `idx`: `(idx mod 256) * 3`, `(idx / 256 mod 256) * 7`,
/// `(idx / 65536 mod 256) * 11`, each modulo 256.
pub open spec fn stub_colour(idx: u64) -> (u8, u8, u8) {
    ((((idx % 256) * 3) % 256) as u8, ((((idx / 256) % 256) * 7) % 256) as u8, ((((idx / 65536) % 256) * 11) % 256) as u8)
}

/// A solid RGB24 frame of `npx` pixels of colour `col`.
pub open spec fn is_solid_frame(b: Seq<u8>, npx: int, col: (u8, u8, u8)) -> bool {
    &&& b.len() == npx * 3
    &&& forall|k: int| 0 <= k < b.len() ==> #[trigger] b[k] == channel(col, k % 3)
}

/// A solid RGB24 frame of `npx` pixels.
fn solid_frame(npx: usize, col: (u8, u8, u8)) -> (buf: Vec<u8>)
    requires
        npx * 3 <= usize::MAX,
    ensures
        is_solid_frame(buf@, npx as int, col),
{
    let mut buf: Vec<u8> = Vec::new();
    let mut p: usize = 0;
    while p < npx
        invariant
            p <= npx,
            npx * 3 <= usize::MAX,
            buf@.len() == p * 3,
            forall|k: int| 0 <= k < buf@.len() ==> #[trigger] buf@[k] == channel(col, k % 3),
        decreases npx - p,
    {
        let ghost base = buf@.len() as int;
        buf.push(col.0);
        buf.push(col.1);
        buf.push(col.2);
        assert forall|k: int| 0 <= k < buf@.len() implies #[trigger] buf@[k] == channel(col, k % 3) by {
            if k >= base {
                assert(k % 3 == k - base);
            }
        }
        p += 1;
    }
    buf
}

/// Colour of synthetic frame `idx`.
fn stub_colour_of(idx: u64) -> (r: (u8, u8, u8))
    ensures
        r == stub_colour(idx),
{
    ((((idx % 256) * 3) % 256) as u8, ((((idx / 256) % 256) * 7) % 256) as u8, ((((idx / 65536) % 256) * 11) % 256) as u8)
}

/// Synthetic capture: frame `frame_index` of `width` x `height` pixels (RGB24),
/// a solid colour that changes from frame to frame. It never fails.
pub fn capture_frame(width: u32, height: u32, frame_index: u64) -> (r: Result<Vec<u8>, CaptureError>)
    requires
        width as int * height as int * 3 <= u32::MAX,
    ensures
        r matches Ok(buf) && is_solid_frame(buf@, width as int * height as int, stub_colour(frame_index)),
{
    let npx: usize = (width * height) as usize;
    Ok(solid_frame(npx, stub_colour_of(frame_index)))
}

/// Plain-value state of the synthetic capturer: output size and next frame index.
pub type StubView = (u32, u32, u64);

/// Synthetic capturer: a solid colour per frame, changing with the frame index.
pub struct StubCapturer {
    width: u32,
    height: u32,
    frame_index: u64,
}

impl View for StubCapturer {
    type V = StubView;

    closed spec fn view(&self) -> StubView {
        (self.width, self.height, self.frame_index)
    }
}

impl StubCapturer {
    /// A capturer of `width` x `height` frames starting at frame 0.
    pub fn new(width: u32, height: u32) -> (r: Self)
        ensures
            r@ == (width, height, 0u64),
    {
        StubCapturer { width, height, frame_index: 0 }
    }

    /// Changes the output size; the frame index goes on.
    pub fn set_output_size(&mut self, width: u32, height: u32)
        ensures
            final(self)@ == (width, height, old(self)@.2),
    {
        self.width = width;
        self.height = height;
    }

    /// The next synthetic frame; the frame index advances (wrapping). It never fails.
    pub fn capture_frame(&mut self) -> (r: Result<Vec<u8>, CaptureError>)
        requires
            old(self)@.0 as int * old(self)@.1 as int * 3 <= u32::MAX,
        ensures
            r matches Ok(buf) && is_solid_frame(buf@, old(self)@.0 as int * old(self)@.1 as int, stub_colour(old(self)@.2)),
            final(self)@ == (old(self)@.0, old(self)@.1, (if old(self)@.2 == u64::MAX { 0 } else { old(self)@.2 + 1 }) as u64),
    {
        let idx = self.frame_index;
        self.frame_index = if idx == u64::MAX { 0 } else { idx + 1 };
        capture_frame(self.width, self.height, idx)
    }
}

/// Byte `k` of a BGRA frame scaled (nearest neighbour) to `dst_w` pixels per
/// row, as RGB24: source row `dy * src_h / dst_h`, column `dx * src_w / dst_w`,
/// rows `stride` bytes apart; a pixel that would reach past the source stays black.
pub open spec fn bgra_scaled_byte(src: Seq<u8>, src_w: int, src_h: int, stride: int, dst_w: int, dst_h: int, k: int) -> u8 {
    let p = k / 3;
    let dy = p / dst_w;
    let dx = p % dst_w;
    let si = (dy * src_h / dst_h) * stride + (dx * src_w / dst_w) * 4;
    if si + 3 < src.len() {
        src[si + 2 - k % 3]
    } else {
        0
    }
}

/// Scales a BGRA frame (`src_w` x `src_h`, rows `src_stride` bytes apart) to
/// `dst_w` x `dst_h` RGB24 by nearest neighbour.
pub fn scale_bgra_to_rgb24(src: &[u8], src_w: usize, src_h: usize, src_stride: usize, dst_w: u32, dst_h: u32) -> (out: Vec<u8>)
    requires
        dst_w as int * dst_h as int * 3 <= usize::MAX,
    ensures
        out@.len() == dst_w as int * dst_h as int * 3,
        forall|k: int| 0 <= k < out@.len() ==> #[trigger] out@[k] == bgra_scaled_byte(src@, src_w as int, src_h as int, src_stride as int, dst_w as int, dst_h as int, k),
{
    let dw: usize = dst_w as usize;
    let dh: usize = dst_h as usize;
    let n: usize = dw * dh;
    let len: usize = src.len();
    let mut out: Vec<u8> = Vec::new();
    let mut p: usize = 0;
    while p < n
        invariant
            n == dw * dh,
            n * 3 <= usize::MAX,
            dw == dst_w,
            dh == dst_h,
            len == src@.len(),
            p <= n,
            out@.len() == p * 3,
            forall|k: int| 0 <= k < out@.len() ==> #[trigger] out@[k] == bgra_scaled_byte(src@, src_w as int, src_h as int, src_stride as int, dw as int, dh as int, k),
        decreases n - p,
    {
        assert(dw > 0 && dh > 0) by (nonlinear_arith)
            requires p < n, n == dw * dh;
        let dy: usize = p / dw;
        let dx: usize = p % dw;
        assert(dy < dh) by (nonlinear_arith)
            requires p < dw * dh, dy == p / dw, dw > 0;
        assert(dy * src_h <= 0xffff_ffff_ffff_ffff * 0xffff_ffff_ffff_ffff) by (nonlinear_arith)
            requires dy <= 0xffff_ffff_ffff_ffff, src_h <= 0xffff_ffff_ffff_ffff;
        assert(dx * src_w <= 0xffff_ffff_ffff_ffff * 0xffff_ffff_ffff_ffff) by (nonlinear_arith)
            requires dx <= 0xffff_ffff_ffff_ffff, src_w <= 0xffff_ffff_ffff_ffff;
        let sy: u128 = (dy as u128 * src_h as u128) / dh as u128;
        let sx: u128 = (dx as u128 * src_w as u128) / dw as u128;
        assert(sy <= src_h) by (nonlinear_arith)
            requires sy == (dy as int * src_h as int) / (dh as int), dy < dh, dh > 0, src_h >= 0;
        assert(sx <= src_w) by (nonlinear_arith)
            requires sx == (dx as int * src_w as int) / (dw as int), dx < dw, dw > 0, src_w >= 0;
        assert(sy * src_stride <= 0xffff_ffff_ffff_ffff * 0xffff_ffff_ffff_ffff) by (nonlinear_arith)
            requires sy <= src_h, src_h <= 0xffff_ffff_ffff_ffff, src_stride <= 0xffff_ffff_ffff_ffff;
        let row: u128 = sy * src_stride as u128;
        let ghost base = out@.len() as int;
        if row >= len as u128 {
            out.push(0);
            out.push(0);
            out.push(0);
        } else {
            let si: u128 = row + sx * 4;
            if si + 3 < len as u128 {
                let i: usize = si as usize;
                out.push(src[i + 2]);
                out.push(src[i + 1]);
                out.push(src[i]);
            } else {
                out.push(0);
                out.push(0);
                out.push(0);
            }
        }
        assert forall|k: int| 0 <= k < out@.len() implies #[trigger] out@[k] == bgra_scaled_byte(src@, src_w as int, src_h as int, src_stride as int, dw as int, dh as int, k) by {
            if k >= base {
                assert(k / 3 == p as int);
                assert(k % 3 == k - base);
            }
        }
        p += 1;
    }
    out
}

/// Why a capture could not be opened or resized.
#[derive(Debug, Clone, Copy, PartialEq, Eq, Structural)]
pub enum CaptureError {
    /// Width or height zero.
    ZeroSize,
    /// The display reported a zero size.
    InvalidDisplaySize,
}

/// Where captured frames come from.
pub enum CaptureSource {
    /// The synthetic pattern.
    Stub(StubCapturer),
    /// A display of the given native size, grabbed by the application.
    Native { native_width: u32, native_height: u32 },
}

/// Screen capture scaled to an output size (RGB24).
pub struct ScreenCapture {
    source: CaptureSource,
    width: u32,
    height: u32,
}

impl ScreenCapture {
    /// Well-formedness: a synthetic source produces frames of the output size.
    pub closed spec fn wf(&self) -> bool {
        match self.source {
            CaptureSource::Stub(s) => s@.0 == self.width && s@.1 == self.height,
            CaptureSource::Native { native_width, native_height } => native_width > 0 && native_height > 0,
        }
    }

    /// Output width.
    pub closed spec fn out_width(&self) -> u32 {
        self.width
    }

    /// Output height.
    pub closed spec fn out_height(&self) -> u32 {
        self.height
    }

    /// Native display size, when frames come from a display.
    pub closed spec fn native_size(&self) -> Option<(u32, u32)> {
        match self.source {
            CaptureSource::Native { native_width, native_height } => Some((native_width, native_height)),
            CaptureSource::Stub(_) => None,
        }
    }

    /// Capture from the synthetic pattern at `width` x `height`.
    pub fn open_stub(width: u32, height: u32) -> (r: Self)
        requires
            width > 0 && height > 0,
        ensures
            r.wf(),
            r.out_width() == width && r.out_height() == height && r.native_size() is None,
    {
        ScreenCapture { source: CaptureSource::Stub(StubCapturer::new(width, height)), width, height }
    }

    /// Capture from a display of `native_width` x `native_height`, scaled to
    /// `width` x `height`; refused when the display reports a zero size.
    pub fn open_native(width: u32, height: u32, native_width: u32, native_height: u32) -> (r: Result<Self, CaptureError>)
        requires
            width > 0 && height > 0,
        ensures
            r matches Ok(c) ==> c.wf(),
            (native_width == 0 || native_height == 0) ==> r == Err::<Self, CaptureError>(CaptureError::InvalidDisplaySize),
            !(native_width == 0 || native_height == 0) ==> (r matches Ok(c) && c.out_width() == width && c.out_height() == height
                && c.native_size() == Some((native_width, native_height))),
    {
        if native_width == 0 || native_height == 0 {
            return Err(CaptureError::InvalidDisplaySize);
        }
        Ok(ScreenCapture { source: CaptureSource::Native { native_width, native_height }, width, height })
    }

    /// Output width.
    pub fn width(&self) -> (r: u32)
        ensures
            r == self.out_width(),
    {
        self.width
    }

    /// Output height.
    pub fn height(&self) -> (r: u32)
        ensures
            r == self.out_height(),
    {
        self.height
    }

    /// Native display size, when frames come from a display.
    pub fn native(&self) -> (r: Option<(u32, u32)>)
        ensures
            r == self.native_size(),
    {
        match &self.source {
            CaptureSource::Native { native_width, native_height } => Some((*native_width, *native_height)),
            CaptureSource::Stub(_) => None,
        }
    }

    /// Resizes the output without reopening the source; a zero size is refused.
    pub fn reconfigure(&mut self, width: u32, height: u32) -> (r: Result<(), CaptureError>)
        requires
            old(self).wf(),
        ensures
            final(self).wf(),
            (width == 0 || height == 0) ==> r == Err::<(), CaptureError>(CaptureError::ZeroSize)
                && final(self).out_width() == old(self).out_width() && final(self).out_height() == old(self).out_height(),
            !(width == 0 || height == 0) ==> r is Ok && final(self).out_width() == width && final(self).out_height() == height,
            final(self).native_size() == old(self).native_size(),
    {
        if width == 0 || height == 0 {
            return Err(CaptureError::ZeroSize);
        }
        match &mut self.source {
            CaptureSource::Stub(s) => s.set_output_size(width, height),
            CaptureSource::Native { .. } => {},
        }
        self.width = width;
        self.height = height;
        Ok(())
    }

    /// The next synthetic frame (`None` when frames come from a display).
    pub fn capture_stub_frame(&mut self) -> (r: Option<Vec<u8>>)
        requires
            old(self).wf(),
            old(self).out_width() as int * old(self).out_height() as int * 3 <= u32::MAX,
        ensures
            final(self).wf(),
            old(self).native_size() is None <==> r is Some,
            r matches Some(buf) ==> buf@.len() == old(self).out_width() as int * old(self).out_height() as int * 3,
            final(self).out_width() == old(self).out_width() && final(self).out_height() == old(self).out_height(),
            final(self).native_size() == old(self).native_size(),
    {
        match &mut self.source {
            CaptureSource::Stub(s) => match s.capture_frame() {
                Ok(buf) => Some(buf),
                Err(_) => None,
            },
            CaptureSource::Native { .. } => None,
        }
    }

    /// An RGB24 output frame from one grabbed BGRA display frame (rows taken
    /// as the frame's length over the native height apart).
    pub fn frame_from_bgra(&self, bgra: &[u8]) -> (out: Vec<u8>)
        requires
            self.wf(),
            self.native_size() is Some,
            self.out_width() as int * self.out_height() as int * 3 <= usize::MAX,
        ensures
            ({
                let (nw, nh) = self.native_size()->0;
                &&& out@.len() == self.out_width() as int * self.out_height() as int * 3
                &&& forall|k: int| 0 <= k < out@.len() ==> #[trigger] out@[k] == bgra_scaled_byte(bgra@, nw as int, nh as int, (bgra@.len() as int) / (nh as int), self.out_width() as int, self.out_height() as int, k)
            }),
    {
        let (nw, nh) = match &self.source {
            CaptureSource::Native { native_width, native_height } => (*native_width, *native_height),
            CaptureSource::Stub(_) => (1u32, 1u32),
        };
        let stride: usize = if nh > 0 { bgra.len() / (nh as usize) } else { 0 };
        scale_bgra_to_rgb24(bgra, nw as usize, nh as usize, stride, self.width, self.height)
    }
}

/// Primary monitor geometry (refresh rate 60 Hz when unknown).
#[derive(Debug, Clone, Copy, PartialEq, Eq, Structural)]
pub struct PrimaryDisplay {
    pub width: u32,
    pub height: u32,
    pub refresh_hz: u32,
}

impl PrimaryDisplay {
    /// The 1920x1080 at 60 Hz stand-in used where no display can be queried.
    pub fn stub() -> (r: Self)
        ensures
            r == (PrimaryDisplay { width: 1920, height: 1080, refresh_hz: 60 }),
    {
        PrimaryDisplay { width: 1920, height: 1080, refresh_hz: 60 }
    }

    /// The primary display of a reported size (refresh rate 60 Hz); a zero size is refused.
    pub fn from_size(width: u32, height: u32) -> (r: Result<Self, CaptureError>)
        ensures
            (width == 0 || height == 0) ==> r == Err::<Self, CaptureError>(CaptureError::InvalidDisplaySize),
            !(width == 0 || height == 0) ==> r == Ok::<Self, CaptureError>(PrimaryDisplay { width, height, refresh_hz: 60 }),
    {
        if width == 0 || height == 0 {
            Err(CaptureError::InvalidDisplaySize)
        } else {
            Ok(PrimaryDisplay { width, height, refresh_hz: 60 })
        }
    }
}

} // verus!
