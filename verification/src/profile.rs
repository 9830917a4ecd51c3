//! Stream profiles, the quality ladder and negotiation against receiver caps.

use vstd::prelude::*;
use crate::text::{ascii_lower_seq, ascii_lowercase_chars, chars_eq};

verus! {

/// Named quality rung on the adaptation ladder.
#[derive(Debug, Clone, Copy, PartialEq, Eq, Structural)]
pub enum ProfileKind {
    Low,
    Med,
    High,
    Auto,
}

/// The profile kind named by `s`, compared without regard to ASCII case.
pub open spec fn profile_kind_named(s: Seq<char>) -> Option<ProfileKind> {
    let l = ascii_lower_seq(s);
    if l == seq!['l', 'o', 'w'] {
        Some(ProfileKind::Low)
    } else if l == seq!['m', 'e', 'd'] || l == seq!['m', 'e', 'd', 'i', 'u', 'm'] {
        Some(ProfileKind::Med)
    } else if l == seq!['h', 'i', 'g', 'h'] {
        Some(ProfileKind::High)
    } else if l == seq!['a', 'u', 't', 'o'] {
        Some(ProfileKind::Auto)
    } else {
        None
    }
}

impl ProfileKind {
    /// Parses `low`, `med`/`medium`, `high` or `auto`, in any ASCII case.
    pub fn parse(s: &str) -> (res: Option<Self>)
        ensures
            res == profile_kind_named(s@),
    {
        let l = ascii_lowercase_chars(s);
        let low = ['l', 'o', 'w'];
        let med = ['m', 'e', 'd'];
        let medium = ['m', 'e', 'd', 'i', 'u', 'm'];
        let high = ['h', 'i', 'g', 'h'];
        let auto = ['a', 'u', 't', 'o'];
        assert(low@ =~= seq!['l', 'o', 'w']);
        assert(med@ =~= seq!['m', 'e', 'd']);
        assert(medium@ =~= seq!['m', 'e', 'd', 'i', 'u', 'm']);
        assert(high@ =~= seq!['h', 'i', 'g', 'h']);
        assert(auto@ =~= seq!['a', 'u', 't', 'o']);
        if chars_eq(l.as_slice(), &low) {
            Some(ProfileKind::Low)
        } else if chars_eq(l.as_slice(), &med) || chars_eq(l.as_slice(), &medium) {
            Some(ProfileKind::Med)
        } else if chars_eq(l.as_slice(), &high) {
            Some(ProfileKind::High)
        } else if chars_eq(l.as_slice(), &auto) {
            Some(ProfileKind::Auto)
        } else {
            None
        }
    }
}

/// Width, height and frame rate for one cast session.
#[derive(Debug, Clone, Copy, PartialEq, Eq)]
pub struct StreamProfile {
    pub name: &'static str,
    pub width: u32,
    pub height: u32,
    pub fps: u32,
}

/// Receiver decode / display limits (from mDNS TXT or device defaults).
#[derive(Debug, Clone, Copy, PartialEq, Eq, Structural)]
pub struct ReceiverCapability {
    pub max_width: u32,
    pub max_height: u32,
    pub max_fps: u32,
}

/// `x` raised to at least two and then rounded down to an even number.
pub open spec fn even_at_least_two(x: int) -> int {
    let y = if x < 2 { 2 } else { x };
    y - y % 2
}

/// `a / b` rounded to the nearest integer, halves rounded up.
pub open spec fn round_div(a: int, b: int) -> int {
    (2 * a + b) / (2 * b)
}

/// Size of a `src_w` x `src_h` picture scaled to fit a `max_w` x `max_h`
/// box with its aspect ratio kept: unchanged when it already fits, otherwise
/// scaled by the smaller of the two ratios, rounded, and made even (at least 2).
/// A picture with a zero side becomes the box, capped at 1920 x 1080.
pub open spec fn fit_within_spec(src_w: int, src_h: int, max_w: int, max_h: int) -> (int, int) {
    if src_w == 0 || src_h == 0 {
        (if max_w < 1920 { max_w } else { 1920 }, if max_h < 1080 { max_h } else { 1080 })
    } else if src_w <= max_w && src_h <= max_h {
        (src_w, src_h)
    } else if max_w * src_h <= max_h * src_w {
        (even_at_least_two(max_w), even_at_least_two(round_div(src_h * max_w, src_w)))
    } else {
        (even_at_least_two(round_div(src_w * max_h, src_h)), even_at_least_two(max_h))
    }
}

/// The smaller of two numbers.
pub open spec fn min_u32(a: u32, b: u32) -> u32 {
    if a < b { a } else { b }
}

/// Dimensions (width, height, fps) of the display-aware high rung.
pub open spec fn high_dims(display_w: u32, display_h: u32, refresh_hz: u32) -> (u32, u32, u32) {
    let fit = fit_within_spec(display_w as int, display_h as int, 1920, 1080);
    (fit.0 as u32, fit.1 as u32, min_u32(refresh_hz, 60))
}

/// Name of the profile selected by `kind` (`auto` selects the high rung).
pub open spec fn kind_name(kind: ProfileKind) -> Seq<char> {
    match kind {
        ProfileKind::Low => "low"@,
        ProfileKind::Med => "med"@,
        _ => "high"@,
    }
}

/// Dimensions (width, height, fps) of the profile selected by `kind`.
pub open spec fn kind_dims(kind: ProfileKind, display_w: u32, display_h: u32, refresh_hz: u32) -> (
    u32,
    u32,
    u32,
) {
    match kind {
        ProfileKind::Low => (426, 240, 15),
        ProfileKind::Med => (1280, 720, 30),
        _ => high_dims(display_w, display_h, refresh_hz),
    }
}

/// Dimensions (width, height, fps) of a `w` x `h` @ `fps` profile capped by `recv`.
pub open spec fn capped_dims(w: u32, h: u32, fps: u32, recv: ReceiverCapability) -> (u32, u32, u32) {
    let fit = fit_within_spec(w as int, h as int, recv.max_width as int, recv.max_height as int);
    (fit.0 as u32, fit.1 as u32, min_u32(fps, recv.max_fps))
}

proof fn lemma_round_div_le(a: int, b: int, m: int)
    requires
        b > 0,
        0 <= a,
        a <= m * b,
    ensures
        0 <= round_div(a, b) <= m,
{
    assert(0 <= (2 * a + b) / (2 * b)) by (nonlinear_arith)
        requires
            b > 0,
            0 <= a,
    ;
    assert((2 * a + b) / (2 * b) <= m) by (nonlinear_arith)
        requires
            b > 0,
            0 <= a,
            a <= m * b,
    ;
}

fn even_floor_two(x: u64) -> (r: u64)
    requires
        x <= u32::MAX,
    ensures
        r as int == even_at_least_two(x as int),
        r <= u32::MAX,
{
    let y = if x < 2 { 2 } else { x };
    y - y % 2
}

/// Scales `src_w` x `src_h` to fit within `max_w` x `max_h`, keeping the
/// aspect ratio and even dimensions (see [`fit_within_spec`]).
pub fn fit_within(src_w: u32, src_h: u32, max_w: u32, max_h: u32) -> (res: (u32, u32))
    ensures
        (res.0 as int, res.1 as int) == fit_within_spec(src_w as int, src_h as int, max_w as int, max_h as int),
{
    if src_w == 0 || src_h == 0 {
        let w = if max_w < 1920 { max_w } else { 1920 };
        let h = if max_h < 1080 { max_h } else { 1080 };
        return (w, h);
    }
    if src_w <= max_w && src_h <= max_h {
        return (src_w, src_h);
    }
    let sw = src_w as u128;
    let sh = src_h as u128;
    let mw = max_w as u128;
    let mh = max_h as u128;
    assert(mw * sh <= 0xffff_ffff_ffff_ffff_ffff_ffff_ffff_ffffu128) by (nonlinear_arith)
        requires mw <= u32::MAX, sh <= u32::MAX;
    assert(mh * sw <= 0xffff_ffff_ffff_ffff_ffff_ffff_ffff_ffffu128) by (nonlinear_arith)
        requires mh <= u32::MAX, sw <= u32::MAX;
    if mw * sh <= mh * sw {
        let a = sh * mw;
        assert(a <= u64::MAX) by (nonlinear_arith)
            requires sh <= u32::MAX, mw <= u32::MAX, a == sh * mw;
        let r = (2 * a + sw) / (2 * sw);
        proof {
            lemma_round_div_le(a as int, sw as int, mh as int);
        }
        let w = even_floor_two(max_w as u64);
        let h = even_floor_two(r as u64);
        (w as u32, h as u32)
    } else {
        let a = sw * mh;
        assert(a <= u64::MAX) by (nonlinear_arith)
            requires sw <= u32::MAX, mh <= u32::MAX, a == sw * mh;
        let r = (2 * a + sh) / (2 * sh);
        proof {
            lemma_round_div_le(a as int, sh as int, mw as int);
        }
        let w = even_floor_two(r as u64);
        let h = even_floor_two(max_h as u64);
        (w as u32, h as u32)
    }
}

impl StreamProfile {
    /// (width, height, fps) of this profile.
    pub open spec fn dims(self) -> (u32, u32, u32) {
        (self.width, self.height, self.fps)
    }

    /// The lowest rung: 426 x 240 @ 15 fps.
    pub fn low() -> (res: Self)
        ensures
            res.dims() == (426u32, 240u32, 15u32),
            res.name@ == "low"@,
    {
        StreamProfile { name: "low", width: 426, height: 240, fps: 15 }
    }

    /// The middle rung: 1280 x 720 @ 30 fps.
    pub fn med() -> (res: Self)
        ensures
            res.dims() == (1280u32, 720u32, 30u32),
            res.name@ == "med"@,
    {
        StreamProfile { name: "med", width: 1280, height: 720, fps: 30 }
    }

    /// The display size fitted within 1920 x 1080, at the display refresh rate capped at 60.
    pub fn high_for_display(display_w: u32, display_h: u32, refresh_hz: u32) -> (res: Self)
        ensures
            res.dims() == high_dims(display_w, display_h, refresh_hz),
            res.name@ == "high"@,
    {
        let (width, height) = fit_within(display_w, display_h, 1920, 1080);
        let fps = if refresh_hz > 60 { 60 } else { refresh_hz };
        StreamProfile { name: "high", width, height, fps }
    }

    /// Best starting profile from the monitor size (the QoS ceiling before adaptation).
    pub fn auto_for_display(display_w: u32, display_h: u32, refresh_hz: u32) -> (res: Self)
        ensures
            res.dims() == high_dims(display_w, display_h, refresh_hz),
            res.name@ == "high"@,
    {
        Self::high_for_display(display_w, display_h, refresh_hz)
    }

    /// The profile selected by `kind` on the given display.
    pub fn from_kind(kind: ProfileKind, display_w: u32, display_h: u32, refresh_hz: u32) -> (res: Self)
        ensures
            res.dims() == kind_dims(kind, display_w, display_h, refresh_hz),
            res.name@ == kind_name(kind),
    {
        match kind {
            ProfileKind::Low => Self::low(),
            ProfileKind::Med => Self::med(),
            ProfileKind::High => Self::high_for_display(display_w, display_h, refresh_hz),
            ProfileKind::Auto => Self::auto_for_display(display_w, display_h, refresh_hz),
        }
    }

    /// High, med and low rungs, in that order (the high rung is display-aware).
    pub fn qos_ladder(display_w: u32, display_h: u32, refresh_hz: u32) -> (res: [Self; 3])
        ensures
            res@[0].dims() == high_dims(display_w, display_h, refresh_hz),
            res@[1].dims() == (1280u32, 720u32, 30u32),
            res@[2].dims() == (426u32, 240u32, 15u32),
            res@[0].name@ == "high"@,
            res@[1].name@ == "med"@,
            res@[2].name@ == "low"@,
    {
        [Self::high_for_display(display_w, display_h, refresh_hz), Self::med(), Self::low()]
    }

    /// Caps this profile by receiver decode limits: the size is fitted into the
    /// receiver box (aspect kept) and the frame rate is the smaller of the two.
    pub fn capped_for_receiver(self, recv: ReceiverCapability) -> (res: Self)
        ensures
            res.dims() == capped_dims(self.width, self.height, self.fps, recv),
            res.name@ == "negotiated"@,
    {
        let (width, height) = fit_within(self.width, self.height, recv.max_width, recv.max_height);
        let fps = if self.fps < recv.max_fps { self.fps } else { recv.max_fps };
        StreamProfile { name: "negotiated", width, height, fps }
    }
}

impl ReceiverCapability {
    /// Conservative caps for Raspberry Pi Zero W class boards over Wi-Fi.
    pub fn embedded_pi_zero_w() -> (res: Self)
        ensures
            res == (ReceiverCapability { max_width: 426, max_height: 240, max_fps: 15 }),
    {
        ReceiverCapability { max_width: 426, max_height: 240, max_fps: 15 }
    }

    /// Caps equal to a session profile.
    pub fn from_stream_profile(p: StreamProfile) -> (res: Self)
        ensures
            res == (ReceiverCapability { max_width: p.width, max_height: p.height, max_fps: p.fps }),
    {
        ReceiverCapability { max_width: p.width, max_height: p.height, max_fps: p.fps }
    }
}

/// Receiver caps implied by `recv --profile <kind>` on a display (session = profile size).
pub fn receiver_capability_for_profile(
    recv_kind: ProfileKind,
    display_w: u32,
    display_h: u32,
    refresh_hz: u32,
) -> (res: ReceiverCapability)
    ensures
        (res.max_width, res.max_height, res.max_fps) == kind_dims(recv_kind, display_w, display_h, refresh_hz),
{
    let session = StreamProfile::from_kind(recv_kind, display_w, display_h, refresh_hz);
    ReceiverCapability::from_stream_profile(session)
}

/// Negotiated `stream --profile <kind>` size against discovered receiver caps.
pub fn negotiate_for_receiver(
    stream_kind: ProfileKind,
    recv: ReceiverCapability,
    display_w: u32,
    display_h: u32,
    refresh_hz: u32,
) -> (res: StreamProfile)
    ensures
        ({
            let k = kind_dims(stream_kind, display_w, display_h, refresh_hz);
            res.dims() == capped_dims(k.0, k.1, k.2, recv)
        }),
{
    StreamProfile::from_kind(stream_kind, display_w, display_h, refresh_hz).capped_for_receiver(recv)
}

proof fn lemma_even_at_least_two_le(r: int, m: int)
    requires
        r <= m,
        m >= 2,
    ensures
        2 <= even_at_least_two(r) <= m,
        r >= 2 ==> even_at_least_two(r) <= r,
{
}

/// A fitted size never exceeds the box, as long as the box is at least 2 x 2.
pub proof fn lemma_fit_within_box(src_w: int, src_h: int, max_w: int, max_h: int)
    requires
        0 <= src_w,
        0 <= src_h,
        max_w >= 2,
        max_h >= 2,
    ensures
        0 < fit_within_spec(src_w, src_h, max_w, max_h).0 <= max_w,
        0 < fit_within_spec(src_w, src_h, max_w, max_h).1 <= max_h,
{
    if src_w == 0 || src_h == 0 {
    } else if src_w <= max_w && src_h <= max_h {
    } else if max_w * src_h <= max_h * src_w {
        assert(src_h * max_w <= max_h * src_w) by (nonlinear_arith)
            requires max_w * src_h <= max_h * src_w;
        assert(src_h * max_w >= 0) by (nonlinear_arith)
            requires src_h >= 0, max_w >= 0;
        lemma_round_div_le(src_h * max_w, src_w, max_h);
        lemma_even_at_least_two_le(max_w, max_w);
        lemma_even_at_least_two_le(round_div(src_h * max_w, src_w), max_h);
    } else {
        assert(src_w * max_h <= max_w * src_h) by (nonlinear_arith)
            requires !(max_w * src_h <= max_h * src_w);
        assert(src_w * max_h >= 0) by (nonlinear_arith)
            requires src_w >= 0, max_h >= 0;
        lemma_round_div_le(src_w * max_h, src_h, max_w);
        lemma_even_at_least_two_le(max_h, max_h);
        lemma_even_at_least_two_le(round_div(src_w * max_h, src_h), max_w);
    }
}

/// Negotiation never exceeds the receiver caps (for caps of at least 2 x 2).
pub proof fn lemma_capped_within_receiver_caps(w: u32, h: u32, fps: u32, recv: ReceiverCapability)
    requires
        recv.max_width >= 2,
        recv.max_height >= 2,
    ensures
        capped_dims(w, h, fps, recv).0 <= recv.max_width,
        capped_dims(w, h, fps, recv).1 <= recv.max_height,
        capped_dims(w, h, fps, recv).2 <= recv.max_fps,
        capped_dims(w, h, fps, recv).2 <= fps,
        capped_dims(w, h, fps, recv).0 > 0,
        capped_dims(w, h, fps, recv).1 > 0,
{
    lemma_fit_within_box(w as int, h as int, recv.max_width as int, recv.max_height as int);
}

/// Capping an already capped profile by the same receiver changes nothing.
pub proof fn lemma_capped_idempotent(w: u32, h: u32, fps: u32, recv: ReceiverCapability)
    requires
        recv.max_width >= 2,
        recv.max_height >= 2,
    ensures
        ({
            let c = capped_dims(w, h, fps, recv);
            capped_dims(c.0, c.1, c.2, recv) == c
        }),
{
    lemma_capped_within_receiver_caps(w, h, fps, recv);
}

/// Negotiation only ever scales a picture down: the result is no larger than
/// the sender profile in any dimension (for sides and caps of at least 2).
pub proof fn lemma_capped_not_above_sender(w: u32, h: u32, fps: u32, recv: ReceiverCapability)
    requires
        w >= 2,
        h >= 2,
        recv.max_width >= 2,
        recv.max_height >= 2,
    ensures
        capped_dims(w, h, fps, recv).0 <= w,
        capped_dims(w, h, fps, recv).1 <= h,
        capped_dims(w, h, fps, recv).2 <= fps,
{
    let sw = w as int;
    let sh = h as int;
    let mw = recv.max_width as int;
    let mh = recv.max_height as int;
    if sw <= mw && sh <= mh {
    } else if mw * sh <= mh * sw {
        assert(mw < sw) by (nonlinear_arith)
            requires mw * sh <= mh * sw, !(sw <= mw && sh <= mh), sw > 0, sh > 0;
        assert(0 <= sh * mw <= sh * sw) by (nonlinear_arith)
            requires mw < sw, sh > 0, mw >= 0;
        assert(sh * sw == sw * sh) by (nonlinear_arith);
        lemma_round_div_le(sh * mw, sw, sh);
        lemma_even_at_least_two_le(mw, mw);
        lemma_even_at_least_two_le(round_div(sh * mw, sw), sh);
    } else {
        assert(mh < sh) by (nonlinear_arith)
            requires !(mw * sh <= mh * sw), !(sw <= mw && sh <= mh), sw > 0, sh > 0;
        assert(0 <= sw * mh <= sw * sh) by (nonlinear_arith)
            requires mh < sh, sw > 0, mh >= 0;
        assert(sw * sh == sh * sw) by (nonlinear_arith);
        lemma_round_div_le(sw * mh, sh, sw);
        lemma_even_at_least_two_le(mh, mh);
        lemma_even_at_least_two_le(round_div(sw * mh, sh), sw);
    }
}

/// On a wide display at least 1280 pixels across, the ladder steps down in
/// width (high, then med, then low), and in frame rate when it refreshes at
/// 30 Hz or more.
pub proof fn lemma_ladder_descends(display_w: u32, display_h: u32, refresh_hz: u32)
    requires
        display_w >= 1280,
        (display_w as int) * 1080 >= (display_h as int) * 1920,
    ensures
        high_dims(display_w, display_h, refresh_hz).0 >= 1280,
        refresh_hz >= 30 ==> high_dims(display_w, display_h, refresh_hz).2 >= 30,
{
    let dw = display_w as int;
    let dh = display_h as int;
    if dw == 0 || dh == 0 {
    } else if dw <= 1920 && dh <= 1080 {
    } else {
        assert(1920 * dh <= 1080 * dw) by (nonlinear_arith)
            requires dw * 1080 >= dh * 1920;
    }
}

} // verus!
