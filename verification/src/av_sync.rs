//! Video/audio timing from RTCP Sender Report anchors: the skew between what
//! the two streams are showing, and when the receiver reports it. Times are
//! nanoseconds handed in by the caller (wall clock for anchors, a monotonic
//! clock for liveness).

use vstd::prelude::*;
use crate::protocol::rtp::{AUDIO_CLOCK_HZ, VIDEO_CLOCK_HZ};
use crate::rtcp::RtcpSrAnchor;

verus! {

/// Extrapolation beyond an RTCP anchor is refused past this many seconds.
pub const MAX_EXTRAPOLATE_SECS: u128 = 30;
/// Skews larger than this (5 s) are refused: usually stale or frozen timestamps.
pub const MAX_SKEW_NS: i128 = 5_000_000_000;
/// Audio counts as stopped when no RTP packet came for this long (500 ms).
pub const AUDIO_STALE_AFTER_NS: u128 = 500_000_000;
/// Report every this many video frames while audio is live.
pub const LOG_EVERY_VIDEO_FRAMES_LIVE: u64 = 15;
/// Report every this many video frames after audio stopped.
pub const LOG_EVERY_VIDEO_FRAMES_ENDED: u64 = 30;
/// Report every this many audio frames.
pub const LOG_EVERY_AUDIO_FRAMES: u64 = 15;

/// Wall-clock time of media timestamp `current_rtp`, extrapolated from an
/// anchor (`anchor_rtp` at `anchor_wall_ns`) at `clock_hz`; `None` when that
/// is more than 30 s of media past the anchor (timestamps wrap at 2^32).
pub open spec fn media_wall(anchor_wall_ns: u128, anchor_rtp: u32, current_rtp: u32, clock_hz: u32) -> Option<u128> {
    let delta: int = (current_rtp - anchor_rtp) % 0x1_0000_0000;
    if delta > clock_hz as int * 30 {
        None
    } else {
        let delta_ns: int = (delta * 1_000_000_000) / clock_hz as int;
        Some(if anchor_wall_ns + delta_ns > u128::MAX { u128::MAX } else { (anchor_wall_ns + delta_ns) as u128 })
    }
}

/// Wall-clock time of a media timestamp extrapolated from an RTCP anchor.
pub fn media_wall_ns(anchor_wall_ns: u128, anchor_rtp: u32, current_rtp: u32, clock_hz: u32) -> (r: Option<u128>)
    requires
        clock_hz > 0,
    ensures
        r == media_wall(anchor_wall_ns, anchor_rtp, current_rtp, clock_hz),
{
    let delta_ticks = current_rtp.wrapping_sub(anchor_rtp) as u128;
    let max_ticks = (clock_hz as u128) * MAX_EXTRAPOLATE_SECS;
    if delta_ticks > max_ticks {
        return None;
    }
    let delta_ns = (delta_ticks * 1_000_000_000) / clock_hz as u128;
    Some(anchor_wall_ns.saturating_add(delta_ns))
}

/// What the receiver reports after a frame.
#[derive(Debug, Clone, Copy, PartialEq, Eq, Structural)]
pub enum SkewReport {
    /// RTCP-based skew in nanoseconds (positive: video leads audio).
    Skew { from_video: bool, video_frames: u64, video_rtp_ts: u32, audio_rtp_ts: u32, skew_ns: i128 },
    /// Audio is live but no RTCP-based skew can be computed yet.
    Unavailable { from_video: bool, video_frames: u64, video_rtp_ts: u32, audio_rtp_ts: u32 },
    /// Audio stopped: skew from frame count and the last audio timestamp.
    AudioEnded { video_frames: u64, audio_rtp_ts: u32, skew_ns: i128 },
}

/// Plain-value state of the A/V sync tracker.
pub struct AvSyncView {
    pub video_frames: u64,
    pub audio_frames: u64,
    pub video_fps: u32,
    pub latest_video_rtp_ts: u32,
    pub latest_audio_rtp_ts: u32,
    pub video_anchor: Option<(u32, u128)>,
    pub audio_anchor: Option<(u32, u128)>,
    pub audio_last_seen_ns: Option<u128>,
}

/// Audio had a packet within the last 500 ms at monotonic time `now_ns`.
pub open spec fn audio_live(s: AvSyncView, now_ns: u128) -> bool {
    match s.audio_last_seen_ns {
        Some(t) => now_ns >= t && now_ns - t < AUDIO_STALE_AFTER_NS,
        None => false,
    }
}

/// RTCP-based skew in nanoseconds at `now_ns`: both anchors known, both
/// latest timestamps non-zero, audio live, both extrapolations within 30 s,
/// and the skew within 5 s.
pub open spec fn rtcp_skew(s: AvSyncView, now_ns: u128) -> Option<i128> {
    if !audio_live(s, now_ns) || s.video_anchor is None || s.audio_anchor is None
        || s.latest_video_rtp_ts == 0 || s.latest_audio_rtp_ts == 0 {
        None
    } else {
        let v = s.video_anchor->0;
        let a = s.audio_anchor->0;
        match (media_wall(v.1, v.0, s.latest_video_rtp_ts, VIDEO_CLOCK_HZ), media_wall(a.1, a.0, s.latest_audio_rtp_ts, AUDIO_CLOCK_HZ)) {
            (Some(vw), Some(aw)) => {
                let d: int = vw - aw;
                if d > MAX_SKEW_NS || d < -MAX_SKEW_NS { None } else { Some(d as i128) }
            },
            _ => None,
        }
    }
}

/// Skew once audio stopped: video time by frame count at the stream's frame
/// rate minus audio time by its last timestamp, in nanoseconds (each term
/// rounded down).
pub open spec fn ended_skew(s: AvSyncView) -> i128 {
    let fps: int = if s.video_fps < 1 { 1 } else { s.video_fps as int };
    ((s.video_frames as int * 1_000_000_000) / fps - (s.latest_audio_rtp_ts as int * 1_000_000_000) / AUDIO_CLOCK_HZ as int) as i128
}

/// The report made at `now_ns`: the RTCP skew when there is one, else
/// "unavailable" while audio is live, else (for a video-side report only) the
/// frame-count skew.
pub open spec fn skew_report(s: AvSyncView, from_video: bool, now_ns: u128) -> Option<SkewReport> {
    match rtcp_skew(s, now_ns) {
        Some(k) => Some(SkewReport::Skew { from_video, video_frames: s.video_frames, video_rtp_ts: s.latest_video_rtp_ts, audio_rtp_ts: s.latest_audio_rtp_ts, skew_ns: k }),
        None => if audio_live(s, now_ns) {
            Some(SkewReport::Unavailable { from_video, video_frames: s.video_frames, video_rtp_ts: s.latest_video_rtp_ts, audio_rtp_ts: s.latest_audio_rtp_ts })
        } else if from_video {
            Some(SkewReport::AudioEnded { video_frames: s.video_frames, audio_rtp_ts: s.latest_audio_rtp_ts, skew_ns: ended_skew(s) })
        } else {
            None
        },
    }
}

/// The report due after a video frame: every 15 frames while audio is live,
/// every 30 otherwise.
pub open spec fn video_report(s: AvSyncView, now_ns: u128) -> Option<SkewReport> {
    let interval: u64 = if audio_live(s, now_ns) { LOG_EVERY_VIDEO_FRAMES_LIVE } else { LOG_EVERY_VIDEO_FRAMES_ENDED };
    if s.video_frames == 0 || s.video_frames % interval != 0 {
        None
    } else {
        skew_report(s, true, now_ns)
    }
}

/// RTCP anchors and frame counters shared by the video and audio receive paths.
pub struct AvSyncState {
    video_frames: u64,
    audio_frames: u64,
    video_fps: u32,
    latest_video_rtp_ts: u32,
    latest_audio_rtp_ts: u32,
    video_anchor: Option<(u32, u128)>,
    audio_anchor: Option<(u32, u128)>,
    audio_last_seen_ns: Option<u128>,
}

impl View for AvSyncState {
    type V = AvSyncView;

    closed spec fn view(&self) -> AvSyncView {
        AvSyncView {
            video_frames: self.video_frames,
            audio_frames: self.audio_frames,
            video_fps: self.video_fps,
            latest_video_rtp_ts: self.latest_video_rtp_ts,
            latest_audio_rtp_ts: self.latest_audio_rtp_ts,
            video_anchor: self.video_anchor,
            audio_anchor: self.audio_anchor,
            audio_last_seen_ns: self.audio_last_seen_ns,
        }
    }
}

impl AvSyncState {
    /// A tracker for a video stream at `video_fps` (taken as at least 1).
    pub fn new(video_fps: u32) -> (r: Self)
        ensures
            r@ == (AvSyncView {
                video_frames: 0,
                audio_frames: 0,
                video_fps: if video_fps < 1 { 1 } else { video_fps },
                latest_video_rtp_ts: 0,
                latest_audio_rtp_ts: 0,
                video_anchor: None,
                audio_anchor: None,
                audio_last_seen_ns: None,
            }),
    {
        AvSyncState {
            video_frames: 0,
            audio_frames: 0,
            video_fps: if video_fps < 1 { 1 } else { video_fps },
            latest_video_rtp_ts: 0,
            latest_audio_rtp_ts: 0,
            video_anchor: None,
            audio_anchor: None,
            audio_last_seen_ns: None,
        }
    }

    fn audio_is_live(&self, now_ns: u128) -> (r: bool)
        ensures
            r == audio_live(self@, now_ns),
    {
        match self.audio_last_seen_ns {
            Some(t) => now_ns >= t && now_ns - t < AUDIO_STALE_AFTER_NS,
            None => false,
        }
    }

    /// RTCP-based skew in nanoseconds at monotonic time `now_ns`; positive
    /// when video leads audio (audio playout should be delayed).
    pub fn rtcp_skew_ns(&self, now_ns: u128) -> (r: Option<i128>)
        ensures
            r == rtcp_skew(self@, now_ns),
    {
        if !self.audio_is_live(now_ns) {
            return None;
        }
        let v = match self.video_anchor {
            Some(v) => v,
            None => return None,
        };
        let a = match self.audio_anchor {
            Some(a) => a,
            None => return None,
        };
        if self.latest_video_rtp_ts == 0 || self.latest_audio_rtp_ts == 0 {
            return None;
        }
        let vw = match media_wall_ns(v.1, v.0, self.latest_video_rtp_ts, VIDEO_CLOCK_HZ) {
            Some(w) => w,
            None => return None,
        };
        let aw = match media_wall_ns(a.1, a.0, self.latest_audio_rtp_ts, AUDIO_CLOCK_HZ) {
            Some(w) => w,
            None => return None,
        };
        if vw >= aw {
            let d = vw - aw;
            if d > MAX_SKEW_NS as u128 { None } else { Some(d as i128) }
        } else {
            let d = aw - vw;
            if d > MAX_SKEW_NS as u128 { None } else { Some(-(d as i128)) }
        }
    }

    fn report(&self, from_video: bool, now_ns: u128) -> (r: Option<SkewReport>)
        ensures
            r == skew_report(self@, from_video, now_ns),
    {
        match self.rtcp_skew_ns(now_ns) {
            Some(k) => Some(SkewReport::Skew {
                from_video,
                video_frames: self.video_frames,
                video_rtp_ts: self.latest_video_rtp_ts,
                audio_rtp_ts: self.latest_audio_rtp_ts,
                skew_ns: k,
            }),
            None => {
                if self.audio_is_live(now_ns) {
                    Some(SkewReport::Unavailable {
                        from_video,
                        video_frames: self.video_frames,
                        video_rtp_ts: self.latest_video_rtp_ts,
                        audio_rtp_ts: self.latest_audio_rtp_ts,
                    })
                } else if from_video {
                    let fps: u128 = if self.video_fps < 1 { 1 } else { self.video_fps as u128 };
                    let video_ns = (self.video_frames as u128 * 1_000_000_000) / fps;
                    let audio_ns = (self.latest_audio_rtp_ts as u128 * 1_000_000_000) / (AUDIO_CLOCK_HZ as u128);
                    let skew: i128 = video_ns as i128 - audio_ns as i128;
                    Some(SkewReport::AudioEnded {
                        video_frames: self.video_frames,
                        audio_rtp_ts: self.latest_audio_rtp_ts,
                        skew_ns: skew,
                    })
                } else {
                    None
                }
            },
        }
    }

    /// A video frame without a timestamp was shown.
    pub fn on_video_frame(&mut self, now_ns: u128) -> (r: Option<SkewReport>)
        ensures
            final(self)@ == (AvSyncView { video_frames: cap_frames(old(self)@.video_frames), ..old(self)@ }),
            r == video_report(final(self)@, now_ns),
    {
        self.on_video_rtp_ts(0, now_ns)
    }

    /// A video frame with RTP timestamp `rtp_ts` was shown (0 leaves the
    /// latest timestamp as it was); returns the report due, if any.
    pub fn on_video_rtp_ts(&mut self, rtp_ts: u32, now_ns: u128) -> (r: Option<SkewReport>)
        ensures
            final(self)@ == (AvSyncView {
                video_frames: cap_frames(old(self)@.video_frames),
                latest_video_rtp_ts: if rtp_ts != 0 { rtp_ts } else { old(self)@.latest_video_rtp_ts },
                ..old(self)@
            }),
            r == video_report(final(self)@, now_ns),
    {
        self.video_frames = self.video_frames.saturating_add(1);
        if rtp_ts != 0 {
            self.latest_video_rtp_ts = rtp_ts;
        }
        let live = self.audio_is_live(now_ns);
        let interval: u64 = if live { LOG_EVERY_VIDEO_FRAMES_LIVE } else { LOG_EVERY_VIDEO_FRAMES_ENDED };
        if self.video_frames == 0 || self.video_frames % interval != 0 {
            None
        } else {
            self.report(true, now_ns)
        }
    }

    /// Records the video stream's latest Sender Report anchor.
    pub fn on_video_rtcp_sr(&mut self, anchor: RtcpSrAnchor)
        ensures
            final(self)@ == (AvSyncView { video_anchor: Some((anchor.rtp_ts, anchor.wall_ns)), ..old(self)@ }),
    {
        self.video_anchor = Some((anchor.rtp_ts, anchor.wall_ns));
    }

    /// An audio frame with RTP timestamp `rtp_ts` arrived at monotonic time
    /// `now_ns`; every 15th audio frame makes a report.
    pub fn on_audio_rtp_ts(&mut self, rtp_ts: u32, now_ns: u128) -> (r: Option<SkewReport>)
        ensures
            final(self)@ == (AvSyncView {
                audio_frames: cap_frames(old(self)@.audio_frames),
                latest_audio_rtp_ts: rtp_ts,
                audio_last_seen_ns: Some(now_ns),
                ..old(self)@
            }),
            r == (if final(self)@.audio_frames % LOG_EVERY_AUDIO_FRAMES == 0 {
                skew_report(final(self)@, false, now_ns)
            } else {
                None
            }),
    {
        self.latest_audio_rtp_ts = rtp_ts;
        self.audio_last_seen_ns = Some(now_ns);
        self.audio_frames = self.audio_frames.saturating_add(1);
        if self.audio_frames % LOG_EVERY_AUDIO_FRAMES == 0 {
            self.report(false, now_ns)
        } else {
            None
        }
    }

    /// Records the audio stream's latest Sender Report anchor.
    pub fn on_audio_rtcp_sr(&mut self, anchor: RtcpSrAnchor)
        ensures
            final(self)@ == (AvSyncView { audio_anchor: Some((anchor.rtp_ts, anchor.wall_ns)), ..old(self)@ }),
    {
        self.audio_anchor = Some((anchor.rtp_ts, anchor.wall_ns));
    }
}

/// A frame counter after one more frame (saturating).
pub open spec fn cap_frames(n: u64) -> u64 {
    if n == u64::MAX { n } else { (n + 1) as u64 }
}

/// Two streams anchored at the same wall time, each advanced by the same
/// media duration from its anchor, show no skew.
pub proof fn lemma_equal_advance_no_skew(wall_ns: u128, secs: u32)
    requires
        1 <= secs <= 30,
        wall_ns + secs * 1_000_000_000 <= u128::MAX,
    ensures
        media_wall(wall_ns, 0, (secs * VIDEO_CLOCK_HZ) as u32, VIDEO_CLOCK_HZ) == media_wall(wall_ns, 0, (secs * AUDIO_CLOCK_HZ) as u32, AUDIO_CLOCK_HZ),
        media_wall(wall_ns, 0, (secs * VIDEO_CLOCK_HZ) as u32, VIDEO_CLOCK_HZ) == Some((wall_ns + secs * 1_000_000_000) as u128),
{
    let v: int = secs as int * 90_000;
    let a: int = secs as int * 48_000;
    assert(v < 0x1_0000_0000 && a < 0x1_0000_0000);
    assert((v * 1_000_000_000) / 90_000 == secs as int * 1_000_000_000) by (nonlinear_arith)
        requires v == secs as int * 90_000;
    assert((a * 1_000_000_000) / 48_000 == secs as int * 1_000_000_000) by (nonlinear_arith)
        requires a == secs as int * 48_000;
}

/// A timestamp `ticks` past `anchor_rtp` (modulo 2^32) is `ticks` of media
/// past the anchor.
proof fn lemma_wrapped_delta(anchor_rtp: u32, current_rtp: u32, ticks: int)
    requires
        0 <= ticks < 0x1_0000_0000,
        current_rtp == (anchor_rtp + ticks) % 0x1_0000_0000,
    ensures
        (current_rtp - anchor_rtp) % 0x1_0000_0000 == ticks,
{
    if anchor_rtp + ticks < 0x1_0000_0000 {
        assert(current_rtp == anchor_rtp + ticks);
    } else {
        assert(current_rtp == anchor_rtp + ticks - 0x1_0000_0000);
    }
}

/// The RTCP skew compares each stream with its own anchor: when the video
/// stream is `video_secs` of media (at 90 kHz) past its anchor (`video_rtp`
/// at `video_wall`), and the audio stream `audio_secs` (at 48 kHz) past its
/// anchor (`audio_rtp` at `audio_wall`), whatever the anchors' RTP
/// timestamps, the skew is the difference of the two wall times reached,
/// when it is within 5 s. Streams anchored at the same wall time and
/// advanced by the same media duration show a skew of zero.
pub proof fn lemma_skew_from_own_anchors(
    s: AvSyncView,
    now_ns: u128,
    video_rtp: u32,
    video_wall: u128,
    audio_rtp: u32,
    audio_wall: u128,
    video_secs: nat,
    audio_secs: nat,
)
    requires
        audio_live(s, now_ns),
        s.video_anchor == Some((video_rtp, video_wall)),
        s.audio_anchor == Some((audio_rtp, audio_wall)),
        video_secs <= 30,
        audio_secs <= 30,
        s.latest_video_rtp_ts == (video_rtp + video_secs * 90_000) % 0x1_0000_0000,
        s.latest_audio_rtp_ts == (audio_rtp + audio_secs * 48_000) % 0x1_0000_0000,
        s.latest_video_rtp_ts != 0,
        s.latest_audio_rtp_ts != 0,
        video_wall + video_secs * 1_000_000_000 <= u128::MAX,
        audio_wall + audio_secs * 1_000_000_000 <= u128::MAX,
    ensures
        ({
            let d: int = (video_wall + video_secs * 1_000_000_000) - (audio_wall + audio_secs * 1_000_000_000);
            rtcp_skew(s, now_ns) == if -5_000_000_000 <= d <= 5_000_000_000 { Some(d as i128) } else { None }
        }),
        video_wall == audio_wall && video_secs == audio_secs ==> rtcp_skew(s, now_ns) == Some(0i128),
{
    let vt: int = video_secs as int * 90_000;
    let at: int = audio_secs as int * 48_000;
    lemma_wrapped_delta(video_rtp, s.latest_video_rtp_ts, vt);
    lemma_wrapped_delta(audio_rtp, s.latest_audio_rtp_ts, at);
    assert((vt * 1_000_000_000) / 90_000 == video_secs * 1_000_000_000) by (nonlinear_arith)
        requires vt == video_secs * 90_000;
    assert((at * 1_000_000_000) / 48_000 == audio_secs * 1_000_000_000) by (nonlinear_arith)
        requires at == audio_secs * 48_000;
    assert(media_wall(video_wall, video_rtp, s.latest_video_rtp_ts, VIDEO_CLOCK_HZ) == Some(
        (video_wall + video_secs * 1_000_000_000) as u128,
    ));
    assert(media_wall(audio_wall, audio_rtp, s.latest_audio_rtp_ts, AUDIO_CLOCK_HZ) == Some(
        (audio_wall + audio_secs * 1_000_000_000) as u128,
    ));
}

} // verus!
