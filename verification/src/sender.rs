//! Send side of the video stream: RTP sequencing and timestamps, Sender
//! Reports, the stats window fed to the QoS controller, and the pacing
//! decisions of the streaming loop. The socket and the encoder live in the
//! application, which sends the datagrams built here.

use vstd::prelude::*;
use crate::h264_rtp::{annex_b_stream, h264_payloads, nalus_to_annex_b, packetize_annex_b, MAX_RTP_PAYLOAD};
use crate::nal::byte_views;
use crate::profile::StreamProfile;
use crate::qos::{QosAction, StreamMetricsSample};
use crate::rtcp::{build_rtcp_sr, ntp_of_wall, rtcp_sr_bytes, wall_to_ntp};
use crate::rtp_packet::{rtp_packet, rtp_packet_bytes, H264_PAYLOAD_TYPE};

verus! {

/// RTP clock rate of the video stream.
pub const RTP_CLOCK_RATE: u32 = 90_000;

/// Frames per stats window.
pub const STATS_WINDOW_FRAMES: u64 = 30;

/// Nominal frame rate of the synthetic test sender.
pub const SYNTHETIC_FPS: u32 = 30;

/// `x * 90_000`, saturating at `u128::MAX`.
pub open spec fn ticks_product(x: u128) -> u128 {
    if x * 90_000 > u128::MAX {
        u128::MAX
    } else {
        (x * 90_000) as u128
    }
}

/// 90 kHz RTP timestamp of a presentation time in nanoseconds, taken modulo 2^32.
pub open spec fn pts_rtp_ts(pts_ns: u128) -> u32 {
    (ticks_product(pts_ns) / 1_000_000_000) as u32
}

/// The sequence number `n` steps after `s`, wrapping at 2^16.
pub open spec fn seq_after(s: u16, n: int) -> u16 {
    ((s + n) % 65536) as u16
}

/// Payloads of one frame: none for an empty stream, else what the payloader
/// cuts the frame's Annex-B stream into at the RTP payload limit.
pub open spec fn frame_payloads(nalus: Seq<Seq<u8>>) -> Seq<Seq<u8>> {
    let annex_b = annex_b_stream(nalus);
    if annex_b.len() == 0 {
        Seq::empty()
    } else {
        h264_payloads(MAX_RTP_PAYLOAD, annex_b)
    }
}

/// RTP sender state: the last sequence number used, the SSRC and the payload type.
pub struct Sender {
    seq: u16,
    ssrc: u32,
    payload_type: u8,
}

impl View for Sender {
    type V = (u16, u32, u8);

    closed spec fn view(&self) -> (u16, u32, u8) {
        (self.seq, self.ssrc, self.payload_type)
    }
}

impl Sender {
    /// A sender for `ssrc` that has sent nothing (sequence 0, payload type 96).
    pub fn new(ssrc: u32) -> (r: Self)
        ensures
            r@ == (0u16, ssrc, H264_PAYLOAD_TYPE),
    {
        Sender { seq: 0, ssrc, payload_type: H264_PAYLOAD_TYPE }
    }

    /// The SSRC of this sender.
    pub fn ssrc(&self) -> (r: u32)
        ensures
            r == self@.1,
    {
        self.ssrc
    }

    /// Maps an encoder presentation time (nanoseconds) to a 90 kHz RTP timestamp.
    pub fn pts_ns_to_rtp(pts_ns: u128) -> (r: u32)
        ensures
            r == pts_rtp_ts(pts_ns),
    {
        let ticks: u128 = if pts_ns > u128::MAX / 90_000 { u128::MAX } else { pts_ns * 90_000 };
        (ticks / 1_000_000_000) as u32
    }

    /// The next packet of a sequence: one step after the last sequence number.
    fn next_packet(&mut self, payload: &[u8], ts: u32, marker: bool) -> (out: Vec<u8>)
        requires
            old(self)@.2 < 128,
        ensures
            final(self)@ == (seq_after(old(self)@.0, 1), old(self)@.1, old(self)@.2),
            out@ == rtp_packet_bytes(marker, old(self)@.2, seq_after(old(self)@.0, 1), ts, old(self)@.1, payload@),
    {
        self.seq = if self.seq == 0xffff { 0 } else { self.seq + 1 };
        rtp_packet(marker, self.payload_type, self.seq, ts, self.ssrc, payload)
    }

    /// RTP datagrams for one encoded frame: its NAL units as one Annex-B
    /// stream, cut into payloads of at most 1200 bytes, each with the frame's
    /// timestamp and the next sequence number; the marker bit is set on the
    /// last one only. An empty frame gives no datagram.
    pub fn rtp_datagrams_for_nalus(&mut self, nalus: &[Vec<u8>], frame_rtp_ts: u32) -> (out: Vec<Vec<u8>>)
        requires
            old(self)@.2 < 128,
        ensures
            ({
                let payloads = frame_payloads(byte_views(nalus@));
                &&& out@.len() == payloads.len()
                &&& forall|i: int| 0 <= i < out@.len() ==> #[trigger] out@[i]@ == rtp_packet_bytes(
                    i == out@.len() - 1,
                    old(self)@.2,
                    seq_after(old(self)@.0, i + 1),
                    frame_rtp_ts,
                    old(self)@.1,
                    payloads[i],
                )
                &&& final(self)@ == (seq_after(old(self)@.0, payloads.len() as int), old(self)@.1, old(self)@.2)
            }),
    {
        let annex_b = nalus_to_annex_b(nalus);
        let mut out: Vec<Vec<u8>> = Vec::new();
        if annex_b.len() == 0 {
            assert(seq_after(self@.0, 0) == self@.0);
            return out;
        }
        let payloads = packetize_annex_b(annex_b.as_slice(), MAX_RTP_PAYLOAD);
        let ghost pv = byte_views(payloads@);
        let ghost s0 = self@;
        let n = payloads.len();
        let mut i: usize = 0;
        while i < n
            invariant
                n == payloads@.len(),
                pv == byte_views(payloads@),
                i <= n,
                s0.2 < 128,
                out@.len() == i,
                self@ == (seq_after(s0.0, i as int), s0.1, s0.2),
                forall|k: int| 0 <= k < i ==> #[trigger] out@[k]@ == rtp_packet_bytes(
                    k == n - 1,
                    s0.2,
                    seq_after(s0.0, k + 1),
                    frame_rtp_ts,
                    s0.1,
                    pv[k],
                ),
            decreases n - i,
        {
            let ghost before = self@;
            let pkt = self.next_packet(payloads[i].as_slice(), frame_rtp_ts, i + 1 == n);
            assert(seq_after(before.0, 1) == seq_after(s0.0, i + 1)) by {
                assert(before.0 == seq_after(s0.0, i as int));
            }
            out.push(pkt);
            i += 1;
        }
        out
    }

    /// The Sender Report for the frame with timestamp `frame_rtp_ts`, stamped
    /// with the wall-clock time `now_ns` (Unix nanoseconds).
    pub fn rtcp_sr_datagram(&self, frame_rtp_ts: u32, now_ns: u128) -> (out: [u8; 28])
        ensures
            out@ == rtcp_sr_bytes(self@.1, frame_rtp_ts, ntp_of_wall(now_ns).0, ntp_of_wall(now_ns).1),
    {
        let (ntp_secs, ntp_frac) = wall_to_ntp(now_ns);
        build_rtcp_sr(self.ssrc, frame_rtp_ts, ntp_secs, ntp_frac)
    }

    /// The next packet of the synthetic test stream: four fixed payload bytes,
    /// no marker.
    pub fn synthetic_datagram(&mut self, ts: u32) -> (out: Vec<u8>)
        requires
            old(self)@.2 < 128,
        ensures
            final(self)@ == (seq_after(old(self)@.0, 1), old(self)@.1, old(self)@.2),
            out@ == rtp_packet_bytes(false, old(self)@.2, seq_after(old(self)@.0, 1), ts, old(self)@.1, seq![0u8, 1u8, 2u8, 3u8]),
    {
        let payload: [u8; 4] = [0, 1, 2, 3];
        assert(payload@ =~= seq![0u8, 1u8, 2u8, 3u8]);
        self.next_packet(&payload, ts, false)
    }
}

/// First timestamp of the synthetic stream, from the wall clock in milliseconds.
pub fn synthetic_initial_ts(now_ms: u128) -> (r: u32)
    requires
        now_ms * 90_000 <= u128::MAX,
    ensures
        r == ((now_ms * 90_000) / 1000) as u32,
{
    ((now_ms * 90_000) / 1000) as u32
}

/// Timestamp of the next synthetic packet: advanced by the measured interval
/// in 90 kHz ticks, or by one nominal frame (3000 ticks) when that rounds to 0.
pub fn advance_synthetic_ts(ts: u32, elapsed_ns: u128) -> (r: u32)
    ensures
        ({
            let delta = (ticks_product(elapsed_ns) / 1_000_000_000) as u32;
            r == (if delta == 0 { (ts + 3000) % 0x1_0000_0000 } else { (ts + delta) % 0x1_0000_0000 }) as u32
        }),
{
    let ticks: u128 = if elapsed_ns > u128::MAX / 90_000 { u128::MAX } else { elapsed_ns * 90_000 };
    let delta = (ticks / 1_000_000_000) as u32;
    if delta == 0 {
        ts.wrapping_add(RTP_CLOCK_RATE / SYNTHETIC_FPS)
    } else {
        ts.wrapping_add(delta)
    }
}

/// Sum of the lengths of byte strings.
pub open spec fn total_len(ns: Seq<Seq<u8>>) -> nat
    decreases ns.len(),
{
    if ns.len() == 0 {
        0
    } else {
        total_len(ns.drop_last()) + ns.last().len()
    }
}

/// `x` capped at `u64::MAX`.
pub open spec fn cap_u64(x: int) -> u64 {
    if x > u64::MAX {
        u64::MAX
    } else {
        x as u64
    }
}

/// Total payload bytes of one encoded frame (saturating).
pub fn frame_payload_bytes(nalus: &[Vec<u8>]) -> (r: u64)
    ensures
        r == cap_u64(total_len(byte_views(nalus@)) as int),
{
    let mut total: u64 = 0;
    let mut i: usize = 0;
    let ghost vs = byte_views(nalus@);
    while i < nalus.len()
        invariant
            i <= nalus@.len(),
            vs == byte_views(nalus@),
            total == cap_u64(total_len(vs.take(i as int)) as int),
        decreases nalus@.len() - i,
    {
        assert(vs.take(i + 1).drop_last() =~= vs.take(i as int));
        assert(vs.take(i + 1).last() == nalus@[i as int]@);
        total = total.saturating_add(nalus[i].len() as u64);
        i += 1;
    }
    assert(vs.take(nalus@.len() as int) =~= vs);
    total
}

/// Counters of the current stats window.
pub struct StreamStats {
    pub frames: u64,
    pub encode_us: u64,
    pub bytes: u64,
}

/// Measured rate in thousandths per second of `count` events over `window_us`
/// microseconds, the window taken as at least 1 ms.
pub open spec fn milli_rate(count: u64, window_us: u64) -> u64 {
    let w: int = if window_us < 1000 { 1000 } else { window_us as int };
    cap_u64((count as int * 1_000_000_000) / w)
}

/// Bit rate in kbit/s of `bytes` over `window_us` microseconds, the window taken as at least 1 ms.
pub open spec fn kbps_of(bytes: u64, window_us: u64) -> u64 {
    let w: int = if window_us < 1000 { 1000 } else { window_us as int };
    cap_u64((bytes as int * 8000) / w)
}

impl StreamStats {
    /// An empty window.
    pub fn new() -> (r: Self)
        ensures
            r.frames == 0 && r.encode_us == 0 && r.bytes == 0,
    {
        StreamStats { frames: 0, encode_us: 0, bytes: 0 }
    }

    /// Counts one frame with its encode time and payload size (saturating).
    pub fn record_frame(&mut self, encode_us: u64, payload_bytes: u64)
        ensures
            final(self).frames == cap_u64(old(self).frames + 1),
            final(self).encode_us == cap_u64(old(self).encode_us + encode_us),
            final(self).bytes == cap_u64(old(self).bytes + payload_bytes),
    {
        self.frames = self.frames.saturating_add(1);
        self.encode_us = self.encode_us.saturating_add(encode_us);
        self.bytes = self.bytes.saturating_add(payload_bytes);
    }

    /// The QoS sample of this window, which lasted `window_us` microseconds,
    /// for a stream targeting `target_fps`.
    pub fn sample(&self, window_us: u64, target_fps: u32) -> (r: StreamMetricsSample)
        ensures
            r.actual_mfps == milli_rate(self.frames, window_us),
            r.target_mfps == target_fps as u64 * 1000,
            r.avg_encode_us == self.encode_us / (if self.frames == 0 { 1 } else { self.frames }),
            r.kbps == kbps_of(self.bytes, window_us),
    {
        let w: u128 = if window_us < 1000 { 1000 } else { window_us as u128 };
        let fps_m: u128 = (self.frames as u128 * 1_000_000_000) / w;
        let kbps: u128 = (self.bytes as u128 * 8000) / w;
        let frames_div: u64 = if self.frames == 0 { 1 } else { self.frames };
        StreamMetricsSample {
            actual_mfps: if fps_m > u64::MAX as u128 { u64::MAX } else { fps_m as u64 },
            target_mfps: target_fps as u64 * 1000,
            avg_encode_us: self.encode_us / frames_div,
            kbps: if kbps > u64::MAX as u128 { u64::MAX } else { kbps as u64 },
        }
    }
}

/// A stream limited to `max_frames` frames (0 meaning no limit) has sent them all.
pub fn stream_finished(max_frames: u64, frame_index: u64) -> (r: bool)
    ensures
        r == (max_frames > 0 && frame_index >= max_frames),
{
    max_frames > 0 && frame_index >= max_frames
}

/// A stats window closes after every 30th frame sent.
pub fn stats_window_due(frames_sent: u64) -> (r: bool)
    ensures
        r == (frames_sent % 30 == 0),
{
    frames_sent % STATS_WINDOW_FRAMES == 0
}

/// Frame period in nanoseconds for a frame rate (at least 1 fps).
pub fn frame_duration_ns(fps: u32) -> (r: u64)
    ensures
        r == 1_000_000_000int / (if fps < 1 { 1int } else { fps as int }),
{
    let f: u64 = if fps < 1 { 1 } else { fps as u64 };
    1_000_000_000 / f
}

/// A recommended profile changes the stream only where its size or rate differs.
pub fn profile_changes_stream(profile: StreamProfile, width: u32, height: u32, fps: u32) -> (r: bool)
    ensures
        r == !(profile.width == width && profile.height == height && profile.fps == fps),
{
    !(profile.width == width && profile.height == height && profile.fps == fps)
}

/// What the streaming loop encodes next.
#[derive(Debug, Clone, Copy, PartialEq, Eq, Structural)]
pub enum NextFrame {
    /// The frame limit is reached.
    Done,
    /// The test-cycle pattern of this cycle.
    TestPattern { cycle: u32 },
    /// A captured screen frame.
    Capture,
}

/// What the sender does with a QoS recommendation.
#[derive(Debug, Clone, Copy, PartialEq, Eq)]
pub enum QosStep {
    Hold,
    /// Reconfigure capture and encoder to the profile.
    Apply(StreamProfile),
    /// Recommendations are not followed while the test cycle runs.
    Ignore(StreamProfile),
}

/// Plain-value state of a sending session.
pub struct SessionView {
    pub width: u32,
    pub height: u32,
    pub fps: u32,
    /// Frame limit (0: none).
    pub max_frames: u64,
    /// Frames sent so far.
    pub frame_index: u64,
    pub test_cycle: bool,
    /// Counters of the current stats window.
    pub frames: u64,
    pub encode_us: u64,
    pub bytes: u64,
}

/// The next frame of a session: none past the limit, else the test pattern
/// of cycle `frame_index % 10` or a captured frame.
pub open spec fn next_frame_of(s: SessionView) -> NextFrame {
    if s.max_frames > 0 && s.frame_index >= s.max_frames {
        NextFrame::Done
    } else if s.test_cycle {
        NextFrame::TestPattern { cycle: (s.frame_index % 10) as u32 }
    } else {
        NextFrame::Capture
    }
}

/// The QoS sample of a window with these counters.
pub open spec fn window_sample(frames: u64, encode_us: u64, bytes: u64, window_us: u64, fps: u32) -> StreamMetricsSample {
    StreamMetricsSample {
        actual_mfps: milli_rate(frames, window_us),
        target_mfps: (fps as u64 * 1000) as u64,
        avg_encode_us: encode_us / (if frames == 0 { 1 } else { frames }),
        kbps: kbps_of(bytes, window_us),
    }
}

/// The decisions of the streaming loop between frames: which frame comes
/// next, the stats window, and the current size and rate. Capture, encoding,
/// sockets and the clock stay with the caller.
pub struct SendSession {
    width: u32,
    height: u32,
    fps: u32,
    max_frames: u64,
    frame_index: u64,
    test_cycle: bool,
    stats: StreamStats,
}

impl View for SendSession {
    type V = SessionView;

    closed spec fn view(&self) -> SessionView {
        SessionView {
            width: self.width,
            height: self.height,
            fps: self.fps,
            max_frames: self.max_frames,
            frame_index: self.frame_index,
            test_cycle: self.test_cycle,
            frames: self.stats.frames,
            encode_us: self.stats.encode_us,
            bytes: self.stats.bytes,
        }
    }
}

impl SendSession {
    /// A session that has sent nothing.
    pub fn new(width: u32, height: u32, fps: u32, max_frames: u64, test_cycle: bool) -> (r: Self)
        ensures
            r@ == (SessionView { width, height, fps, max_frames, frame_index: 0, test_cycle, frames: 0, encode_us: 0, bytes: 0 }),
    {
        SendSession { width, height, fps, max_frames, frame_index: 0, test_cycle, stats: StreamStats::new() }
    }

    pub fn width(&self) -> (r: u32)
        ensures
            r == self@.width,
    {
        self.width
    }

    pub fn height(&self) -> (r: u32)
        ensures
            r == self@.height,
    {
        self.height
    }

    pub fn fps(&self) -> (r: u32)
        ensures
            r == self@.fps,
    {
        self.fps
    }

    /// Frames sent so far.
    pub fn frame_index(&self) -> (r: u64)
        ensures
            r == self@.frame_index,
    {
        self.frame_index
    }

    /// Frames counted in the current stats window.
    pub fn window_frames(&self) -> (r: u64)
        ensures
            r == self@.frames,
    {
        self.stats.frames
    }

    /// What to encode next.
    pub fn next_frame(&self) -> (r: NextFrame)
        ensures
            r == next_frame_of(self@),
    {
        if stream_finished(self.max_frames, self.frame_index) {
            NextFrame::Done
        } else if self.test_cycle {
            NextFrame::TestPattern { cycle: (self.frame_index % 10) as u32 }
        } else {
            NextFrame::Capture
        }
    }

    /// Frame period in nanoseconds at the current rate.
    pub fn frame_period_ns(&self) -> (r: u64)
        ensures
            r == 1_000_000_000int / (if self@.fps < 1 { 1int } else { self@.fps as int }),
    {
        frame_duration_ns(self.fps)
    }

    /// Counts a frame sent (its encode time and payload size). After every
    /// 30th frame the window closes: its sample (over `window_us`) is returned
    /// and the counters start again.
    pub fn frame_sent(&mut self, encode_us: u64, payload_bytes: u64, window_us: u64) -> (r: Option<StreamMetricsSample>)
        requires
            old(self)@.frame_index < u64::MAX,
        ensures
            ({
                let s = old(self)@;
                let n = (s.frame_index + 1) as u64;
                let frames = cap_u64(s.frames + 1);
                let enc = cap_u64(s.encode_us + encode_us);
                let bytes = cap_u64(s.bytes + payload_bytes);
                let t = final(self)@;
                &&& t.width == s.width && t.height == s.height && t.fps == s.fps
                &&& t.max_frames == s.max_frames && t.test_cycle == s.test_cycle
                &&& t.frame_index == n
                &&& n % 30 == 0 ==> r == Some(window_sample(frames, enc, bytes, window_us, s.fps))
                    && t.frames == 0 && t.encode_us == 0 && t.bytes == 0
                &&& n % 30 != 0 ==> r is None && t.frames == frames && t.encode_us == enc && t.bytes == bytes
            }),
    {
        self.stats.record_frame(encode_us, payload_bytes);
        self.frame_index = self.frame_index + 1;
        if stats_window_due(self.frame_index) {
            let sample = self.stats.sample(window_us, self.fps);
            self.stats = StreamStats::new();
            Some(sample)
        } else {
            None
        }
    }

    /// A recommendation is applied, except during the test cycle.
    pub fn qos_step(&self, action: QosAction) -> (r: QosStep)
        ensures
            r == (match action {
                QosAction::Hold => QosStep::Hold,
                QosAction::RecommendDowngrade(p) => if self@.test_cycle { QosStep::Ignore(p) } else { QosStep::Apply(p) },
                QosAction::RecommendUpgrade(p) => if self@.test_cycle { QosStep::Ignore(p) } else { QosStep::Apply(p) },
            }),
    {
        match action {
            QosAction::Hold => QosStep::Hold,
            QosAction::RecommendDowngrade(p) | QosAction::RecommendUpgrade(p) => {
                if self.test_cycle {
                    QosStep::Ignore(p)
                } else {
                    QosStep::Apply(p)
                }
            },
        }
    }

    /// Takes the size and rate of a profile; returns whether they changed.
    pub fn apply_profile(&mut self, profile: StreamProfile) -> (changed: bool)
        ensures
            changed == !(profile.width == old(self)@.width && profile.height == old(self)@.height
                && profile.fps == old(self)@.fps),
            final(self)@ == (if changed {
                SessionView { width: profile.width, height: profile.height, fps: profile.fps, ..old(self)@ }
            } else {
                old(self)@
            }),
    {
        let changed = profile_changes_stream(profile, self.width, self.height, self.fps);
        if changed {
            self.width = profile.width;
            self.height = profile.height;
            self.fps = profile.fps;
        }
        changed
    }
}

} // verus!
