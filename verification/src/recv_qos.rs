//! Receiver-side QoS window: loss, jitter and decode lag over about a second,
//! summarised into the feedback packet sent back to the sender. Times are
//! kept in microseconds.

use vstd::prelude::*;
use crate::rtcp::RecvFeedback;

verus! {

/// Rolling receive metrics for one feedback window.
#[derive(Debug, Clone, Copy, PartialEq, Eq, Structural)]
pub struct RecvQoSWindow {
    pub packets_expected: u32,
    pub packets_lost: u32,
    /// Smoothed inter-arrival jitter (µs).
    pub jitter_us: u64,
    /// Latest decode time (µs).
    pub decode_lag_us: u64,
    pub dropped_frames: u16,
    pub pending_decode: u32,
    pub target_fps: u32,
}

/// `a + b` saturating at `u32::MAX`.
pub open spec fn sat_u32(x: int) -> u32 {
    if x > u32::MAX { u32::MAX } else { x as u32 }
}

/// Loss over the window in 1/255 units: `lost / expected` clamped to [0, 1],
/// times 255, rounded half up; 0 for an empty window.
pub open spec fn loss_fraction_255(lost: u32, expected: u32) -> u8 {
    if expected == 0 {
        0
    } else if lost >= expected {
        255
    } else {
        ((lost as int * 510 + expected as int) / (2 * expected as int)) as u8
    }
}

/// Decode lag including the queue: latest decode time plus one frame period
/// per queued frame (µs, saturating).
pub open spec fn decode_lag_with_queue(w: RecvQoSWindow) -> u64 {
    let fps: int = if w.target_fps < 1 { 1 } else { w.target_fps as int };
    let total = w.decode_lag_us as int + (w.pending_decode as int * 1_000_000) / fps;
    if total > u64::MAX { u64::MAX } else { total as u64 }
}

/// Microseconds as whole milliseconds, rounded half up, at most 65535.
pub open spec fn us_to_ms_16(us: u64) -> u16 {
    let ms = (us as int + 500) / 1000;
    if ms > 65535 { 65535 } else { ms as u16 }
}

/// The feedback of a window.
pub open spec fn feedback_of(w: RecvQoSWindow) -> RecvFeedback {
    RecvFeedback {
        loss_fraction: loss_fraction_255(w.packets_lost, w.packets_expected),
        jitter_ms: us_to_ms_16(w.jitter_us),
        decode_lag_ms: us_to_ms_16(decode_lag_with_queue(w)),
        dropped_frames: w.dropped_frames,
    }
}

fn ms_16(us: u64) -> (r: u16)
    ensures
        r == us_to_ms_16(us),
{
    let ms: u128 = (us as u128 + 500) / 1000;
    if ms > 65535 { 65535 } else { ms as u16 }
}

impl RecvQoSWindow {
    /// An empty window for a stream at `target_fps`.
    pub fn new(target_fps: u32) -> (r: Self)
        ensures
            r == (RecvQoSWindow { packets_expected: 0, packets_lost: 0, jitter_us: 0, decode_lag_us: 0, dropped_frames: 0, pending_decode: 0, target_fps }),
    {
        RecvQoSWindow { packets_expected: 0, packets_lost: 0, jitter_us: 0, decode_lag_us: 0, dropped_frames: 0, pending_decode: 0, target_fps }
    }

    /// Loss over the window in 1/255 units.
    pub fn fraction_lost(&self) -> (r: u8)
        ensures
            r == loss_fraction_255(self.packets_lost, self.packets_expected),
    {
        if self.packets_expected == 0 {
            0
        } else if self.packets_lost >= self.packets_expected {
            255
        } else {
            let v: u64 = (self.packets_lost as u64 * 510 + self.packets_expected as u64) / (2 * self.packets_expected as u64);
            assert(v <= 255) by (nonlinear_arith)
                requires v == (self.packets_lost as int * 510 + self.packets_expected as int) / (2 * self.packets_expected as int),
                    self.packets_lost < self.packets_expected, self.packets_expected > 0;
            v as u8
        }
    }

    /// Decode lag including the queue (µs).
    pub fn estimated_decode_lag_us(&self) -> (r: u64)
        ensures
            r == decode_lag_with_queue(*self),
    {
        let fps: u128 = if self.target_fps < 1 { 1 } else { self.target_fps as u128 };
        let total: u128 = self.decode_lag_us as u128 + (self.pending_decode as u128 * 1_000_000) / fps;
        if total > u64::MAX as u128 { u64::MAX } else { total as u64 }
    }

    /// `lost` packets went missing before the one that arrived.
    pub fn record_loss(&mut self, lost: u32)
        requires
            lost < u32::MAX,
        ensures
            *final(self) == (RecvQoSWindow {
                packets_expected: sat_u32(old(self).packets_expected + 1 + lost),
                packets_lost: sat_u32(old(self).packets_lost + lost),
                ..*old(self)
            }),
    {
        self.packets_expected = self.packets_expected.saturating_add(1 + lost);
        self.packets_lost = self.packets_lost.saturating_add(lost);
    }

    /// A packet arrived in order.
    pub fn record_packet(&mut self)
        ensures
            *final(self) == (RecvQoSWindow { packets_expected: sat_u32(old(self).packets_expected + 1), ..*old(self) }),
    {
        self.packets_expected = self.packets_expected.saturating_add(1);
    }

    /// A jitter sample: the first one is taken as is, later ones are smoothed
    /// as 70 % of the old value plus 30 % of the new one (rounded down).
    pub fn record_jitter_us(&mut self, jitter_us: u64)
        ensures
            *final(self) == (RecvQoSWindow {
                jitter_us: if old(self).jitter_us == 0 { jitter_us } else { ((old(self).jitter_us as int * 7 + jitter_us as int * 3) / 10) as u64 },
                ..*old(self)
            }),
    {
        if self.jitter_us == 0 {
            self.jitter_us = jitter_us;
        } else {
            let v: u128 = (self.jitter_us as u128 * 7 + jitter_us as u128 * 3) / 10;
            assert(v <= u64::MAX) by (nonlinear_arith)
                requires v == (self.jitter_us as int * 7 + jitter_us as int * 3) / 10, self.jitter_us <= u64::MAX, jitter_us <= u64::MAX;
            self.jitter_us = v as u64;
        }
    }

    /// The latest decode time (µs).
    pub fn record_decode_us(&mut self, decode_us: u64)
        ensures
            *final(self) == (RecvQoSWindow { decode_lag_us: decode_us, ..*old(self) }),
    {
        self.decode_lag_us = decode_us;
    }

    /// Frames waiting for the decoder.
    pub fn set_pending_decode(&mut self, depth: u32)
        ensures
            *final(self) == (RecvQoSWindow { pending_decode: depth, ..*old(self) }),
    {
        self.pending_decode = depth;
    }

    /// A frame was dropped (saturating).
    pub fn record_drop(&mut self)
        ensures
            *final(self) == (RecvQoSWindow {
                dropped_frames: if old(self).dropped_frames == u16::MAX { u16::MAX } else { (old(self).dropped_frames + 1) as u16 },
                ..*old(self)
            }),
    {
        self.dropped_frames = self.dropped_frames.saturating_add(1);
    }

    /// The window's feedback; loss and drop counters start over, the smoothed
    /// jitter and decode lag are kept.
    pub fn snapshot_feedback(&mut self) -> (fb: RecvFeedback)
        ensures
            fb == feedback_of(*old(self)),
            *final(self) == (RecvQoSWindow { packets_expected: 0, packets_lost: 0, dropped_frames: 0, ..*old(self) }),
    {
        let fb = RecvFeedback {
            loss_fraction: self.fraction_lost(),
            jitter_ms: ms_16(self.jitter_us),
            decode_lag_ms: ms_16(self.estimated_decode_lag_us()),
            dropped_frames: self.dropped_frames,
        };
        self.packets_expected = 0;
        self.packets_lost = 0;
        self.dropped_frames = 0;
        fb
    }
}

/// Each frame waiting for the decoder adds one full frame period
/// (1_000_000 / fps µs, with fps at least 1) to the estimated decode lag: the
/// lag beyond the latest decode time, times the frame rate, is the queue depth
/// in seconds' worth of microseconds, rounded down to a whole microsecond.
/// The feedback reports that lag in milliseconds, rounded to the nearest.
pub proof fn lemma_queued_frames_add_frame_periods(w: RecvQoSWindow)
    ensures
        ({
            let fps: int = if w.target_fps < 1 { 1 } else { w.target_fps as int };
            let lag: int = decode_lag_with_queue(w) as int;
            let extra: int = lag - w.decode_lag_us;
            &&& lag >= w.decode_lag_us
            &&& lag < u64::MAX ==> extra * fps <= w.pending_decode * 1_000_000 < (extra + 1) * fps
            &&& w.decode_lag_us * fps + w.pending_decode * 1_000_000 >= (u64::MAX as int + 1) * fps ==> lag
                == u64::MAX
            &&& lag <= 65_535_499 ==> feedback_of(w).decode_lag_ms * 1000 - 500 <= lag < feedback_of(w).decode_lag_ms
                * 1000 + 500
        }),
{
    let fps: int = if w.target_fps < 1 { 1 } else { w.target_fps as int };
    let q: int = (w.pending_decode as int * 1_000_000) / fps;
    assert(q * fps <= w.pending_decode * 1_000_000 < (q + 1) * fps) by (nonlinear_arith)
        requires q == (w.pending_decode as int * 1_000_000) / fps, fps >= 1;
    assert(q >= 0) by (nonlinear_arith)
        requires q == (w.pending_decode as int * 1_000_000) / fps, fps >= 1, w.pending_decode >= 0;
    if w.decode_lag_us * fps + w.pending_decode * 1_000_000 >= (u64::MAX as int + 1) * fps {
        assert(w.decode_lag_us + q >= u64::MAX as int + 1) by (nonlinear_arith)
            requires q * fps <= w.pending_decode * 1_000_000 < (q + 1) * fps, fps >= 1,
                w.decode_lag_us * fps + w.pending_decode * 1_000_000 >= (u64::MAX as int + 1) * fps;
    }
}

} // verus!
