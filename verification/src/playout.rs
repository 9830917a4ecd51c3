//! Audio playout buffer: decoded PCM frames held in RTP-timestamp order and
//! released when their playout time arrives. Times are monotonic nanoseconds
//! handed in by the caller.

use vstd::prelude::*;
use std::collections::BTreeMap;
use crate::protocol::rtp::{AUDIO_CLOCK_HZ, AUDIO_SAMPLES_PER_FRAME};

verus! {

broadcast use vstd::laws_cmp::group_laws_cmp;

/// Target lead time before the first audio frame plays (ms).
pub const DEFAULT_PLAYOUT_DELAY_MS: u64 = 60;

/// Largest A/V skew correction applied to audio playout (500 ms).
pub const MAX_SKEW_CORRECTION_NS: i128 = 500_000_000;

/// Plain-value state of a playout buffer; the queue maps RTP timestamps to
/// the samples of the frame stored under each.
pub struct PlayoutView {
    pub delay_ns: u128,
    pub origin_ns: Option<u128>,
    pub base_rtp_ts: Option<u32>,
    pub skew_correction_ns: u128,
    pub queue: Map<u32, Seq<i16>>,
    pub latest_rtp_ts: Option<u32>,
}

/// `k` is the earliest timestamp in `q`.
pub open spec fn is_earliest<V>(q: Map<u32, V>, k: u32) -> bool {
    &&& q.contains_key(k)
    &&& forall|j: u32| #[trigger] q.contains_key(j) ==> k <= j
}

/// The earliest timestamp of a non-empty queue.
pub open spec fn earliest(q: Map<u32, Seq<i16>>) -> u32 {
    choose|k: u32| is_earliest(q, k)
}

/// `kept` is what remains of `q` once its earliest frames are dropped down
/// to `n`: the `n` latest frames, or all of them where there are no more.
pub open spec fn keeps_latest(q: Map<u32, Seq<i16>>, kept: Map<u32, Seq<i16>>, n: nat) -> bool {
    &&& kept.submap_of(q)
    &&& kept.len() == if q.len() > n { n } else { q.len() }
    &&& forall|k: u32, j: u32|
        #[trigger] q.contains_key(k) && !kept.contains_key(k) && #[trigger] kept.contains_key(j) ==> k < j
}

/// `a + b`, saturating at `u128::MAX`.
pub open spec fn sat_add(a: u128, b: int) -> u128 {
    if a + b > u128::MAX { u128::MAX } else { (a + b) as u128 }
}

/// Playout time of the frame with timestamp `ts`: the origin plus its media
/// offset from the first timestamp (modulo 2^32) at 48 kHz.
pub open spec fn play_at(origin_ns: u128, base: u32, ts: u32) -> u128 {
    sat_add(origin_ns, ((((ts - base) % 0x1_0000_0000) * 1_000_000_000) / AUDIO_CLOCK_HZ as int))
}

/// A skew correction clamped to at most 500 ms, negative values giving none.
pub open spec fn correction_of(skew_ns: i128) -> u128 {
    if skew_ns <= 0 { 0 } else if skew_ns > MAX_SKEW_CORRECTION_NS { MAX_SKEW_CORRECTION_NS as u128 } else { skew_ns as u128 }
}

/// The earliest timestamp queued, through `BTreeMap::first_key_value`, which
/// (as std documents) gives the entry with the smallest key, or `None` when
/// the map is empty.
#[verifier::external_body]
fn first_timestamp(q: &BTreeMap<u32, Vec<i16>>) -> (r: Option<u32>)
    ensures
        match r {
            Some(k) => is_earliest(q@, k),
            None => q@.is_empty(),
        },
{
    q.first_key_value().map(|(k, _)| *k)
}

/// `BTreeMap::pop_first`, which (as std documents) removes and returns the
/// entry with the smallest key, or `None` when the map is empty.
#[verifier::external_body]
fn pop_first_frame(q: &mut BTreeMap<u32, Vec<i16>>) -> (r: Option<(u32, Vec<i16>)>)
    ensures
        match r {
            Some((k, v)) => {
                &&& is_earliest(old(q)@, k)
                &&& v == old(q)@[k]
                &&& final(q)@ == old(q)@.remove(k)
            },
            None => old(q)@.is_empty() && final(q)@ == old(q)@,
        },
{
    q.pop_first()
}

/// Buffers decoded PCM keyed by RTP timestamp and releases frames on schedule.
pub struct AudioPlayoutBuffer {
    delay_ns: u128,
    origin_ns: Option<u128>,
    base_rtp_ts: Option<u32>,
    skew_correction_ns: u128,
    queue: BTreeMap<u32, Vec<i16>>,
    latest_rtp_ts: Option<u32>,
}

/// Views of queued frames.
pub open spec fn frames_of(m: Map<u32, Vec<i16>>) -> Map<u32, Seq<i16>> {
    m.map_values(|v: Vec<i16>| v@)
}

impl View for AudioPlayoutBuffer {
    type V = PlayoutView;

    closed spec fn view(&self) -> PlayoutView {
        PlayoutView {
            delay_ns: self.delay_ns,
            origin_ns: self.origin_ns,
            base_rtp_ts: self.base_rtp_ts,
            skew_correction_ns: self.skew_correction_ns,
            queue: frames_of(self.queue@),
            latest_rtp_ts: self.latest_rtp_ts,
        }
    }
}

proof fn lemma_frames_len(m: Map<u32, Vec<i16>>)
    requires
        m.dom().finite(),
    ensures
        frames_of(m).dom() == m.dom(),
        frames_of(m).len() == m.len(),
{
    assert(frames_of(m).dom() =~= m.dom());
}

proof fn lemma_earliest_of(q: Map<u32, Seq<i16>>, k: u32)
    requires
        is_earliest(q, k),
    ensures
        earliest(q) == k,
{
    let e = earliest(q);
    assert(is_earliest(q, e));
    assert(e <= k && k <= e);
}

impl AudioPlayoutBuffer {
    /// An empty buffer that holds the first frame back by `delay_ms`.
    pub fn new(delay_ms: u64) -> (r: Self)
        ensures
            r@ == (PlayoutView {
                delay_ns: (delay_ms as u128 * 1_000_000) as u128,
                origin_ns: None,
                base_rtp_ts: None,
                skew_correction_ns: 0,
                queue: Map::empty(),
                latest_rtp_ts: None,
            }),
    {
        let r = AudioPlayoutBuffer {
            delay_ns: delay_ms as u128 * 1_000_000,
            origin_ns: None,
            base_rtp_ts: None,
            skew_correction_ns: 0,
            queue: BTreeMap::new(),
            latest_rtp_ts: None,
        };
        assert(frames_of(r.queue@) =~= Map::<u32, Seq<i16>>::empty());
        r
    }

    /// Number of queued frames.
    pub fn len(&self) -> (r: usize)
        ensures
            r == self@.queue.len(),
    {
        proof { lemma_frames_len(self.queue@); }
        self.queue.len()
    }

    /// Sets the A/V skew correction (positive delays audio, at most 500 ms,
    /// negative gives none) and moves the playout origin later by it.
    pub fn set_skew_correction_ns(&mut self, skew_ns: i128)
        ensures
            final(self)@ == (PlayoutView {
                skew_correction_ns: correction_of(skew_ns),
                origin_ns: match old(self)@.origin_ns {
                    Some(o) => Some(sat_add(o, correction_of(skew_ns) as int)),
                    None => None,
                },
                ..old(self)@
            }),
    {
        let c: u128 = if skew_ns <= 0 {
            0
        } else if skew_ns > MAX_SKEW_CORRECTION_NS {
            MAX_SKEW_CORRECTION_NS as u128
        } else {
            skew_ns as u128
        };
        self.skew_correction_ns = c;
        self.origin_ns = match self.origin_ns {
            Some(o) => Some(o.saturating_add(c)),
            None => None,
        };
    }

    /// Queues a decoded frame that arrived at `now_ns`, replacing one with the
    /// same timestamp. The first frame fixes the base timestamp and a playout
    /// origin one delay after its arrival.
    pub fn push(&mut self, rtp_ts: u32, pcm: Vec<i16>, now_ns: u128)
        ensures
            final(self)@ == (PlayoutView {
                latest_rtp_ts: Some(match old(self)@.latest_rtp_ts {
                    Some(t) => if t >= rtp_ts { t } else { rtp_ts },
                    None => rtp_ts,
                }),
                base_rtp_ts: if old(self)@.base_rtp_ts is None { Some(rtp_ts) } else { old(self)@.base_rtp_ts },
                origin_ns: if old(self)@.base_rtp_ts is None {
                    Some(sat_add(now_ns, old(self)@.delay_ns as int))
                } else {
                    old(self)@.origin_ns
                },
                queue: old(self)@.queue.insert(rtp_ts, pcm@),
                ..old(self)@
            }),
    {
        self.latest_rtp_ts = Some(match self.latest_rtp_ts {
            Some(t) => if t >= rtp_ts { t } else { rtp_ts },
            None => rtp_ts,
        });
        if self.base_rtp_ts.is_none() {
            self.base_rtp_ts = Some(rtp_ts);
            self.origin_ns = Some(now_ns.saturating_add(self.delay_ns));
        }
        let ghost q0 = self.queue@;
        let ghost pv = pcm@;
        self.queue.insert(rtp_ts, pcm);
        assert(frames_of(self.queue@) =~= frames_of(q0).insert(rtp_ts, pv));
    }

    /// Releases the earliest queued frame if its playout time has arrived at
    /// `now_ns`; nothing before the first frame was queued.
    pub fn pop_ready(&mut self, now_ns: u128) -> (r: Option<Vec<i16>>)
        ensures
            ({
                let s = old(self)@;
                if s.base_rtp_ts is None || s.origin_ns is None || s.queue.is_empty()
                    || now_ns < play_at(s.origin_ns->0, s.base_rtp_ts->0, earliest(s.queue)) {
                    r is None && final(self)@ == s
                } else {
                    &&& r matches Some(pcm) && pcm@ == s.queue[earliest(s.queue)]
                    &&& final(self)@ == (PlayoutView { queue: s.queue.remove(earliest(s.queue)), ..s })
                    &&& forall|j: u32| #[trigger] final(self)@.queue.contains_key(j) ==> earliest(s.queue) < j
                }
            }),
    {
        let ghost q0 = self.queue@;
        let base = match self.base_rtp_ts {
            Some(b) => b,
            None => return None,
        };
        let origin = match self.origin_ns {
            Some(o) => o,
            None => return None,
        };
        let ts = match first_timestamp(&self.queue) {
            Some(k) => k,
            None => {
                assert(frames_of(q0) =~= Map::<u32, Seq<i16>>::empty());
                return None;
            },
        };
        assert(is_earliest(frames_of(q0), ts));
        proof { lemma_earliest_of(frames_of(q0), ts); }
        let offset = (ts.wrapping_sub(base) as u128 * 1_000_000_000) / (AUDIO_CLOCK_HZ as u128);
        let at = origin.saturating_add(offset);
        if now_ns < at {
            return None;
        }
        match self.queue.remove(&ts) {
            Some(pcm) => {
                assert(frames_of(self.queue@) =~= frames_of(q0).remove(ts));
                Some(pcm)
            },
            None => None,
        }
    }

    /// Drops the earliest frames until at most `max_frames` remain.
    pub fn drop_late(&mut self, max_frames: usize)
        ensures
            final(self)@ == (PlayoutView { queue: final(self)@.queue, ..old(self)@ }),
            keeps_latest(old(self)@.queue, final(self)@.queue, max_frames as nat),
    {
        let ghost q0 = self.queue@;
        let ghost s0 = self@;
        proof { lemma_frames_len(q0); }
        while self.queue.len() > max_frames
            invariant
                self@ == (PlayoutView { queue: self@.queue, ..s0 }),
                self.queue@.submap_of(q0),
                q0.len() > max_frames ==> self.queue@.len() >= max_frames,
                q0.len() <= max_frames ==> self.queue@ == q0,
                forall|k: u32, j: u32|
                    #[trigger] q0.contains_key(k) && !self.queue@.contains_key(k) && #[trigger] self.queue@.contains_key(j) ==> k < j,
            decreases self.queue@.len(),
        {
            let ghost before = self.queue@;
            let popped = pop_first_frame(&mut self.queue);
            match popped {
                Some((k, _)) => {
                    assert(forall|j: u32| #[trigger] self.queue@.contains_key(j) ==> before.contains_key(j) && j != k);
                },
                None => {},
            }
        }
        proof {
            lemma_frames_len(self.queue@);
            assert(frames_of(self.queue@).submap_of(frames_of(q0)));
        }
    }
}

/// Duration of one 20 ms audio frame at 48 kHz, in milliseconds.
pub fn frame_duration_ms() -> (r: u64)
    ensures
        r == 20,
{
    let r = (AUDIO_SAMPLES_PER_FRAME as u64 * 1000) / AUDIO_CLOCK_HZ as u64;
    assert(AUDIO_SAMPLES_PER_FRAME == 960 && AUDIO_CLOCK_HZ == 48000);
    assert(960u64 * 1000 / 48000 == 20);
    r
}

} // verus!
