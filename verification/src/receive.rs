//! Receive side of the video stream: per-SSRC jitter buffers, in-order delivery
//! and frame reassembly. The socket loop around it hands in each datagram and
//! its arrival time and gets back the access units that became complete.

use vstd::prelude::*;
use std::collections::{BTreeMap, HashMap};
use crate::h264_rtp::{
    empty_assembly, flushed, payload_step, AssemblerView, FrameAssembler,
};
use crate::rtp_packet::{parse_rtp, rtp_parsed, RtpFields, RTP_HEADER_LEN};

verus! {

broadcast use {vstd::std_specs::hash::group_hash_axioms, vstd::laws_cmp::group_laws_cmp};

/// How long a packet may wait in the jitter buffer for its predecessors.
pub const JITTER_WINDOW_NS: u128 = 200_000_000;

/// A buffered packet as plain values.
pub struct BufferedView {
    pub payload: Seq<u8>,
    pub rtp_ts: u32,
    pub arrival_ns: u128,
}

/// A packet waiting in a jitter buffer, stored under its sequence number.
pub struct BufferedPacket {
    pub payload: Vec<u8>,
    pub rtp_ts: u32,
    pub arrival_ns: u128,
}

impl View for BufferedPacket {
    type V = BufferedView;

    open spec fn view(&self) -> BufferedView {
        BufferedView { payload: self.payload@, rtp_ts: self.rtp_ts, arrival_ns: self.arrival_ns }
    }
}

/// Views of buffered packets, by sequence number.
pub open spec fn packets_view(m: Map<u16, BufferedPacket>) -> Map<u16, BufferedView> {
    m.map_values(|p: BufferedPacket| p@)
}

/// A complete access unit: the SSRC and RTP timestamp it belongs to, and its Annex-B bytes.
pub struct DeliveredFrame {
    pub ssrc: u32,
    pub rtp_ts: u32,
    pub access_unit: Vec<u8>,
}

/// A delivered frame as plain values.
pub type FrameView = (u32, u32, Seq<u8>);

impl View for DeliveredFrame {
    type V = FrameView;

    open spec fn view(&self) -> FrameView {
        (self.ssrc, self.rtp_ts, self.access_unit@)
    }
}

/// Views of delivered frames.
pub open spec fn frames_view(v: Seq<DeliveredFrame>) -> Seq<FrameView> {
    v.map_values(|f: DeliveredFrame| f@)
}

/// State of one SSRC as plain values: its jitter buffer by sequence number,
/// the last sequence number delivered, and the RTP timestamp and state of the
/// frame being built.
pub struct StreamView {
    pub buffer: Map<u16, BufferedView>,
    pub delivered: Option<u16>,
    pub assembly: Option<(u32, AssemblerView)>,
}

/// A stream never seen before.
pub open spec fn new_stream() -> StreamView {
    StreamView { buffer: Map::empty(), delivered: None, assembly: None }
}

/// `k` is the lowest sequence number in the buffer.
pub open spec fn is_min_seq(b: Map<u16, BufferedView>, k: u16) -> bool {
    &&& b.contains_key(k)
    &&& forall|j: u16| #[trigger] b.contains_key(j) ==> k <= j
}

/// The lowest sequence number in the buffer.
pub open spec fn min_seq(b: Map<u16, BufferedView>) -> u16 {
    choose|k: u16| is_min_seq(b, k)
}

/// The sequence number after `s`, wrapping at 2^16.
pub open spec fn next_seq(s: u16) -> u16 {
    if s == 0xffff {
        0
    } else {
        (s + 1) as u16
    }
}

/// Arrival time below which buffered packets are dropped.
pub open spec fn purge_threshold(now_ns: u128) -> u128 {
    if now_ns >= JITTER_WINDOW_NS {
        (now_ns - JITTER_WINDOW_NS) as u128
    } else {
        0
    }
}

/// The packets that arrived at or after `threshold`.
pub open spec fn purged(b: Map<u16, BufferedView>, threshold: u128) -> Map<u16, BufferedView> {
    b.filter_keys(|k: u16| b[k].arrival_ns >= threshold)
}

/// The frame state after one in-order packet `e` of stream `ssrc`, and the
/// frame it completes. An empty payload changes nothing. A packet with a new
/// RTP timestamp starts a new frame. A payload the depacketizer refuses is
/// dropped. When `marker` is set, the frame is handed out (if it holds any
/// bytes) and a new one begins.
pub open spec fn apply_packet(
    frame_state: Option<(u32, AssemblerView)>,
    ssrc: u32,
    e: BufferedView,
    marker: bool,
) -> (Option<(u32, AssemblerView)>, Seq<FrameView>) {
    if e.payload.len() == 0 {
        (frame_state, Seq::empty())
    } else {
        let a0 = match frame_state {
            Some(p) => if p.0 == e.rtp_ts { p.1 } else { empty_assembly() },
            None => empty_assembly(),
        };
        let step = payload_step(a0, e.payload);
        if !step.0 {
            (Some((e.rtp_ts, a0)), Seq::empty())
        } else {
            let a1 = step.1;
            if marker {
                let au = flushed(a1);
                (
                    Some((e.rtp_ts, empty_assembly())),
                    if au.len() > 0 { seq![(ssrc, e.rtp_ts, au)] } else { Seq::empty() },
                )
            } else {
                (Some((e.rtp_ts, a1)), Seq::empty())
            }
        }
    }
}

/// Delivers buffered packets from sequence number `next` on while the buffer
/// holds the next one, in order, with `fuel` bounding the steps.
pub open spec fn deliver_from(st: StreamView, ssrc: u32, next: u16, marker: bool, fuel: nat) -> (StreamView, Seq<FrameView>)
    decreases fuel,
{
    if fuel == 0 || !st.buffer.contains_key(next) {
        (st, Seq::empty())
    } else {
        let e = st.buffer[next];
        let applied = apply_packet(st.assembly, ssrc, e, marker);
        let st2 = StreamView { buffer: st.buffer.remove(next), delivered: Some(next), assembly: applied.0 };
        let rest = deliver_from(st2, ssrc, next_seq(next), marker, (fuel - 1) as nat);
        (rest.0, applied.1 + rest.1)
    }
}

/// One received packet of stream `ssrc`: it is stored in the jitter buffer
/// under its sequence number, replacing one stored there; delivery resumes
/// after the last delivered sequence number (or, for a new stream, at the
/// lowest one buffered); the marker bit of this packet closes frames; then
/// packets older than the jitter window are dropped.
pub open spec fn stream_step(
    st: StreamView,
    ssrc: u32,
    seq: u16,
    ts: u32,
    marker: bool,
    payload: Seq<u8>,
    now_ns: u128,
) -> (StreamView, Seq<FrameView>) {
    let b1 = st.buffer.insert(seq, BufferedView { payload, rtp_ts: ts, arrival_ns: now_ns });
    let next = match st.delivered {
        Some(d) => next_seq(d),
        None => min_seq(b1),
    };
    let st1 = StreamView { buffer: b1, delivered: st.delivered, assembly: st.assembly };
    let out = deliver_from(st1, ssrc, next, marker, b1.len());
    (StreamView { buffer: purged(out.0.buffer, purge_threshold(now_ns)), delivered: out.0.delivered, assembly: out.0.assembly }, out.1)
}

/// The state kept for one SSRC.
pub struct SsrcStream {
    buffer: BTreeMap<u16, BufferedPacket>,
    delivered: Option<u16>,
    assembly: Option<(u32, FrameAssembler)>,
}

impl View for SsrcStream {
    type V = StreamView;

    closed spec fn view(&self) -> StreamView {
        StreamView {
            buffer: packets_view(self.buffer@),
            delivered: self.delivered,
            assembly: match self.assembly {
                Some(p) => Some((p.0, p.1@)),
                None => None,
            },
        }
    }
}

proof fn lemma_packets_dom(m: Map<u16, BufferedPacket>)
    ensures
        packets_view(m).dom() == m.dom(),
{
    assert(packets_view(m).dom() =~= m.dom());
}

proof fn lemma_min_unique(b: Map<u16, BufferedView>, k: u16)
    requires
        is_min_seq(b, k),
    ensures
        min_seq(b) == k,
{
    let m = min_seq(b);
    assert(is_min_seq(b, m));
    assert(m <= k && k <= m);
}

/// Where the buffer holds a sequence number below `n`, it has a lowest one.
proof fn lemma_min_below(b: Map<u16, BufferedView>, n: int)
    requires
        0 <= n <= 0x10000,
        exists|k: u16| k < n && #[trigger] b.contains_key(k),
    ensures
        is_min_seq(b, min_seq(b)),
    decreases n,
{
    if exists|k: u16| k < n - 1 && #[trigger] b.contains_key(k) {
        lemma_min_below(b, n - 1);
    } else {
        let k = choose|k: u16| k < n && #[trigger] b.contains_key(k);
        assert(k == n - 1);
        assert(is_min_seq(b, k));
    }
}

proof fn lemma_min_exists(b: Map<u16, BufferedView>, s: u16)
    requires
        b.contains_key(s),
    ensures
        is_min_seq(b, min_seq(b)),
{
    assert(s < s + 1);
    lemma_min_below(b, s + 1);
}

impl SsrcStream {
    /// A stream with nothing received yet.
    pub fn new() -> (r: Self)
        ensures
            r@ == new_stream(),
    {
        let r = SsrcStream { buffer: BTreeMap::new(), delivered: None, assembly: None };
        assert(packets_view(r.buffer@) =~= Map::<u16, BufferedView>::empty());
        r
    }

    /// Lowest sequence number in a non-empty buffer.
    fn lowest_seq(&self) -> (r: u16)
        requires
            !self.buffer@.is_empty(),
        ensures
            is_min_seq(self@.buffer, r),
    {
        let mut m: u16 = 0xffff;
        let mut found: bool = false;
        for k in it: self.buffer.keys()
            invariant
                found ==> self.buffer@.contains_key(m),
                forall|i: int| 0 <= i < it.index() ==> m <= *it.seq()[i],
                it.index() > 0 ==> found,
                it.seq().unref().to_set() == self.buffer@.dom(),
                it.index() == it.seq().len() ==> forall|j: u16| #[trigger] self.buffer@.contains_key(j) ==> m <= j,
        {
            if !found || *k < m {
                m = *k;
                found = true;
            }
        }
        proof { lemma_packets_dom(self.buffer@); }
        m
    }

    /// Adds the frame work of one in-order packet; returns the frame it completes.
    fn apply(&mut self, ssrc: u32, e: BufferedPacket, marker: bool) -> (r: Option<DeliveredFrame>)
        ensures
            final(self)@.buffer == old(self)@.buffer,
            final(self)@.delivered == old(self)@.delivered,
            final(self)@.assembly == apply_packet(old(self)@.assembly, ssrc, e@, marker).0,
            match r {
                Some(f) => apply_packet(old(self)@.assembly, ssrc, e@, marker).1 == seq![f@],
                None => apply_packet(old(self)@.assembly, ssrc, e@, marker).1 == Seq::<FrameView>::empty(),
            },
    {
        if e.payload.len() == 0 {
            return None;
        }
        let taken = self.assembly.take();
        let mut frame_state = match taken {
            Some(p) => {
                let (t, a) = p;
                let mut a = a;
                if t != e.rtp_ts {
                    a.reset();
                }
                a
            },
            None => FrameAssembler::new(),
        };
        let res = frame_state.push_rtp_payload(e.payload.as_slice());
        match res {
            Err(_) => {
                self.assembly = Some((e.rtp_ts, frame_state));
                None
            },
            Ok(()) => {
                if marker {
                    let au = frame_state.finish();
                    frame_state.reset();
                    self.assembly = Some((e.rtp_ts, frame_state));
                    if au.len() > 0 {
                        Some(DeliveredFrame { ssrc, rtp_ts: e.rtp_ts, access_unit: au })
                    } else {
                        None
                    }
                } else {
                    self.assembly = Some((e.rtp_ts, frame_state));
                    None
                }
            },
        }
    }

    /// Handles one packet of this stream (see `stream_step`).
    pub fn on_packet(&mut self, ssrc: u32, seq: u16, ts: u32, marker: bool, payload: Vec<u8>, now_ns: u128) -> (r: Vec<DeliveredFrame>)
        ensures
            final(self)@.buffer.dom().finite(),
            (final(self)@, frames_view(r@)) == stream_step(old(self)@, ssrc, seq, ts, marker, payload@, now_ns),
    {
        let ghost b0 = self@.buffer;
        let e = BufferedPacket { payload, rtp_ts: ts, arrival_ns: now_ns };
        let ghost ev = e@;
        // store in the jitter buffer
        self.buffer.insert(seq, e);
        proof { assert(packets_view(self.buffer@) =~= b0.insert(seq, ev)); }
        let ghost b1 = self@.buffer;
        let mut next: u16 = match self.delivered {
            Some(d) => if d == 0xffff { 0 } else { d + 1 },
            None => {
                assert(self.buffer@.contains_key(seq));
                let m = self.lowest_seq();
                proof { lemma_min_unique(b1, m); }
                m
            },
        };
        let ghost st1 = self@;
        let ghost next0 = next;
        let mut frames: Vec<DeliveredFrame> = Vec::new();
        proof { lemma_packets_dom(self.buffer@); }
        loop
            invariant
                self.buffer@.dom().finite(),
                deliver_from(st1, ssrc, next0, marker, b1.len()) == ({
                    let rest = deliver_from(self@, ssrc, next, marker, self@.buffer.len());
                    (rest.0, frames_view(frames@) + rest.1)
                }),
            ensures
                !self@.buffer.contains_key(next),
            decreases self@.buffer.len(),
        {
            let ghost before = self@;
            proof { lemma_packets_dom(self.buffer@); }
            let taken = self.buffer.remove(&next);
            match taken {
                None => {
                    assert(packets_view(self.buffer@) =~= before.buffer);
                    break;
                },
                Some(e) => {
                    proof {
                        assert(packets_view(self.buffer@) =~= before.buffer.remove(next));
                        lemma_packets_dom(self.buffer@);
                    }
                    assert(e@ == before.buffer[next]);
                    let out = self.apply(ssrc, e, marker);
                    self.delivered = Some(next);
                    let ghost frames_before = frames_view(frames@);
                    match out {
                        Some(f) => {
                            frames.push(f);
                        },
                        None => {},
                    }
                    proof {
                        assert(frames_view(frames@) =~= frames_before + apply_packet(before.assembly, ssrc, before.buffer[next], marker).1);
                    }
                    next = if next == 0xffff { 0 } else { next + 1 };
                },
            }
        }
        let ghost after_delivery = self@;
        assert(deliver_from(after_delivery, ssrc, next, marker, after_delivery.buffer.len()).1 =~= Seq::<FrameView>::empty());
        assert(frames_view(frames@) + Seq::<FrameView>::empty() =~= frames_view(frames@));
        // drop packets that waited longer than the jitter window
        let threshold: u128 = if now_ns >= JITTER_WINDOW_NS { now_ns - JITTER_WINDOW_NS } else { 0 };
        let mut stale: Vec<u16> = Vec::new();
        let ghost m1 = self.buffer@;
        let ghost old_assembly = self.assembly;
        for k in it: self.buffer.keys()
            invariant
                self.buffer@ == m1,
                it.seq().unref().to_set() == m1.dom(),
                forall|i: int| 0 <= i < stale@.len() ==> m1.contains_key(#[trigger] stale@[i])
                    && m1[stale@[i]].arrival_ns < threshold,
                forall|i: int| 0 <= i < it.index() && m1[*it.seq()[i]].arrival_ns < threshold ==> stale@.contains(*(#[trigger] it.seq()[i])),
                it.index() == it.seq().len() ==> forall|j: u16| #[trigger] m1.contains_key(j)
                    && m1[j].arrival_ns < threshold ==> stale@.contains(j),
        {
            match self.buffer.get(k) {
                Some(p) => {
                    if p.arrival_ns < threshold {
                        let ghost before = stale@;
                        stale.push(*k);
                        assert(stale@[stale@.len() - 1] == *k);
                        assert forall|x: u16| before.contains(x) implies stale@.contains(x) by {
                            let j = choose|j: int| 0 <= j < before.len() && before[j] == x;
                            assert(stale@[j] == x);
                        }
                    }
                },
                None => {},
            }
        }
        let mut i: usize = 0;
        while i < stale.len()
            invariant
                i <= stale@.len(),
                self.delivered == after_delivery.delivered,
                self.assembly == old_assembly,
                forall|j: int| 0 <= j < stale@.len() ==> m1.contains_key(#[trigger] stale@[j]) && m1[stale@[j]].arrival_ns < threshold,
                forall|k: u16| #[trigger] m1.contains_key(k) && m1[k].arrival_ns < threshold ==> stale@.contains(k),
                forall|k: u16| #[trigger] self.buffer@.contains_key(k) <==> m1.contains_key(k) && !stale@.take(i as int).contains(k),
                forall|k: u16| #[trigger] self.buffer@.contains_key(k) ==> self.buffer@[k] == m1[k],
            decreases stale@.len() - i,
        {
            let k = stale[i];
            self.buffer.remove(&k);
            let ghost t0 = stale@.take(i as int);
            let ghost t1 = stale@.take(i + 1);
            assert(t1 =~= t0.push(k));
            assert forall|x: u16| t1.contains(x) <==> t0.contains(x) || x == k by {
                if t0.contains(x) {
                    let j = choose|j: int| 0 <= j < t0.len() && t0[j] == x;
                    assert(t1[j] == x);
                }
                if x == k {
                    assert(t1[i as int] == k);
                }
                if t1.contains(x) {
                    let j = choose|j: int| 0 <= j < t1.len() && t1[j] == x;
                    if j < i {
                        assert(t0[j] == x);
                    }
                }
            }
            i += 1;
        }
        assert(stale@.take(i as int) =~= stale@);
        assert(packets_view(self.buffer@) =~= purged(packets_view(m1), threshold));
        proof { lemma_packets_dom(self.buffer@); }
        frames
    }
}

/// Delivery after one packet stops only where the buffer runs out of the
/// next sequence number.
proof fn lemma_deliver_drains(st: StreamView, ssrc: u32, next: u16, marker: bool, fuel: nat)
    requires
        st.buffer.dom().finite(),
        fuel == st.buffer.len(),
    ensures
        ({
            let r = deliver_from(st, ssrc, next, marker, fuel).0;
            ||| (r.delivered == st.delivered && r.buffer == st.buffer && !st.buffer.contains_key(next))
            ||| (r.delivered matches Some(d) && !r.buffer.contains_key(next_seq(d)))
        }),
    decreases fuel,
{
    if fuel == 0 {
        if st.buffer.contains_key(next) {
            assert(st.buffer.dom().contains(next));
            assert(st.buffer.dom().len() > 0);
        }
    } else if st.buffer.contains_key(next) {
        let applied = apply_packet(st.assembly, ssrc, st.buffer[next], marker);
        let st2 = StreamView { buffer: st.buffer.remove(next), delivered: Some(next), assembly: applied.0 };
        assert(st2.buffer.dom() =~= st.buffer.dom().remove(next));
        lemma_deliver_drains(st2, ssrc, next_seq(next), marker, (fuel - 1) as nat);
    }
}

/// After any packet of a stream, the stream has delivered up to some sequence
/// number and its jitter buffer does not hold the one after it: packets are
/// handed on in order for as long as the next one is there.
pub proof fn lemma_step_drains(st: StreamView, ssrc: u32, seq: u16, ts: u32, marker: bool, payload: Seq<u8>, now_ns: u128)
    requires
        st.buffer.dom().finite(),
    ensures
        ({
            let r = stream_step(st, ssrc, seq, ts, marker, payload, now_ns).0;
            r.delivered matches Some(d) && !r.buffer.contains_key(next_seq(d))
        }),
{
    let e = BufferedView { payload, rtp_ts: ts, arrival_ns: now_ns };
    let b1 = st.buffer.insert(seq, e);
    let st1 = StreamView { buffer: b1, delivered: st.delivered, assembly: st.assembly };
    let next = match st.delivered {
        Some(d) => next_seq(d),
        None => min_seq(b1),
    };
    if st.delivered is None {
        lemma_min_exists(b1, seq);
    }
    lemma_deliver_drains(st1, ssrc, next, marker, b1.len());
}

/// Every stream's jitter buffer holds finitely many packets.
pub open spec fn streams_wf(m: Map<u32, StreamView>) -> bool {
    forall|k: u32| m.contains_key(k) ==> (#[trigger] m[k]).buffer.dom().finite()
}

/// The receiver state after one parsed RTP packet: the packet goes to the
/// stream of its SSRC (a new one when the SSRC is first seen).
pub open spec fn receiver_step(m: Map<u32, StreamView>, f: crate::rtp_packet::RtpFieldsView, now_ns: u128) -> (Map<u32, StreamView>, Seq<FrameView>) {
    let ssrc = f.5;
    let st = if m.contains_key(ssrc) { m[ssrc] } else { new_stream() };
    let r = stream_step(st, ssrc, f.3, f.4, f.1, f.6, now_ns);
    (m.insert(ssrc, r.0), r.1)
}

/// Receive-side state of all streams, keyed by SSRC.
pub struct Receiver {
    streams: HashMap<u32, SsrcStream>,
}

impl View for Receiver {
    type V = Map<u32, StreamView>;

    closed spec fn view(&self) -> Map<u32, StreamView> {
        self.streams@.map_values(|s: SsrcStream| s@)
    }
}

impl Receiver {
    /// Well-formedness: each jitter buffer holds finitely many packets.
    pub open spec fn wf(&self) -> bool {
        streams_wf(self@)
    }

    /// A receiver that has seen no stream.
    pub fn new() -> (r: Self)
        ensures
            r.wf(),
            r@ == Map::<u32, StreamView>::empty(),
    {
        let r = Receiver { streams: HashMap::new() };
        assert(r@ =~= Map::<u32, StreamView>::empty());
        r
    }

    /// Handles one parsed RTP packet that arrived at `now_ns` and returns the
    /// access units it completed.
    pub fn on_packet(&mut self, pkt: RtpFields, now_ns: u128) -> (r: Vec<DeliveredFrame>)
        requires
            old(self).wf(),
        ensures
            final(self).wf(),
            receiver_step(old(self)@, pkt.view_fields(), now_ns) == (final(self)@, frames_view(r@)),
    {
        let ghost m0 = self@;
        let ghost f = pkt.view_fields();
        let ssrc = pkt.ssrc;
        let taken = self.streams.remove(&ssrc);
        let mut stream = match taken {
            Some(s) => s,
            None => SsrcStream::new(),
        };
        assert(stream@ == (if m0.contains_key(ssrc) { m0[ssrc] } else { new_stream() }));
        let frames = stream.on_packet(ssrc, pkt.sequence_number, pkt.timestamp, pkt.marker, pkt.payload, now_ns);
        let ghost st2 = stream@;
        self.streams.insert(ssrc, stream);
        assert(self@ =~= m0.insert(ssrc, st2));
        assert forall|k: u32| self@.contains_key(k) implies (#[trigger] self@[k]).buffer.dom().finite() by {
            if k != ssrc {
                assert(m0.contains_key(k));
            }
        }
        frames
    }

    /// Handles one datagram that arrived at `now_ns`. A datagram shorter than
    /// an RTP header, or one the RTP parser refuses, changes nothing.
    pub fn on_datagram(&mut self, datagram: &[u8], now_ns: u128) -> (r: Vec<DeliveredFrame>)
        requires
            old(self).wf(),
        ensures
            final(self).wf(),
            datagram@.len() < RTP_HEADER_LEN ==> final(self)@ == old(self)@ && r@.len() == 0,
            datagram@.len() >= RTP_HEADER_LEN ==> match rtp_parsed(datagram@) {
                None => final(self)@ == old(self)@ && r@.len() == 0,
                Some(f) => receiver_step(old(self)@, f, now_ns) == (final(self)@, frames_view(r@)),
            },
    {
        if datagram.len() < RTP_HEADER_LEN {
            return Vec::new();
        }
        match parse_rtp(datagram) {
            Some(pkt) => self.on_packet(pkt, now_ns),
            None => Vec::new(),
        }
    }
}

} // verus!
