//! Minimal RTCP (RFC 3550): Sender Reports and the ZeroCast receiver-feedback APP packet.

use vstd::prelude::*;
use crate::wire::{be16, be32, be16_bytes, be32_bytes, be16_parts, be32_parts, read_be16, read_be32};

verus! {

/// Seconds between the NTP epoch (1900) and the Unix epoch (1970).
pub const NTP_UNIX_OFFSET: u64 = 2_208_988_800;
/// Nanoseconds per second.
pub const NS_PER_SEC: u128 = 1_000_000_000;
/// RTCP version field (V=2).
pub const RTCP_VERSION: u8 = 2;
/// Packet type of a Sender Report.
pub const RTCP_PT_SR: u8 = 200;
/// Minimum SR size: header, SSRC, NTP time, RTP time, packet and octet counts.
pub const RTCP_SR_MIN_LEN: usize = 28;
/// RTCP length field of a minimal SR (32-bit words minus one).
pub const RTCP_SR_LENGTH_WORDS: u16 = 6;
/// First header byte for V=2, P=0, report count 0.
pub const RTCP_HDR_V2_RC0: u8 = 0x80;
/// Packet type of an application-defined packet.
pub const RTCP_PT_APP: u8 = 204;
/// Size of the receiver-feedback APP packet.
pub const RECV_FEEDBACK_LEN: usize = 24;

/// Parsed RTCP Sender Report anchor for A/V sync.
#[derive(Debug, Clone, Copy, PartialEq, Eq, Structural)]
pub struct RtcpSrAnchor {
    pub ssrc: u32,
    pub rtp_ts: u32,
    pub wall_ns: u128,
}

/// Unix time in nanoseconds of an NTP timestamp; times before 1970 map to the epoch.
pub open spec fn ntp_wall_ns(ntp_secs: u32, ntp_frac: u32) -> int {
    let unix_secs: int = if ntp_secs >= NTP_UNIX_OFFSET { ntp_secs - NTP_UNIX_OFFSET } else { 0 };
    unix_secs * 1_000_000_000 + (ntp_frac as int * 1_000_000_000) / 4294967296
}

/// The Sender Report in `b`, if `b` holds one: at least 28 bytes, version 2,
/// packet type 200, and a length field covering at least 28 bytes, all of
/// them present.
pub open spec fn rtcp_sr_of(b: Seq<u8>) -> Option<RtcpSrAnchor> {
    if b.len() < 28 || b[0] / 64 != 2 || b[1] != 200 {
        None
    } else {
        let packet_len = (be16(b, 2) + 1) * 4;
        if packet_len < 28 || b.len() < packet_len {
            None
        } else {
            Some(RtcpSrAnchor {
                ssrc: be32(b, 4) as u32,
                rtp_ts: be32(b, 16) as u32,
                wall_ns: ntp_wall_ns(be32(b, 8) as u32, be32(b, 12) as u32) as u128,
            })
        }
    }
}

proof fn lemma_ntp_wall_ns_bounds(ntp_secs: u32, ntp_frac: u32)
    ensures
        0 <= ntp_wall_ns(ntp_secs, ntp_frac) <= 4294967296 * 1_000_000_000,
{
    let unix_secs: int = if ntp_secs >= NTP_UNIX_OFFSET { ntp_secs - NTP_UNIX_OFFSET } else { 0 };
    assert(0 <= (ntp_frac as int * 1_000_000_000) / 4294967296 < 1_000_000_000) by (nonlinear_arith)
        requires 0 <= ntp_frac < 4294967296;
    assert(unix_secs * 1_000_000_000 <= 4294967295 * 1_000_000_000) by (nonlinear_arith)
        requires 0 <= unix_secs <= 4294967295;
}

/// Unix time in nanoseconds of an NTP timestamp.
pub fn ntp_to_wall_ns(ntp_secs: u32, ntp_frac: u32) -> (res: u128)
    ensures
        res as int == ntp_wall_ns(ntp_secs, ntp_frac),
{
    proof {
        lemma_ntp_wall_ns_bounds(ntp_secs, ntp_frac);
    }
    let unix_secs: u128 = if ntp_secs as u64 >= NTP_UNIX_OFFSET {
        (ntp_secs as u64 - NTP_UNIX_OFFSET) as u128
    } else {
        0
    };
    let frac_ns = ((ntp_frac as u128) * NS_PER_SEC) / 4294967296u128;
    unix_secs * NS_PER_SEC + frac_ns
}

/// Parses an RTCP Sender Report from a UDP payload (see [`rtcp_sr_of`]).
pub fn parse_rtcp_sr(buf: &[u8]) -> (res: Option<RtcpSrAnchor>)
    ensures
        res == rtcp_sr_of(buf@),
{
    if buf.len() < RTCP_SR_MIN_LEN {
        return None;
    }
    let b0 = buf[0];
    let version = b0 >> 6;
    assert(version == b0 / 64) by (bit_vector)
        requires version == b0 >> 6;
    if version != RTCP_VERSION {
        return None;
    }
    if buf[1] != RTCP_PT_SR {
        return None;
    }
    let length_words = read_be16(buf, 2);
    let packet_len = (length_words as usize + 1) * 4;
    if packet_len < RTCP_SR_MIN_LEN || buf.len() < packet_len {
        return None;
    }
    let ssrc = read_be32(buf, 4);
    let ntp_secs = read_be32(buf, 8);
    let ntp_frac = read_be32(buf, 12);
    let rtp_ts = read_be32(buf, 16);
    Some(RtcpSrAnchor { ssrc, rtp_ts, wall_ns: ntp_to_wall_ns(ntp_secs, ntp_frac) })
}

/// Bytes of the minimal 28-byte Sender Report (packet and octet counts zero).
pub open spec fn rtcp_sr_bytes(ssrc: u32, rtp_ts: u32, ntp_secs: u32, ntp_frac: u32) -> Seq<u8> {
    seq![0x80u8, 200u8] + be16_bytes(6) + be32_bytes(ssrc) + be32_bytes(ntp_secs) + be32_bytes(ntp_frac)
        + be32_bytes(rtp_ts) + seq![0u8, 0u8, 0u8, 0u8, 0u8, 0u8, 0u8, 0u8]
}

/// Builds a minimal RTCP Sender Report (28 bytes).
pub fn build_rtcp_sr(ssrc: u32, rtp_ts: u32, ntp_secs: u32, ntp_frac: u32) -> (res: [u8; 28])
    ensures
        res@ == rtcp_sr_bytes(ssrc, rtp_ts, ntp_secs, ntp_frac),
{
    let (l0, l1) = be16_parts(RTCP_SR_LENGTH_WORDS);
    let (s0, s1, s2, s3) = be32_parts(ssrc);
    let (n0, n1, n2, n3) = be32_parts(ntp_secs);
    let (f0, f1, f2, f3) = be32_parts(ntp_frac);
    let (t0, t1, t2, t3) = be32_parts(rtp_ts);
    let sr = [
        RTCP_HDR_V2_RC0, RTCP_PT_SR, l0, l1, s0, s1, s2, s3, n0, n1, n2, n3, f0, f1, f2, f3, t0, t1,
        t2, t3, 0, 0, 0, 0, 0, 0, 0, 0,
    ];
    assert(sr@ =~= rtcp_sr_bytes(ssrc, rtp_ts, ntp_secs, ntp_frac));
    sr
}

/// NTP timestamp of a Unix time in nanoseconds: whole seconds (taken modulo
/// 2^64, offset by the NTP epoch with saturation, then modulo 2^32) and the
/// fraction of a second in units of 2^-32 s.
pub open spec fn ntp_of_wall(now_ns: u128) -> (u32, u32) {
    let unix_secs = (now_ns / 1_000_000_000) as u64;
    let unix_nanos = now_ns % 1_000_000_000;
    let ntp_secs = if unix_secs + NTP_UNIX_OFFSET > u64::MAX {
        u64::MAX
    } else {
        (unix_secs + NTP_UNIX_OFFSET) as u64
    };
    (ntp_secs as u32, ((unix_nanos * 4294967296) / 1_000_000_000) as u32)
}

/// NTP timestamp (seconds, fraction) of a Unix time in nanoseconds.
pub fn wall_to_ntp(now_ns: u128) -> (res: (u32, u32))
    ensures
        res == ntp_of_wall(now_ns),
{
    let unix_secs = (now_ns / NS_PER_SEC) as u64;
    let unix_nanos = now_ns % NS_PER_SEC;
    let ntp_secs = unix_secs.saturating_add(NTP_UNIX_OFFSET) as u32;
    let ntp_frac = ((unix_nanos * 4294967296u128) / NS_PER_SEC) as u32;
    (ntp_secs, ntp_frac)
}

/// Receiver-to-sender QoS feedback, in the units carried on the wire.
#[derive(Debug, Clone, Copy, PartialEq, Eq, Structural)]
pub struct RecvFeedback {
    /// Fraction of packets lost over the window, in 1/255 units.
    pub loss_fraction: u8,
    /// Inter-arrival jitter estimate (ms).
    pub jitter_ms: u16,
    /// Decode queue lag (ms).
    pub decode_lag_ms: u16,
    /// Frames dropped because decode or display fell behind.
    pub dropped_frames: u16,
}

/// Bytes of the 24-byte ZeroCast feedback APP packet.
pub open spec fn recv_feedback_bytes(ssrc: u32, fb: RecvFeedback) -> Seq<u8> {
    seq![0x80u8, 204u8] + be16_bytes(3) + be32_bytes(ssrc) + seq!['Z' as u8, 'C' as u8, 's' as u8, 't' as u8]
        + seq![1u8, fb.loss_fraction] + be16_bytes(fb.decode_lag_ms) + be16_bytes(fb.jitter_ms)
        + be16_bytes(fb.dropped_frames) + seq![0u8, 0u8, 0u8, 0u8]
}

/// The feedback in `b`, if `b` holds a ZeroCast feedback packet: at least 20
/// bytes, version 2, packet type 204, name `ZCst`, feedback version 1.
pub open spec fn recv_feedback_of(b: Seq<u8>) -> Option<RecvFeedback> {
    if b.len() < 20 || b[0] / 64 != 2 || b[1] != 204 || b.subrange(8, 12) != seq![
        'Z' as u8,
        'C' as u8,
        's' as u8,
        't' as u8,
    ] || b[12] != 1 {
        None
    } else {
        Some(RecvFeedback {
            loss_fraction: b[13],
            decode_lag_ms: be16(b, 14) as u16,
            jitter_ms: be16(b, 16) as u16,
            dropped_frames: be16(b, 18) as u16,
        })
    }
}

/// Builds the ZeroCast receiver-feedback APP packet (24 bytes).
pub fn build_recv_feedback(ssrc: u32, fb: RecvFeedback) -> (res: [u8; 24])
    ensures
        res@ == recv_feedback_bytes(ssrc, fb),
{
    let (l0, l1) = be16_parts(3);
    let (s0, s1, s2, s3) = be32_parts(ssrc);
    let (d0, d1) = be16_parts(fb.decode_lag_ms);
    let (j0, j1) = be16_parts(fb.jitter_ms);
    let (p0, p1) = be16_parts(fb.dropped_frames);
    let pkt = [
        RTCP_HDR_V2_RC0, RTCP_PT_APP, l0, l1, s0, s1, s2, s3, 'Z' as u8, 'C' as u8, 's' as u8,
        't' as u8, 1, fb.loss_fraction, d0, d1, j0, j1, p0, p1, 0, 0, 0, 0,
    ];
    assert(pkt@ =~= recv_feedback_bytes(ssrc, fb));
    pkt
}

/// Parses a ZeroCast receiver-feedback packet (see [`recv_feedback_of`]).
pub fn parse_recv_feedback(buf: &[u8]) -> (res: Option<RecvFeedback>)
    ensures
        res == recv_feedback_of(buf@),
{
    if buf.len() < 20 {
        return None;
    }
    let b0 = buf[0];
    let version = b0 >> 6;
    assert(version == b0 / 64) by (bit_vector)
        requires version == b0 >> 6;
    if version != RTCP_VERSION || buf[1] != RTCP_PT_APP {
        return None;
    }
    let name_ok = buf[8] == 'Z' as u8 && buf[9] == 'C' as u8 && buf[10] == 's' as u8 && buf[11] == 't' as u8;
    assert(name_ok == (buf@.subrange(8, 12) == seq!['Z' as u8, 'C' as u8, 's' as u8, 't' as u8])) by {
        if name_ok {
            assert(buf@.subrange(8, 12) =~= seq!['Z' as u8, 'C' as u8, 's' as u8, 't' as u8]);
        } else if buf@.subrange(8, 12) == seq!['Z' as u8, 'C' as u8, 's' as u8, 't' as u8] {
            assert(buf@.subrange(8, 12)[0] == buf@[8]);
            assert(buf@.subrange(8, 12)[1] == buf@[9]);
            assert(buf@.subrange(8, 12)[2] == buf@[10]);
            assert(buf@.subrange(8, 12)[3] == buf@[11]);
        }
    }
    if !name_ok {
        return None;
    }
    if buf[12] != 1 {
        return None;
    }
    Some(RecvFeedback {
        loss_fraction: buf[13],
        decode_lag_ms: read_be16(buf, 14),
        jitter_ms: read_be16(buf, 16),
        dropped_frames: read_be16(buf, 18),
    })
}

} // verus!

verus! {

/// A built Sender Report parses back to its SSRC, RTP timestamp and the
/// wall-clock time of its NTP timestamp.
pub proof fn lemma_rtcp_sr_roundtrip(ssrc: u32, rtp_ts: u32, ntp_secs: u32, ntp_frac: u32)
    ensures
        rtcp_sr_of(rtcp_sr_bytes(ssrc, rtp_ts, ntp_secs, ntp_frac)) == Some(RtcpSrAnchor {
            ssrc,
            rtp_ts,
            wall_ns: ntp_wall_ns(ntp_secs, ntp_frac) as u128,
        }),
{
    let b = rtcp_sr_bytes(ssrc, rtp_ts, ntp_secs, ntp_frac);
    assert(b.len() == 28);
    assert(b[0] == 0x80u8);
    assert(b[1] == 200u8);
    assert(b.subrange(2, 4) =~= be16_bytes(6));
    assert(b.subrange(4, 8) =~= be32_bytes(ssrc));
    assert(b.subrange(8, 12) =~= be32_bytes(ntp_secs));
    assert(b.subrange(12, 16) =~= be32_bytes(ntp_frac));
    assert(b.subrange(16, 20) =~= be32_bytes(rtp_ts));
    crate::wire::lemma_be16_at(b, 2, 6);
    crate::wire::lemma_be32_at(b, 4, ssrc);
    crate::wire::lemma_be32_at(b, 8, ntp_secs);
    crate::wire::lemma_be32_at(b, 12, ntp_frac);
    crate::wire::lemma_be32_at(b, 16, rtp_ts);
}

/// A built feedback packet parses back to the same feedback.
pub proof fn lemma_recv_feedback_roundtrip(ssrc: u32, fb: RecvFeedback)
    ensures
        recv_feedback_of(recv_feedback_bytes(ssrc, fb)) == Some(fb),
{
    let b = recv_feedback_bytes(ssrc, fb);
    assert(b.len() == 24);
    assert(b[0] == 0x80u8);
    assert(b[1] == 204u8);
    assert(b.subrange(8, 12) =~= seq!['Z' as u8, 'C' as u8, 's' as u8, 't' as u8]);
    assert(b[12] == 1u8);
    assert(b[13] == fb.loss_fraction);
    assert(b.subrange(14, 16) =~= be16_bytes(fb.decode_lag_ms));
    assert(b.subrange(16, 18) =~= be16_bytes(fb.jitter_ms));
    assert(b.subrange(18, 20) =~= be16_bytes(fb.dropped_frames));
    crate::wire::lemma_be16_at(b, 14, fb.decode_lag_ms);
    crate::wire::lemma_be16_at(b, 16, fb.jitter_ms);
    crate::wire::lemma_be16_at(b, 18, fb.dropped_frames);
}

/// Converting a Unix time to NTP and back loses less than a nanosecond of
/// precision (the result is the time itself or one nanosecond earlier), for
/// times within the current NTP era.
pub proof fn lemma_wall_ntp_roundtrip(now_ns: u128)
    requires
        now_ns / 1_000_000_000 + NTP_UNIX_OFFSET < 4294967296,
    ensures
        ({
            let (s, f) = ntp_of_wall(now_ns);
            now_ns - 1 <= ntp_wall_ns(s, f) <= now_ns
        }),
{
    let secs = now_ns / 1_000_000_000;
    let n = now_ns % 1_000_000_000;
    let (s, f) = ntp_of_wall(now_ns);
    assert(s == secs + NTP_UNIX_OFFSET);
    let q = (n * 4294967296) / 1_000_000_000;
    assert(q < 4294967296) by (nonlinear_arith)
        requires n < 1_000_000_000, q == (n * 4294967296) / 1_000_000_000;
    assert(f == q);
    let back = (q * 1_000_000_000) / 4294967296;
    assert(n - 1 <= back <= n) by (nonlinear_arith)
        requires
            0 <= n < 1_000_000_000,
            q == (n * 4294967296) / 1_000_000_000,
            back == (q * 1_000_000_000) / 4294967296,
    ;
    assert(now_ns == secs * 1_000_000_000 + n);
}

} // verus!
