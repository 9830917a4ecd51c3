//! RTP packets (RFC 3550) as this library writes and reads them, framed by the
//! `rtp` crate.

use vstd::prelude::*;
use crate::wire::{be16, be32, be16_bytes, be32_bytes, read_be16};
use webrtc_util::marshal::{Marshal, Unmarshal};

verus! {

/// RTP payload type used for the H.264 video stream (dynamic range).
pub const H264_PAYLOAD_TYPE: u8 = 96;

/// Size of the fixed RTP header (no CSRC list, no extension).
pub const RTP_HEADER_LEN: usize = 12;

/// Header fields and payload of one RTP packet.
pub struct RtpFields {
    pub version: u8,
    pub marker: bool,
    pub payload_type: u8,
    pub sequence_number: u16,
    pub timestamp: u32,
    pub ssrc: u32,
    pub payload: Vec<u8>,
}

/// Plain-value form of a packet's fields: version, marker, payload type,
/// sequence number, timestamp, SSRC, payload.
pub type RtpFieldsView = (u8, bool, u8, u16, u32, u32, Seq<u8>);

impl RtpFields {
    pub open spec fn view_fields(&self) -> RtpFieldsView {
        (self.version, self.marker, self.payload_type, self.sequence_number, self.timestamp, self.ssrc, self.payload@)
    }
}

/// Plain-value form of an optional packet.
pub open spec fn opt_fields_view(o: Option<RtpFields>) -> Option<RtpFieldsView> {
    match o {
        Some(f) => Some(f.view_fields()),
        None => None,
    }
}

/// The second header byte: marker bit over the 7-bit payload type.
pub open spec fn marker_pt_byte(marker: bool, payload_type: u8) -> u8 {
    (if marker { payload_type + 128 } else { payload_type as int }) as u8
}

/// Wire bytes of a version-2 RTP packet without padding, extension or CSRC list.
pub open spec fn rtp_packet_bytes(marker: bool, payload_type: u8, seq: u16, ts: u32, ssrc: u32, payload: Seq<u8>) -> Seq<u8> {
    seq![0x80u8, marker_pt_byte(marker, payload_type)] + be16_bytes(seq) + be32_bytes(ts) + be32_bytes(ssrc) + payload
}

/// What `rtp::packet::Packet::unmarshal` makes of a datagram: `None` when it
/// refuses it, else the header fields and the payload it keeps.
pub uninterp spec fn rtp_unmarshal_result(datagram: Seq<u8>) -> Option<RtpFieldsView>;

/// Fields of a datagram with a plain 12-byte header (no padding, no extension,
/// no CSRC), read as RFC 3550 lays them out.
pub open spec fn plain_header_fields(b: Seq<u8>) -> RtpFieldsView {
    (
        b[0] / 64,
        b[1] >= 128,
        b[1] % 128,
        be16(b, 2) as u16,
        be32(b, 4) as u32,
        be32(b, 8) as u32,
        b.subrange(12, b.len() as int),
    )
}

/// Walk of one-byte header extension elements (RFC 8285) from `cur` to
/// `end`: false where an element claims more bytes than the datagram has left.
pub open spec fn one_byte_walk_safe(d: Seq<u8>, cur: int, end: int) -> bool
    decreases end - cur,
{
    if cur >= end {
        true
    } else if d[cur] == 0 {
        one_byte_walk_safe(d, cur + 1, end)
    } else if d[cur] / 16 == 15 {
        true
    } else {
        let len = d[cur] % 16 + 1;
        if d.len() - (cur + 1) < len {
            false
        } else if cur + 1 + len >= end {
            true
        } else {
            one_byte_walk_safe(d, cur + 1 + len, end)
        }
    }
}

/// Walk of two-byte header extension elements (RFC 8285) from `cur` to
/// `end`: false where an element's length byte or data runs past the datagram.
pub open spec fn two_byte_walk_safe(d: Seq<u8>, cur: int, end: int) -> bool
    decreases end - cur,
{
    if cur >= end {
        true
    } else if d[cur] == 0 {
        two_byte_walk_safe(d, cur + 1, end)
    } else if cur + 1 >= d.len() {
        false
    } else if d.len() - (cur + 2) < d[cur + 1] {
        false
    } else if cur + 2 + d[cur + 1] >= end {
        true
    } else {
        two_byte_walk_safe(d, cur + 2 + d[cur + 1], end)
    }
}

/// A datagram with the extension bit set and a one-byte (0xBEDE) or two-byte
/// (0x1000) header extension that fits the datagram but whose elements claim
/// more bytes than it has: the `rtp` crate's header parser reads past its end.
pub open spec fn rtp_extension_overruns(d: Seq<u8>) -> bool {
    let off = 12 + (d[0] % 16) * 4;
    let start = off + 4;
    &&& d.len() >= 12
    &&& (d[0] / 16) % 2 == 1
    &&& d.len() >= start
    &&& d.len() >= start + be16(d, off + 2) * 4
    &&& ((be16(d, off) == 0xBEDE && !one_byte_walk_safe(d, start, start + be16(d, off + 2) * 4))
        || (be16(d, off) == 0x1000 && !two_byte_walk_safe(d, start, start + be16(d, off + 2) * 4)))
}

/// What this library reads from a datagram: what the `rtp` crate makes of it,
/// except that a datagram whose header extension overruns it is refused.
pub open spec fn rtp_parsed(d: Seq<u8>) -> Option<RtpFieldsView> {
    if rtp_extension_overruns(d) {
        None
    } else {
        rtp_unmarshal_result(d)
    }
}

fn check_one_byte_walk(d: &[u8], start: usize, end: usize) -> (r: bool)
    requires
        start <= end <= d@.len(),
    ensures
        r == one_byte_walk_safe(d@, start as int, end as int),
{
    let mut cur = start;
    while cur < end
        invariant
            start <= cur,
            end <= d@.len(),
            one_byte_walk_safe(d@, start as int, end as int) == one_byte_walk_safe(d@, cur as int, end as int),
        decreases end - cur,
    {
        let b = d[cur];
        if b == 0 {
            cur = cur + 1;
        } else if b / 16 == 15 {
            return true;
        } else {
            let len: usize = (b % 16) as usize + 1;
            if d.len() - (cur + 1) < len {
                return false;
            }
            if cur + 1 + len >= end {
                return true;
            }
            cur = cur + 1 + len;
        }
    }
    true
}

fn check_two_byte_walk(d: &[u8], start: usize, end: usize) -> (r: bool)
    requires
        start <= end <= d@.len(),
    ensures
        r == two_byte_walk_safe(d@, start as int, end as int),
{
    let mut cur = start;
    while cur < end
        invariant
            start <= cur,
            end <= d@.len(),
            two_byte_walk_safe(d@, start as int, end as int) == two_byte_walk_safe(d@, cur as int, end as int),
        decreases end - cur,
    {
        if d[cur] == 0 {
            cur = cur + 1;
        } else if cur + 1 >= d.len() {
            return false;
        } else {
            let len: usize = d[cur + 1] as usize;
            if d.len() - (cur + 2) < len {
                return false;
            }
            if cur + 2 + len >= end {
                return true;
            }
            cur = cur + 2 + len;
        }
    }
    true
}

/// Whether a datagram's header extension overruns it (see `rtp_extension_overruns`).
fn check_extension_overrun(d: &[u8]) -> (r: bool)
    ensures
        r == rtp_extension_overruns(d@),
{
    if d.len() < 12 || (d[0] / 16) % 2 != 1 {
        return false;
    }
    let off: usize = 12 + (d[0] % 16) as usize * 4;
    let start = off + 4;
    if d.len() < start {
        return false;
    }
    let profile = read_be16(d, off);
    let ext_len: usize = read_be16(d, off + 2) as usize * 4;
    if d.len() - start < ext_len {
        return false;
    }
    if profile == 0xBEDE {
        !check_one_byte_walk(d, start, start + ext_len)
    } else if profile == 0x1000 {
        !check_two_byte_walk(d, start, start + ext_len)
    } else {
        false
    }
}

/// Serialises a packet with `rtp::packet::Packet::marshal` (from the
/// `webrtc_util::marshal::Marshal` trait). For version 2 with no padding,
/// extension or CSRC the crate writes the first byte 0x80, then the marker bit
/// over the payload type, the sequence number, timestamp and SSRC in network
/// order, then the payload; it cannot fail for such a header.
#[verifier::external_body]
pub(crate) fn marshal_rtp(marker: bool, payload_type: u8, seq: u16, ts: u32, ssrc: u32, payload: &[u8]) -> (out: Vec<u8>)
    requires
        payload_type < 128,
    ensures
        out@ == rtp_packet_bytes(marker, payload_type, seq, ts, ssrc, payload@),
{
    let mut pkt = rtp::packet::Packet::default();
    pkt.header.version = 2;
    pkt.header.payload_type = payload_type;
    pkt.header.sequence_number = seq;
    pkt.header.timestamp = ts;
    pkt.header.ssrc = ssrc;
    pkt.header.marker = marker;
    pkt.payload = bytes::Bytes::copy_from_slice(payload);
    match pkt.marshal() {
        Ok(b) => b.to_vec(),
        Err(_) => Vec::new(),
    }
}

/// Parses a datagram with `rtp::packet::Packet::unmarshal` (from
/// `webrtc_util::marshal::Unmarshal`). The crate refuses anything shorter than
/// the 12-byte fixed header, and reads a datagram whose first byte has no
/// padding, extension or CSRC bits as the fixed header followed by the payload.
/// What it does with padding, extensions and CSRC lists is left to the name.
/// Datagrams whose one- or two-byte header extension elements claim more bytes
/// than are left are excluded: the source reads past their end.
#[verifier::external_body]
pub(crate) fn unmarshal_rtp(datagram: &[u8]) -> (r: Option<RtpFields>)
    requires
        !rtp_extension_overruns(datagram@),
    ensures
        opt_fields_view(r) == rtp_unmarshal_result(datagram@),
        datagram@.len() < 12 ==> r is None,
        datagram@.len() >= 12 && datagram@[0] % 64 == 0 ==> opt_fields_view(r) == Some(plain_header_fields(datagram@)),
{
    let mut buf: &[u8] = datagram;
    match rtp::packet::Packet::unmarshal(&mut buf) {
        Ok(pkt) => Some(RtpFields {
            version: pkt.header.version,
            marker: pkt.header.marker,
            payload_type: pkt.header.payload_type,
            sequence_number: pkt.header.sequence_number,
            timestamp: pkt.header.timestamp,
            ssrc: pkt.header.ssrc,
            payload: pkt.payload.to_vec(),
        }),
        Err(_) => None,
    }
}

/// Wire bytes of one RTP packet of this library's streams (version 2, no
/// padding, extension or CSRC).
pub fn rtp_packet(marker: bool, payload_type: u8, seq: u16, ts: u32, ssrc: u32, payload: &[u8]) -> (out: Vec<u8>)
    requires
        payload_type < 128,
    ensures
        out@ == rtp_packet_bytes(marker, payload_type, seq, ts, ssrc, payload@),
        out@.len() == RTP_HEADER_LEN + payload@.len(),
{
    marshal_rtp(marker, payload_type, seq, ts, ssrc, payload)
}

/// Fields of a received RTP datagram, or `None` where the packet cannot be
/// read (a header extension that overruns the datagram included).
pub fn parse_rtp(datagram: &[u8]) -> (r: Option<RtpFields>)
    ensures
        opt_fields_view(r) == rtp_parsed(datagram@),
        datagram@.len() < 12 ==> r is None,
        datagram@.len() >= 12 && datagram@[0] % 64 == 0 ==> opt_fields_view(r) == Some(plain_header_fields(datagram@)),
{
    if check_extension_overrun(datagram) {
        return None;
    }
    unmarshal_rtp(datagram)
}

/// A packet this library writes reads back with the same header fields and payload.
pub proof fn lemma_rtp_roundtrip(marker: bool, payload_type: u8, seq: u16, ts: u32, ssrc: u32, payload: Seq<u8>)
    requires
        payload_type < 128,
    ensures
        ({
            let b = rtp_packet_bytes(marker, payload_type, seq, ts, ssrc, payload);
            &&& b.len() >= 12
            &&& b[0] % 64 == 0
            &&& plain_header_fields(b) == (2u8, marker, payload_type, seq, ts, ssrc, payload)
        }),
{
    let b = rtp_packet_bytes(marker, payload_type, seq, ts, ssrc, payload);
    assert(b.subrange(2, 4) =~= be16_bytes(seq));
    assert(b.subrange(4, 8) =~= be32_bytes(ts));
    assert(b.subrange(8, 12) =~= be32_bytes(ssrc));
    assert(b.subrange(12, b.len() as int) =~= payload);
    crate::wire::lemma_be16_at(b, 2, seq);
    crate::wire::lemma_be32_at(b, 4, ts);
    crate::wire::lemma_be32_at(b, 8, ssrc);
}

} // verus!
