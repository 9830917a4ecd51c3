//! H.264 over RTP (RFC 6184): Annex-B framing for the payloader, packetisation
//! and depacketisation through the `rtp` crate, and frame reassembly.

use vstd::prelude::*;
use vstd::slice::slice_to_vec;
use crate::nal::{byte_views, extend_bytes};
use crate::wire::be32_bytes;
use rtp::packetizer::{Depacketizer, Payloader};

verus! {

#[verifier::external_type_specification]
#[verifier::external_body]
pub struct ExH264Packet(rtp::codecs::h264::H264Packet);


/// Largest RTP payload that stays clear of IP fragmentation on a typical LAN MTU.
pub const MAX_RTP_PAYLOAD: usize = 1200;

/// The 4-byte Annex-B start code.
pub open spec fn start_code4() -> Seq<u8> {
    seq![0u8, 0u8, 0u8, 1u8]
}

/// `n` begins with a 4-byte start code.
pub open spec fn begins_with_start4(n: Seq<u8>) -> bool {
    n.len() >= 4 && n[0] == 0 && n[1] == 0 && n[2] == 0 && n[3] == 1
}

/// `n` begins with a 4- or 3-byte start code.
pub open spec fn begins_with_start_code(n: Seq<u8>) -> bool {
    begins_with_start4(n) || (n.len() >= 3 && n[0] == 0 && n[1] == 0 && n[2] == 1)
}

/// `n` as it stands in an Annex-B stream: unchanged where it already begins
/// with a start code, else behind a 4-byte one.
pub open spec fn with_start_code(n: Seq<u8>) -> Seq<u8> {
    if begins_with_start_code(n) {
        n
    } else {
        start_code4() + n
    }
}

/// The Annex-B stream of a list of NAL units, in order.
pub open spec fn annex_b_stream(ns: Seq<Seq<u8>>) -> Seq<u8>
    decreases ns.len(),
{
    if ns.len() == 0 {
        Seq::empty()
    } else {
        annex_b_stream(ns.drop_last()) + with_start_code(ns.last())
    }
}

/// Concatenates NAL units into one Annex-B byte stream for the payloader,
/// adding a 4-byte start code to each unit that has none.
pub fn nalus_to_annex_b(nalus: &[Vec<u8>]) -> (out: Vec<u8>)
    ensures
        out@ == annex_b_stream(byte_views(nalus@)),
{
    let mut out: Vec<u8> = Vec::new();
    let mut i: usize = 0;
    while i < nalus.len()
        invariant
            i <= nalus@.len(),
            out@ == annex_b_stream(byte_views(nalus@).take(i as int)),
        decreases nalus@.len() - i,
    {
        let nal = &nalus[i];
        let has4 = nal.len() >= 4 && nal[0] == 0 && nal[1] == 0 && nal[2] == 0 && nal[3] == 1;
        let has3 = nal.len() >= 3 && nal[0] == 0 && nal[1] == 0 && nal[2] == 1;
        if !(has4 || has3) {
            let start: [u8; 4] = [0, 0, 0, 1];
            assert(start@ =~= start_code4());
            extend_bytes(&mut out, &start);
        }
        extend_bytes(&mut out, nal.as_slice());
        proof {
            let vs = byte_views(nalus@);
            assert(vs.take(i + 1).drop_last() =~= vs.take(i as int));
            assert(vs.take(i + 1).last() == nalus@[i as int]@);
            assert(out@ =~= annex_b_stream(vs.take(i + 1)));
        }
        i += 1;
    }
    assert(byte_views(nalus@).take(nalus@.len() as int) =~= byte_views(nalus@));
    out
}

/// No `00 00 01` start-code prefix occurs inside `n`.
pub open spec fn no_start_code_in(n: Seq<u8>) -> bool {
    forall|i: int| #![trigger n[i]] 0 <= i && i + 2 < n.len() ==> !(n[i] == 0 && n[i + 1] == 0 && n[i + 2] == 1)
}

/// A NAL unit the payloader sends on its own: not empty, no start code
/// inside, and not a parameter set, access unit delimiter or filler (which the
/// payloader holds back or drops).
pub open spec fn plain_nal(n: Seq<u8>) -> bool {
    &&& n.len() >= 1
    &&& no_start_code_in(n)
    &&& n[0] % 32 != 7 && n[0] % 32 != 8 && n[0] % 32 != 9 && n[0] % 32 != 12
}

/// FU-A indicator for a unit with header byte `h`: its NRI bits over type 28.
pub open spec fn fu_indicator(h: u8) -> u8 {
    (28 + (h / 32 % 4) * 32) as u8
}

/// FU-A header for a unit with header byte `h`: its type, with the start bit
/// on the first fragment and the end bit on the last.
pub open spec fn fu_header(h: u8, first: bool, last: bool) -> u8 {
    (h % 32 + if first { 128int } else if last { 64int } else { 0int }) as u8
}

/// The fragment bytes of FU-A payloads (each after its 2-byte FU header), in order.
pub open spec fn fragment_data(ps: Seq<Seq<u8>>) -> Seq<u8>
    decreases ps.len(),
{
    if ps.len() == 0 {
        Seq::empty()
    } else {
        fragment_data(ps.drop_last()) + ps.last().skip(2)
    }
}

/// `ps` are FU-A fragments of the unit `n` (RFC 6184 section 5.8): at least
/// two, each an FU indicator, an FU header and a non-empty piece of the unit
/// after its header byte, the pieces together making up that rest.
pub open spec fn fu_a_payloads(ps: Seq<Seq<u8>>, n: Seq<u8>) -> bool {
    &&& ps.len() >= 2
    &&& forall|i: int| 0 <= i < ps.len() ==> (#[trigger] ps[i]).len() >= 3
        && ps[i][0] == fu_indicator(n[0])
        && ps[i][1] == fu_header(n[0], i == 0, i == ps.len() - 1)
    &&& fragment_data(ps) == n.skip(1)
}

/// The payloads of a plain unit at an MTU: the unit itself when it fits,
/// else its FU-A fragments.
#[verifier::opaque]
pub open spec fn plain_nal_payloads(ps: Seq<Seq<u8>>, n: Seq<u8>, mtu: usize) -> bool {
    if n.len() <= mtu {
        ps == seq![n]
    } else {
        fu_a_payloads(ps, n)
    }
}

/// The RTP payloads that `rtp::codecs::h264::H264Payloader::payload` cuts an
/// Annex-B stream into for a given MTU (single NAL units, STAP-A with the
/// parameter sets, FU-A fragments), from a fresh payloader.
pub uninterp spec fn h264_payloads(mtu: usize, annex_b: Seq<u8>) -> Seq<Seq<u8>>;

/// Calls `H264Payloader::payload` on a fresh payloader. Its source returns
/// no payload for an empty stream or an MTU of 0, never fails, and never
/// produces a payload longer than the MTU (single units and STAP-A only when
/// they fit, FU-A fragments of MTU minus the 2-byte FU header). A stream that
/// is one 4-byte start code and a plain unit comes out as that unit when it
/// fits the MTU, else (MTU of at least 3) as its FU-A fragments: the first
/// with the start bit, the last with the end bit. Other streams (several units,
/// parameter sets packed into STAP-A) are left to the name.
#[verifier::external_body]
fn payload_h264(annex_b: &[u8], mtu: usize) -> (r: Vec<Vec<u8>>)
    ensures
        byte_views(r@) == h264_payloads(mtu, annex_b@),
        annex_b@.len() == 0 || mtu == 0 ==> r@.len() == 0,
        forall|i: int| 0 <= i < r@.len() ==> #[trigger] r@[i]@.len() <= mtu,
        begins_with_start4(annex_b@) && plain_nal(annex_b@.skip(4)) && mtu >= 3 ==> plain_nal_payloads(
            byte_views(r@),
            annex_b@.skip(4),
            mtu,
        ),
{
    let mut payloader = rtp::codecs::h264::H264Payloader::default();
    match payloader.payload(mtu, &bytes::Bytes::copy_from_slice(annex_b)) {
        Ok(payloads) => payloads.into_iter().map(|p| p.to_vec()).collect(),
        Err(_) => Vec::new(),
    }
}

/// Splits an access unit into RTP payloads (single NAL, STAP-A or FU-A, RFC 6184).
/// A single plain unit behind a 4-byte start code comes out whole when it
/// fits the MTU, else as FU-A fragments.
pub fn packetize_annex_b(annex_b: &[u8], mtu: usize) -> (r: Vec<Vec<u8>>)
    ensures
        byte_views(r@) == h264_payloads(mtu, annex_b@),
        annex_b@.len() == 0 || mtu == 0 ==> r@.len() == 0,
        forall|i: int| 0 <= i < r@.len() ==> #[trigger] r@[i]@.len() <= mtu,
        begins_with_start4(annex_b@) && plain_nal(annex_b@.skip(4)) && mtu >= 3 ==> plain_nal_payloads(
            byte_views(r@),
            annex_b@.skip(4),
            mtu,
        ),
{
    payload_h264(annex_b, mtu)
}

/// State of an `rtp::codecs::h264::H264Packet` depacketizer: whether it
/// writes length prefixes (AVC) instead of start codes, and the FU-A
/// fragments gathered so far, if any.
pub type DepacketizerView = (bool, Option<Seq<u8>>);

/// The state of a depacketizer (its `is_avc` flag and its FU-A buffer).
pub uninterp spec fn h264_packet_state(p: rtp::codecs::h264::H264Packet) -> DepacketizerView;

/// What `H264Packet::depacketize` makes of one STAP-A payload (no FU-A
/// state involved): `None` when it refuses it, else the aggregated units.
pub uninterp spec fn h264_stap_a(avc: bool, payload: Seq<u8>) -> Option<Seq<u8>>;

/// What goes in front of a depacketized unit of `len` bytes: a 4-byte
/// big-endian length in AVC mode, else a 4-byte start code.
pub open spec fn unit_prefix(avc: bool, len: int) -> Seq<u8> {
    if avc {
        be32_bytes((len % 0x1_0000_0000) as u32)
    } else {
        start_code4()
    }
}

/// One payload through a depacketizer in state `d`: what comes out (`None`
/// when refused) and the state after. A single NAL unit (types 1 to 23; more
/// than two bytes except for a delimiter) comes out behind its prefix; an FU-A
/// fragment is added to the buffer, and the fragment with the end bit hands out
/// the rebuilt unit (NRI of the indicator, type of the FU header) and empties
/// the buffer, the others hand out nothing; STAP-A is left to its name; other
/// types and payloads of one byte (two, but for a delimiter) are refused.
pub open spec fn depacketized(d: DepacketizerView, p: Seq<u8>) -> (Option<Seq<u8>>, DepacketizerView) {
    if p.len() <= 1 {
        (None, d)
    } else if p.len() <= 2 && p[0] % 32 != 9 {
        (None, d)
    } else if 1 <= p[0] % 32 && p[0] % 32 <= 23 {
        (Some(unit_prefix(d.0, p.len() as int) + p), d)
    } else if p[0] % 32 == 24 {
        (h264_stap_a(d.0, p), d)
    } else if p[0] % 32 == 28 {
        let buf = match d.1 {
            Some(b) => b,
            None => Seq::<u8>::empty(),
        } + p.skip(2);
        if (p[1] / 64) % 2 == 1 {
            (
                Some(unit_prefix(d.0, buf.len() + 1int) + seq![((p[0] / 32 % 4) * 32 + p[1] % 32) as u8] + buf),
                (d.0, None),
            )
        } else {
            (Some(Seq::empty()), (d.0, Some(buf)))
        }
    } else {
        (None, d)
    }
}

/// Walk of the STAP-A length fields from offset `off`: false when a length
/// field would start at the last byte.
pub open spec fn stap_walk_safe(p: Seq<u8>, off: int) -> bool
    decreases p.len() - off,
{
    if off >= p.len() {
        true
    } else if off + 1 >= p.len() {
        false
    } else {
        let next = off + 2 + p[off] as int * 256 + p[off + 1] as int;
        if p.len() < next {
            true
        } else {
            stap_walk_safe(p, next)
        }
    }
}

/// A STAP-A payload whose length fields run into its last byte; the
/// depacketizer reads past the end of such a payload.
pub open spec fn stap_a_overruns(p: Seq<u8>) -> bool {
    p.len() > 2 && p[0] % 32 == 24 && !stap_walk_safe(p, 1)
}

/// Whether a payload is a STAP-A whose length fields overrun it.
fn check_stap_a_overrun(p: &[u8]) -> (r: bool)
    ensures
        r == stap_a_overruns(p@),
{
    if !(p.len() > 2 && p[0] % 32 == 24) {
        return false;
    }
    let mut off: usize = 1;
    while off < p.len()
        invariant
            1 <= off <= p@.len(),
            p@.len() > 2 && p@[0] % 32 == 24,
            stap_walk_safe(p@, 1) == stap_walk_safe(p@, off as int),
        decreases p@.len() - off,
    {
        if off + 1 >= p.len() {
            return true;
        }
        let size: usize = (p[off] as usize) * 256 + p[off + 1] as usize;
        if p.len() - (off + 2) < size {
            return false;
        }
        off = off + 2 + size;
    }
    false
}

/// A fresh `H264Packet::default()`: start codes (not AVC), no FU-A fragment held.
#[verifier::external_body]
fn new_depacketizer() -> (p: rtp::codecs::h264::H264Packet)
    ensures
        h264_packet_state(p) == (false, None::<Seq<u8>>),
{
    rtp::codecs::h264::H264Packet::default()
}

/// Calls `H264Packet::depacketize`. Its source refuses payloads of one byte
/// (two, but for a delimiter), returns a single NAL unit (types 1 to 23) behind
/// a start code or length prefix, gathers FU-A fragments in the packet's buffer
/// and hands out the rebuilt unit on the end fragment, and refuses other types.
/// STAP-A output is left to the name; STAP-A payloads whose length fields run
/// into the last byte are excluded, as the source indexes past their end.
#[verifier::external_body]
fn depacketize_h264(pkt: &mut rtp::codecs::h264::H264Packet, payload: &[u8]) -> (r: Option<Vec<u8>>)
    requires
        !stap_a_overruns(payload@),
    ensures
        (opt_bytes(r), h264_packet_state(*final(pkt))) == depacketized(h264_packet_state(*old(pkt)), payload@),
        payload@.len() > 2 && payload@[0] % 32 == 24 ==> opt_bytes(r) == h264_stap_a(h264_packet_state(*old(pkt)).0, payload@),
{
    match pkt.depacketize(&bytes::Bytes::copy_from_slice(payload)) {
        Ok(chunk) => Some(chunk.to_vec()),
        Err(_) => None,
    }
}

/// Plain-value form of optional bytes.
pub open spec fn opt_bytes(o: Option<Vec<u8>>) -> Option<Seq<u8>> {
    match o {
        Some(v) => Some(v@),
        None => None,
    }
}

/// Why a payload could not be added to a frame.
#[derive(Debug, Clone, Copy, PartialEq, Eq, Structural)]
pub enum AssemblyError {
    /// The depacketizer refused the payload.
    Depacketize,
}

/// State of a frame being reassembled: the bytes of the finished NAL units,
/// the unit still open, if any, and the depacketizer's state.
pub type AssemblerView = (Seq<u8>, Option<Seq<u8>>, DepacketizerView);

/// Everything gathered so far, the open unit included.
pub open spec fn flushed(st: AssemblerView) -> Seq<u8> {
    match st.1 {
        Some(c) => st.0 + c,
        None => st.0,
    }
}

/// The state after one depacketized chunk: a chunk that begins with a 4-byte
/// start code closes the open unit and opens a new one; any other chunk is
/// appended to the open unit, or dropped when none is open.
pub open spec fn after_chunk(st: AssemblerView, chunk: Seq<u8>) -> AssemblerView {
    if begins_with_start4(chunk) {
        (flushed(st), Some(chunk), st.2)
    } else {
        match st.1 {
            Some(c) => (st.0, Some(c + chunk), st.2),
            None => st,
        }
    }
}

/// The state after a list of chunks.
pub open spec fn after_chunks(st: AssemblerView, chunks: Seq<Seq<u8>>) -> AssemblerView
    decreases chunks.len(),
{
    if chunks.len() == 0 {
        st
    } else {
        after_chunk(after_chunks(st, chunks.drop_last()), chunks.last())
    }
}

/// One RTP payload into an assembler: whether it was taken, and the state
/// after. An empty payload is skipped; a payload the depacketizer refuses (or
/// a STAP-A that overruns itself) leaves the state as it was; otherwise what
/// the depacketizer hands out is added as a chunk.
pub open spec fn payload_step(st: AssemblerView, payload: Seq<u8>) -> (bool, AssemblerView) {
    if payload.len() == 0 {
        (true, st)
    } else if stap_a_overruns(payload) {
        (false, st)
    } else {
        let d = depacketized(st.2, payload);
        match d.0 {
            None => (false, st),
            Some(chunk) => (true, after_chunk((st.0, st.1, d.1), chunk)),
        }
    }
}

/// The state after a list of payloads, in order.
pub open spec fn pushed_payloads(st: AssemblerView, ps: Seq<Seq<u8>>) -> AssemblerView
    decreases ps.len(),
{
    if ps.len() == 0 {
        st
    } else {
        payload_step(pushed_payloads(st, ps.drop_last()), ps.last()).1
    }
}

/// The empty assembler state, with a fresh depacketizer.
pub open spec fn empty_assembly() -> AssemblerView {
    (Seq::empty(), None, (false, None))
}

/// Reassembles RTP payloads into one Annex-B access unit; `finish` hands it out.
pub struct FrameAssembler {
    access_unit: Vec<u8>,
    current_nal: Option<Vec<u8>>,
    depacketizer: rtp::codecs::h264::H264Packet,
}

impl View for FrameAssembler {
    type V = AssemblerView;

    closed spec fn view(&self) -> AssemblerView {
        (
            self.access_unit@,
            match self.current_nal {
                Some(c) => Some(c@),
                None => None,
            },
            h264_packet_state(self.depacketizer),
        )
    }
}

impl FrameAssembler {
    /// An empty assembler.
    pub fn new() -> (r: Self)
        ensures
            r@ == empty_assembly(),
    {
        FrameAssembler { access_unit: Vec::new(), current_nal: None, depacketizer: new_depacketizer() }
    }

    /// Drops everything gathered so far, pending FU-A fragments included.
    pub fn reset(&mut self)
        ensures
            final(self)@ == empty_assembly(),
    {
        self.access_unit = Vec::new();
        self.current_nal = None;
        self.depacketizer = new_depacketizer();
    }

    /// Adds one depacketized chunk.
    pub fn push_chunk(&mut self, chunk: &[u8])
        ensures
            final(self)@ == after_chunk(old(self)@, chunk@),
    {
        let starts = chunk.len() >= 4 && chunk[0] == 0 && chunk[1] == 0 && chunk[2] == 0 && chunk[3] == 1;
        let cur = self.current_nal.take();
        if starts {
            match cur {
                Some(prev) => {
                    extend_bytes(&mut self.access_unit, prev.as_slice());
                },
                None => {},
            }
            self.current_nal = Some(slice_to_vec(chunk));
        } else {
            match cur {
                Some(prev) => {
                    let mut c = prev;
                    extend_bytes(&mut c, chunk);
                    self.current_nal = Some(c);
                },
                None => {},
            }
        }
    }

    /// Depacketizes one RTP payload and adds what comes out (see `payload_step`).
    pub fn push_rtp_payload(&mut self, payload: &[u8]) -> (r: Result<(), AssemblyError>)
        ensures
            (r is Ok) == payload_step(old(self)@, payload@).0,
            final(self)@ == payload_step(old(self)@, payload@).1,
            r is Err ==> r == Err::<(), AssemblyError>(AssemblyError::Depacketize),
    {
        if payload.len() == 0 {
            return Ok(());
        }
        if check_stap_a_overrun(payload) {
            return Err(AssemblyError::Depacketize);
        }
        match depacketize_h264(&mut self.depacketizer, payload) {
            Some(chunk) => {
                self.push_chunk(chunk.as_slice());
                Ok(())
            },
            None => Err(AssemblyError::Depacketize),
        }
    }

    /// Hands out the access unit gathered so far, the open NAL unit included,
    /// and leaves the assembler empty with a fresh depacketizer.
    pub fn finish(&mut self) -> (au: Vec<u8>)
        ensures
            au@ == flushed(old(self)@),
            final(self)@ == empty_assembly(),
    {
        let cur = self.current_nal.take();
        match cur {
            Some(c) => {
                extend_bytes(&mut self.access_unit, c.as_slice());
            },
            None => {},
        }
        let mut au: Vec<u8> = Vec::new();
        std::mem::swap(&mut au, &mut self.access_unit);
        self.depacketizer = new_depacketizer();
        au
    }
}

/// Byte facts of FU-A headers: the indicator carries type 28 and the unit's
/// NRI; the header carries its type, the end bit only on the last fragment;
/// together they rebuild the unit's header byte (forbidden bit clear).
proof fn lemma_fu_bytes(h: u8, first: bool, last: bool)
    requires
        h < 128,
        !(first && last),
    ensures
        fu_indicator(h) % 32 == 28,
        (fu_header(h, first, last) / 64) % 2 == (if last { 1int } else { 0int }),
        ((fu_indicator(h) / 32 % 4) * 32 + fu_header(h, first, last) % 32) as u8 == h,
{
}

proof fn lemma_fu_a_prefix(n: Seq<u8>, ps: Seq<Seq<u8>>, j: int)
    requires
        fu_a_payloads(ps, n),
        n[0] < 128,
        1 <= j < ps.len(),
    ensures
        pushed_payloads(empty_assembly(), ps.take(j)) == (
            Seq::<u8>::empty(),
            None::<Seq<u8>>,
            (false, Some(fragment_data(ps.take(j)))),
        ),
    decreases j,
{
    let pj = ps.take(j);
    assert(pj.drop_last() =~= ps.take(j - 1));
    assert(pj.last() == ps[j - 1]);
    let p = ps[j - 1];
    assert(p.len() >= 3 && p[0] == fu_indicator(n[0]) && p[1] == fu_header(n[0], j - 1 == 0, false));
    lemma_fu_bytes(n[0], j - 1 == 0, false);
    assert(p[0] % 32 == 28);
    assert((p[1] / 64) % 2 == 0);
    assert(!stap_a_overruns(p));
    let prev = pushed_payloads(empty_assembly(), ps.take(j - 1));
    assert(pushed_payloads(empty_assembly(), pj) == payload_step(prev, p).1);
    assert(fragment_data(pj) == fragment_data(ps.take(j - 1)) + p.skip(2));
    if j == 1 {
        assert(ps.take(0) =~= Seq::<Seq<u8>>::empty());
        assert(prev == empty_assembly());
        assert(fragment_data(ps.take(0)) =~= Seq::<u8>::empty());
        assert(Seq::<u8>::empty() + p.skip(2) =~= p.skip(2));
        assert(fragment_data(pj) =~= p.skip(2));
    } else {
        lemma_fu_a_prefix(n, ps, j - 1);
    }
    let buf = match prev.2.1 {
        Some(b) => b,
        None => Seq::<u8>::empty(),
    } + p.skip(2);
    assert(buf =~= fragment_data(pj));
    assert(depacketized(prev.2, p) == (Some(Seq::<u8>::empty()), (false, Some(buf))));
    assert(!begins_with_start4(Seq::<u8>::empty()));
}

proof fn lemma_single_payload_roundtrip(n: Seq<u8>, ps: Seq<Seq<u8>>)
    requires
        1 <= n[0] % 32 <= 23,
        n.len() > 2,
        ps == seq![n],
    ensures
        flushed(pushed_payloads(empty_assembly(), ps)) == start_code4() + n,
        pushed_payloads(empty_assembly(), ps).2 == (false, None::<Seq<u8>>),
{
    let e: Seq<Seq<u8>> = Seq::empty();
    assert(ps.drop_last() =~= e);
    assert(pushed_payloads(empty_assembly(), ps.drop_last()) == empty_assembly());
    assert(ps.last() == n);
    assert(!stap_a_overruns(n));
    assert(depacketized((false, None), n) == (Some(start_code4() + n), (false, None::<Seq<u8>>)));
    assert(begins_with_start4(start_code4() + n));
    assert(pushed_payloads(empty_assembly(), ps) == (Seq::<u8>::empty(), Some(start_code4() + n), (false, None::<Seq<u8>>)));
    assert(Seq::<u8>::empty() + (start_code4() + n) =~= start_code4() + n);
}

#[verifier::rlimit(30)]
proof fn lemma_fu_a_roundtrip(n: Seq<u8>, ps: Seq<Seq<u8>>)
    requires
        n.len() >= 1,
        n[0] < 128,
        fu_a_payloads(ps, n),
    ensures
        flushed(pushed_payloads(empty_assembly(), ps)) == start_code4() + n,
        pushed_payloads(empty_assembly(), ps).2 == (false, None::<Seq<u8>>),
{
        let k = ps.len() as int;
        lemma_fu_a_prefix(n, ps, k - 1);
        let prev = pushed_payloads(empty_assembly(), ps.take(k - 1));
        assert(ps.drop_last() =~= ps.take(k - 1));
        let p = ps[k - 1];
        assert(ps.last() == p);
        assert(p.len() >= 3 && p[0] == fu_indicator(n[0]) && p[1] == fu_header(n[0], false, true));
        lemma_fu_bytes(n[0], false, true);
        assert(p[0] % 32 == 28);
        assert((p[1] / 64) % 2 == 1);
        assert(!stap_a_overruns(p));
        assert(pushed_payloads(empty_assembly(), ps) == payload_step(prev, p).1);
        assert(ps.take(k) =~= ps);
        assert(ps.take(k).drop_last() =~= ps.take(k - 1));
        assert(fragment_data(ps) == fragment_data(ps.take(k - 1)) + p.skip(2));
        let buf = fragment_data(ps.take(k - 1)) + p.skip(2);
        assert(buf == n.skip(1));
        let hdr = ((p[0] / 32 % 4) * 32 + p[1] % 32) as u8;
        assert(hdr == n[0]);
        let chunk = start_code4() + seq![hdr] + buf;
        assert(depacketized(prev.2, p) == (Some(chunk), (false, None::<Seq<u8>>)));
        assert(seq![n[0]] + n.skip(1) =~= n);
        assert(chunk =~= start_code4() + n);
        assert(begins_with_start4(chunk));
        assert(Seq::<u8>::empty() + chunk =~= chunk);
}

/// The payloads of a plain NAL unit (a single unit, or its FU-A fragments)
/// reassemble into the unit behind a 4-byte start code, and leave the
/// depacketizer idle. With `packetize_annex_b`'s contract this is the round
/// trip: pushing every payload of `packetize_annex_b(start code + n, mtu)` into
/// a fresh assembler, then `finish`, gives back the start code and `n`.
pub proof fn lemma_plain_nal_roundtrip(n: Seq<u8>, ps: Seq<Seq<u8>>, mtu: usize)
    requires
        plain_nal(n),
        1 <= n[0] % 32 <= 23,
        n[0] < 128,
        n.len() > 2,
        plain_nal_payloads(ps, n, mtu),
    ensures
        flushed(pushed_payloads(empty_assembly(), ps)) == start_code4() + n,
        pushed_payloads(empty_assembly(), ps).2 == (false, None::<Seq<u8>>),
{
    reveal(plain_nal_payloads);
    if n.len() <= mtu {
        lemma_single_payload_roundtrip(n, ps);
    } else {
        lemma_fu_a_roundtrip(n, ps);
    }
}

/// Chunks that each begin with a 4-byte start code reassemble, from an empty
/// assembler, into their concatenation in arrival order.
pub proof fn lemma_start_chunks_concatenate(chunks: Seq<Seq<u8>>)
    requires
        forall|i: int| 0 <= i < chunks.len() ==> begins_with_start4(#[trigger] chunks[i]),
    ensures
        flushed(after_chunks(empty_assembly(), chunks)) == chunks.fold_left(Seq::<u8>::empty(), |acc: Seq<u8>, c: Seq<u8>| acc + c),
    decreases chunks.len(),
{
    if chunks.len() > 0 {
        let init = chunks.drop_last();
        assert forall|i: int| 0 <= i < init.len() implies begins_with_start4(#[trigger] init[i]) by {
            assert(init[i] == chunks[i]);
        }
        lemma_start_chunks_concatenate(init);
        assert(begins_with_start4(chunks[chunks.len() - 1]));
    }
}

} // verus!
