//! H.264 Annex-B byte-stream handling: start codes, NAL unit types, splitting
//! and re-joining NAL units.

use vstd::prelude::*;
use vstd::slice::slice_to_vec;

verus! {

/// A 4-byte start code `00 00 00 01` begins at `i`.
pub open spec fn is_start4_at(b: Seq<u8>, i: int) -> bool {
    0 <= i && i + 4 <= b.len() && b[i] == 0 && b[i + 1] == 0 && b[i + 2] == 0 && b[i + 3] == 1
}

/// A 3-byte start code `00 00 01` begins at `i` and is not the tail of a longer one.
pub open spec fn is_start3_at(b: Seq<u8>, i: int) -> bool {
    0 <= i && i + 3 <= b.len() && b[i] == 0 && b[i + 1] == 0 && b[i + 2] == 1 && (i == 0 || b[i - 1]
        != 0)
}

/// A start code of either length begins at `i`.
pub open spec fn is_start_at(b: Seq<u8>, i: int) -> bool {
    is_start4_at(b, i) || is_start3_at(b, i)
}

/// The first start code at or after `i`.
pub open spec fn first_start_from(b: Seq<u8>, i: int) -> Option<int>
    decreases b.len() - i,
{
    if i < 0 || i + 3 > b.len() {
        None
    } else if is_start_at(b, i) {
        Some(i)
    } else {
        first_start_from(b, i + 1)
    }
}

/// Length of the start code at `s`: 4 when `00 00 00 01` is there, else 3.
pub open spec fn start_code_len(b: Seq<u8>, s: int) -> int {
    if s + 4 <= b.len() && b[s] == 0 && b[s + 1] == 0 && b[s + 2] == 0 && b[s + 3] == 1 {
        4
    } else {
        3
    }
}

/// NAL unit type (low five bits of the header byte) after the start code at `s`.
pub open spec fn nal_type_after(b: Seq<u8>, s: int) -> Option<u8> {
    let h = s + start_code_len(b, s);
    if 0 <= h < b.len() {
        Some((b[h] % 32) as u8)
    } else {
        None
    }
}

/// Slice, IDR, SEI, SPS, PPS, AUD, end-of-sequence, end-of-stream or filler.
pub open spec fn is_known_nal_type(t: u8) -> bool {
    t == 1 || (5 <= t && t <= 12)
}

/// Types trusted to begin a new NAL inside a stream: IDR, SEI, SPS, PPS, AUD.
/// A type-1 header after `00 00 01` inside IDR data is a common false match.
pub open spec fn is_boundary_nal_type(t: u8) -> bool {
    5 <= t && t <= 9
}

/// A start code at `i` opens a NAL of a boundary type.
pub open spec fn is_boundary_at(b: Seq<u8>, i: int) -> bool {
    is_start_at(b, i) && match nal_type_after(b, i) {
        Some(t) => is_boundary_nal_type(t),
        None => false,
    }
}

/// The first NAL boundary at or after `i` that leaves at least one more byte after its code prefix.
pub open spec fn next_boundary_from(b: Seq<u8>, i: int) -> Option<int>
    decreases b.len() - i,
{
    if i < 0 || i + 3 >= b.len() {
        None
    } else if is_boundary_at(b, i) {
        Some(i)
    } else {
        next_boundary_from(b, i + 1)
    }
}

/// The first NAL unit of `b` and the number of bytes it ends at: from the
/// first start code (which must open a known NAL type) up to the next
/// boundary, or to the end.
pub open spec fn first_nalu(b: Seq<u8>) -> Option<(Seq<u8>, int)> {
    match first_start_from(b, 0) {
        None => None,
        Some(s) => match nal_type_after(b, s) {
            Some(t) if is_known_nal_type(t) => {
                let h = s + start_code_len(b, s);
                let e = match next_boundary_from(b, h) {
                    Some(e) => e,
                    None => b.len() as int,
                };
                if e <= s {
                    None
                } else {
                    Some((b.subrange(s, e), e))
                }
            },
            _ => None,
        },
    }
}

/// The NAL units of an Annex-B stream, each with its start code, taken one
/// after another until none is left.
pub open spec fn split_nalus(b: Seq<u8>) -> Seq<Seq<u8>>
    decreases b.len(),
{
    match first_nalu(b) {
        Some((n, c)) => if 0 < c <= b.len() {
            seq![n] + split_nalus(b.skip(c))
        } else {
            Seq::empty()
        },
        None => Seq::empty(),
    }
}

/// The NAL type of one Annex-B unit (after its first start code).
pub open spec fn nalu_type(n: Seq<u8>) -> Option<u8> {
    match first_start_from(n, 0) {
        Some(s) => nal_type_after(n, s),
        None => None,
    }
}

/// The unit is a coded slice (type 1) or an IDR slice (type 5).
pub open spec fn is_vcl(n: Seq<u8>) -> bool {
    nalu_type(n) == Some(1u8) || nalu_type(n) == Some(5u8)
}

/// The unit is an SPS (type 7) or a PPS (type 8).
pub open spec fn is_param_set(n: Seq<u8>) -> bool {
    nalu_type(n) == Some(7u8) || nalu_type(n) == Some(8u8)
}

/// SEI, AUD, end-of-sequence, end-of-stream or filler: dropped before decoding.
pub open spec fn is_dropped_type(n: Seq<u8>) -> bool {
    match nalu_type(n) {
        Some(t) => t == 6 || (9 <= t && t <= 12),
        None => false,
    }
}

proof fn lemma_first_start_from_bounds(b: Seq<u8>, i: int)
    ensures
        first_start_from(b, i) matches Some(s) ==> i <= s && s + 3 <= b.len() && is_start_at(b, s),
    decreases b.len() - i,
{
    if !(i < 0 || i + 3 > b.len()) && !is_start_at(b, i) {
        lemma_first_start_from_bounds(b, i + 1);
    }
}

proof fn lemma_next_boundary_from_bounds(b: Seq<u8>, i: int)
    ensures
        next_boundary_from(b, i) matches Some(e) ==> i <= e && e + 3 < b.len() && is_boundary_at(b, e),
    decreases b.len() - i,
{
    if !(i < 0 || i + 3 >= b.len()) && !is_boundary_at(b, i) {
        lemma_next_boundary_from_bounds(b, i + 1);
    }
}

/// The first unit ends strictly after the point where the stream starts.
pub proof fn lemma_first_nalu_progress(b: Seq<u8>)
    ensures
        first_nalu(b) matches Some((n, c)) ==> 0 < c <= b.len() && n.len() > 0,
{
    lemma_first_start_from_bounds(b, 0);
    if let Some(s) = first_start_from(b, 0) {
        let h = s + start_code_len(b, s);
        lemma_next_boundary_from_bounds(b, h);
    }
}

/// The units of a list laid end to end.
pub open spec fn concat_units(ns: Seq<Seq<u8>>) -> Seq<u8>
    decreases ns.len(),
{
    if ns.len() == 0 {
        Seq::empty()
    } else {
        ns[0] + concat_units(ns.drop_first())
    }
}

/// `n` opens with a start code followed by the header byte of a known NAL type.
pub open spec fn opens_known_unit(n: Seq<u8>) -> bool {
    &&& first_start_from(n, 0) == Some(0int)
    &&& match nal_type_after(n, 0) {
        Some(t) => is_known_nal_type(t),
        None => false,
    }
}

proof fn lemma_unit_at(b: Seq<u8>, s: int, e: int)
    requires
        0 <= s,
        s + 3 <= b.len(),
        is_start_at(b, s),
        (nal_type_after(b, s) matches Some(t) && is_known_nal_type(t)),
        s + start_code_len(b, s) < e <= b.len(),
    ensures
        opens_known_unit(b.subrange(s, e)),
{
    let n = b.subrange(s, e);
    assert(n[0] == b[s] && n[1] == b[s + 1] && n[2] == b[s + 2]);
    if s + 4 <= b.len() && b[s] == 0 && b[s + 1] == 0 && b[s + 2] == 0 && b[s + 3] == 1 {
        assert(n[3] == b[s + 3]);
    }
    assert(start_code_len(n, 0) == start_code_len(b, s));
    assert(n[start_code_len(n, 0)] == b[s + start_code_len(b, s)]);
    assert(is_start_at(n, 0));
}

/// Splitting an Annex-B stream gives units that each open with a start code
/// and the header of a known NAL type, and that, laid end to end, are the
/// stream from its first start code on: nothing dropped, repeated or reordered.
pub proof fn lemma_split_structure(b: Seq<u8>)
    ensures
        forall|i: int| 0 <= i < split_nalus(b).len() ==> opens_known_unit(#[trigger] split_nalus(b)[i]),
        split_nalus(b).len() > 0 ==> (first_start_from(b, 0) matches Some(s) && concat_units(split_nalus(b)) == b.skip(s)),
    decreases b.len(),
{
    lemma_first_nalu_progress(b);
    lemma_first_start_from_bounds(b, 0);
    match first_nalu(b) {
        None => {},
        Some((n, c)) => {
            let s = first_start_from(b, 0)->0;
            let h = s + start_code_len(b, s);
            lemma_next_boundary_from_bounds(b, h);
            assert(h < b.len());
            assert(b[h] != 0);
            if let Some(e) = next_boundary_from(b, h) {
                assert(e != h);
            }
            assert(c > h);
            lemma_unit_at(b, s, c);
            let rest = b.skip(c);
            lemma_split_structure(rest);
            let sp = split_nalus(b);
            assert(sp == seq![n] + split_nalus(rest));
            assert(sp[0] == n);
            assert(sp.drop_first() =~= split_nalus(rest));
            assert forall|i: int| 0 <= i < sp.len() implies opens_known_unit(#[trigger] sp[i]) by {
                if i > 0 {
                    assert(sp[i] == split_nalus(rest)[i - 1]);
                }
            }
            if c < b.len() {
                let e = c;
                assert(next_boundary_from(b, h) == Some(e));
                assert(is_boundary_at(b, e));
                assert(rest[0] == b[e] && rest[1] == b[e + 1] && rest[2] == b[e + 2] && rest[3] == b[e + 3]);
                assert(is_start_at(rest, 0));
                assert(first_start_from(rest, 0) == Some(0int));
                assert(start_code_len(rest, 0) == start_code_len(b, e));
                assert(rest[start_code_len(rest, 0)] == b[e + start_code_len(b, e)]);
                assert(nal_type_after(rest, 0) == nal_type_after(b, e));
                let h2 = start_code_len(rest, 0);
                lemma_next_boundary_from_bounds(rest, h2);
                assert(first_nalu(rest) is Some);
                lemma_first_nalu_progress(rest);
                assert(split_nalus(rest).len() > 0);
                assert(rest.skip(0) =~= rest);
                assert(concat_units(sp) == n + concat_units(split_nalus(rest)));
                assert(n + rest =~= b.skip(s));
            } else {
                assert(rest.len() == 0);
                assert(first_nalu(rest) is None) by {
                    assert(first_start_from(rest, 0) is None);
                }
                assert(split_nalus(rest) =~= Seq::<Seq<u8>>::empty());
                assert(concat_units(sp) == n + concat_units(split_nalus(rest)));
                assert(n + Seq::<u8>::empty() =~= b.skip(s));
            }
        },
    }
}

/// Past its leading start code, `u` holds no start code that opens an IDR
/// (type 5), SEI (6), SPS (7), PPS (8) or AUD (9) unit.
pub open spec fn no_inner_idr_sei_param_aud(u: Seq<u8>) -> bool {
    forall|j: int|
        1 <= j < u.len() && #[trigger] is_start_at(u, j) ==> match nal_type_after(u, j) {
            Some(t) => !(5 <= t && t <= 9),
            None => true,
        }
}

proof fn lemma_no_boundary_before(b: Seq<u8>, i: int, k: int)
    requires
        0 <= i <= k,
        k + 3 < b.len(),
        is_boundary_at(b, k),
    ensures
        next_boundary_from(b, i) matches Some(e) && e <= k,
    decreases k - i,
{
    if !is_boundary_at(b, i) {
        lemma_no_boundary_before(b, i + 1, k);
    }
}

proof fn lemma_first_unit_isolated(b: Seq<u8>)
    ensures
        first_nalu(b) matches Some((n, c)) ==> no_inner_idr_sei_param_aud(n),
{
    lemma_first_start_from_bounds(b, 0);
    if let Some((n, c)) = first_nalu(b) {
        let s = first_start_from(b, 0)->0;
        let scl = start_code_len(b, s);
        let h = s + scl;
        lemma_next_boundary_from_bounds(b, h);
        assert(n == b.subrange(s, c));
        assert forall|j: int|
            1 <= j < n.len() && #[trigger] is_start_at(n, j) implies match nal_type_after(n, j) {
                Some(t) => !(5 <= t && t <= 9),
                None => true,
            } by {
            if j < scl {
                assert(n[0] == b[s] && n[1] == b[s + 1] && n[2] == b[s + 2]);
                if scl == 4 {
                    assert(n[3] == b[s + 3]);
                }
                assert(!is_start_at(n, j));
            } else if let Some(t) = nal_type_after(n, j) {
                let k = s + j;
                assert(n[j] == b[k] && n[j + 1] == b[k + 1] && n[j + 2] == b[k + 2]);
                assert(n[j - 1] == b[k - 1]);
                if j + 4 <= n.len() {
                    assert(n[j + 3] == b[k + 3]);
                }
                assert(is_start_at(b, k));
                assert(start_code_len(n, j) == start_code_len(b, k));
                let hh = j + start_code_len(n, j);
                assert(n[hh] == b[k + start_code_len(b, k)]);
                assert(nal_type_after(b, k) == Some(t));
                if 5 <= t && t <= 9 {
                    assert(is_boundary_at(b, k));
                    lemma_no_boundary_before(b, h, k);
                    assert(false);
                }
            }
        }
    }
}

/// Every IDR, SEI, SPS, PPS or AUD start code in the stream begins a unit of
/// its own: no unit of the split holds, past its leading start code, a start
/// code followed by a NAL header of type 5, 6, 7, 8 or 9.
pub proof fn lemma_split_isolates_idr_sei_param_aud(b: Seq<u8>)
    ensures
        forall|i: int| 0 <= i < split_nalus(b).len() ==> no_inner_idr_sei_param_aud(#[trigger] split_nalus(b)[i]),
    decreases b.len(),
{
    lemma_first_nalu_progress(b);
    lemma_first_unit_isolated(b);
    if let Some((n, c)) = first_nalu(b) {
        let rest = b.skip(c);
        lemma_split_isolates_idr_sei_param_aud(rest);
        let sp = split_nalus(b);
        assert(sp == seq![n] + split_nalus(rest));
        assert forall|i: int| 0 <= i < sp.len() implies no_inner_idr_sei_param_aud(#[trigger] sp[i]) by {
            if i > 0 {
                assert(sp[i] == split_nalus(rest)[i - 1]);
            }
        }
    }
}

/// Index of the first start code in `buf`.
pub fn find_annex_b_start(buf: &[u8]) -> (res: Option<usize>)
    ensures
        match res {
            Some(i) => first_start_from(buf@, 0) == Some(i as int),
            None => first_start_from(buf@, 0) is None,
        },
{
    let mut i: usize = 0;
    while i <= buf.len() && buf.len() - i >= 3
        invariant
            i <= buf@.len(),
            first_start_from(buf@, 0) == first_start_from(buf@, i as int),
        decreases buf@.len() - i,
    {
        let four = buf.len() - i >= 4 && buf[i] == 0 && buf[i + 1] == 0 && buf[i + 2] == 0 && buf[i + 3]
            == 1;
        let three = buf[i] == 0 && buf[i + 1] == 0 && buf[i + 2] == 1 && (i == 0 || buf[i - 1] != 0);
        if four || three {
            return Some(i);
        }
        i += 1;
    }
    None
}

/// Length of the start code at `start` (4 for `00 00 00 01`, else 3).
pub fn start_code_len_at(buf: &[u8], start: usize) -> (res: usize)
    ensures
        res as int == start_code_len(buf@, start as int),
{
    if start <= buf.len() && buf.len() - start >= 4 && buf[start] == 0 && buf[start + 1] == 0
        && buf[start + 2] == 0 && buf[start + 3] == 1 {
        4
    } else {
        3
    }
}

/// NAL type after the start code at `start`, if the header byte is present.
pub fn nal_type_at(buf: &[u8], start: usize) -> (res: Option<u8>)
    requires
        start <= buf@.len(),
    ensures
        res == nal_type_after(buf@, start as int),
{
    let scl = start_code_len_at(buf, start);
    if scl < buf.len() - start {
        let h = start + scl;
        let b = buf[h];
        let t = b & 0x1f;
        assert(t == b % 32) by (bit_vector)
            requires t == b & 0x1f;
        Some(t)
    } else {
        None
    }
}

/// The start code at `start` opens a NAL of a known type.
pub fn is_valid_nalu_start_at(buf: &[u8], start: usize) -> (res: bool)
    requires
        start <= buf@.len(),
    ensures
        res == (match nal_type_after(buf@, start as int) {
            Some(t) => is_known_nal_type(t),
            None => false,
        }),
{
    match nal_type_at(buf, start) {
        Some(t) => t == 1 || (5 <= t && t <= 12),
        None => false,
    }
}

/// The start code at `start` opens an IDR, SEI, SPS, PPS or AUD unit.
pub fn is_probable_nalu_boundary(buf: &[u8], start: usize) -> (res: bool)
    requires
        start <= buf@.len(),
    ensures
        res == (match nal_type_after(buf@, start as int) {
            Some(t) => is_boundary_nal_type(t),
            None => false,
        }),
{
    match nal_type_at(buf, start) {
        Some(t) => 5 <= t && t <= 9,
        None => false,
    }
}

/// First probable NAL boundary at or after `from`.
pub fn find_next_nalu_start(buf: &[u8], from: usize) -> (res: Option<usize>)
    ensures
        match res {
            Some(i) => next_boundary_from(buf@, from as int) == Some(i as int),
            None => next_boundary_from(buf@, from as int) is None,
        },
{
    let mut i = from;
    while i < buf.len() && buf.len() - i > 3
        invariant
            from <= i,
            next_boundary_from(buf@, from as int) == next_boundary_from(buf@, i as int),
        decreases buf@.len() - i,
    {
        let four = buf.len() - i >= 4 && buf[i] == 0 && buf[i + 1] == 0 && buf[i + 2] == 0 && buf[i
            + 3] == 1;
        let three = buf[i] == 0 && buf[i + 1] == 0 && buf[i + 2] == 1 && (i == 0 || buf[i - 1] != 0);
        if (four || three) && is_probable_nalu_boundary(buf, i) {
            return Some(i);
        }
        i += 1;
    }
    None
}

/// The first NAL unit of `buf` and the byte offset where it ends (see [`first_nalu`]).
pub fn take_first_nalu(buf: &[u8]) -> (res: Option<(Vec<u8>, usize)>)
    ensures
        match res {
            Some((n, c)) => first_nalu(buf@) == Some((n@, c as int)),
            None => first_nalu(buf@) is None,
        },
{
    proof {
        lemma_first_start_from_bounds(buf@, 0);
    }
    let start = match find_annex_b_start(buf) {
        Some(s) => s,
        None => return None,
    };
    if !is_valid_nalu_start_at(buf, start) {
        return None;
    }
    let scl = start_code_len_at(buf, start);
    if scl > buf.len() - start {
        return None;
    }
    let header_end = start + scl;
    proof {
        lemma_next_boundary_from_bounds(buf@, header_end as int);
    }
    let end = match find_next_nalu_start(buf, header_end) {
        Some(e) => e,
        None => buf.len(),
    };
    if end <= start {
        return None;
    }
    Some((slice_to_vec(&buf[start..end]), end))
}

/// Splits a byte stream into Annex-B NAL units, each with its start code.
pub fn split_annex_b_nalus(bytes: &[u8]) -> (res: Vec<Vec<u8>>)
    ensures
        res@.map_values(|n: Vec<u8>| n@) == split_nalus(bytes@),
{
    let mut out: Vec<Vec<u8>> = Vec::new();
    let mut off: usize = 0;
    assert(bytes@.skip(0) =~= bytes@);
    assert(out@.map_values(|n: Vec<u8>| n@) + split_nalus(bytes@) =~= split_nalus(bytes@));
    loop
        invariant
            off <= bytes@.len(),
            out@.map_values(|n: Vec<u8>| n@) + split_nalus(bytes@.skip(off as int)) == split_nalus(
                bytes@,
            ),
        decreases bytes@.len() - off,
    {
        let rest = &bytes[off..bytes.len()];
        assert(rest@ =~= bytes@.skip(off as int));
        proof {
            lemma_first_nalu_progress(rest@);
        }
        match take_first_nalu(rest) {
            Some((nalu, consumed)) => {
                let ghost before = out@.map_values(|n: Vec<u8>| n@);
                assert(rest@.skip(consumed as int) =~= bytes@.skip(off + consumed));
                out.push(nalu);
                assert(out@.map_values(|n: Vec<u8>| n@) =~= before.push(nalu@));
                assert(split_nalus(rest@) == seq![nalu@] + split_nalus(rest@.skip(consumed as int)));
                assert(before.push(nalu@) + split_nalus(bytes@.skip(off + consumed)) =~= before + (
                seq![nalu@] + split_nalus(rest@.skip(consumed as int))));
                off = off + consumed;
            },
            None => {
                assert(split_nalus(rest@) =~= Seq::<Seq<u8>>::empty());
                assert(out@.map_values(|n: Vec<u8>| n@) + Seq::<Seq<u8>>::empty() =~= out@.map_values(
                    |n: Vec<u8>| n@,
                ));
                return out;
            },
        }
    }
}

} // verus!

verus! {

/// The NAL header type of one Annex-B unit, if it has a start code and a header byte.
pub fn nalu_type_of(nalu: &[u8]) -> (res: Option<u8>)
    ensures
        res == nalu_type(nalu@),
{
    proof {
        lemma_first_start_from_bounds(nalu@, 0);
    }
    match find_annex_b_start(nalu) {
        Some(start) => nal_type_at(nalu, start),
        None => None,
    }
}

/// Coded slice (1) or IDR slice (5).
pub fn is_vcl_nal_type(nal_type: u8) -> (res: bool)
    ensures
        res == (nal_type == 1 || nal_type == 5),
{
    nal_type == 1 || nal_type == 5
}

/// The unit is a coded slice or an IDR slice.
pub fn nalu_is_vcl(nalu: &[u8]) -> (res: bool)
    ensures
        res == is_vcl(nalu@),
{
    match nalu_type_of(nalu) {
        Some(t) => is_vcl_nal_type(t),
        None => false,
    }
}

/// The unit is an SPS or a PPS.
pub fn nalu_is_param_set(nalu: &[u8]) -> (res: bool)
    ensures
        res == is_param_set(nalu@),
{
    match nalu_type_of(nalu) {
        Some(t) => t == 7 || t == 8,
        None => false,
    }
}

fn nalu_is_dropped(nalu: &[u8]) -> (res: bool)
    ensures
        res == is_dropped_type(nalu@),
{
    match nalu_type_of(nalu) {
        Some(t) => t == 6 || (9 <= t && t <= 12),
        None => false,
    }
}

/// Views of a list of byte vectors.
pub open spec fn byte_views(ns: Seq<Vec<u8>>) -> Seq<Seq<u8>> {
    ns.map_values(|n: Vec<u8>| n@)
}

/// Units kept after dropping SEI, AUD, end-of-sequence, end-of-stream and filler.
pub open spec fn kept_nalus(ns: Seq<Seq<u8>>) -> Seq<Seq<u8>> {
    ns.filter(|n: Seq<u8>| !is_dropped_type(n))
}

/// Drops SEI, AUD, end-of-sequence, end-of-stream and filler units, which
/// confuse a one-shot decoder.
pub fn filter_stream_nalus(nalus: Vec<Vec<u8>>) -> (res: Vec<Vec<u8>>)
    ensures
        byte_views(res@) == kept_nalus(byte_views(nalus@)),
{
    let mut out: Vec<Vec<u8>> = Vec::new();
    let mut i: usize = 0;
    let ghost all = byte_views(nalus@);
    while i < nalus.len()
        invariant
            i <= nalus@.len(),
            all == byte_views(nalus@),
            byte_views(out@) == kept_nalus(all.take(i as int)),
        decreases nalus@.len() - i,
    {
        reveal_with_fuel(Seq::<_>::filter, 1);
        let n = &nalus[i];
        assert(all.take(i + 1).drop_last() =~= all.take(i as int));
        assert(all.take(i + 1).last() == n@);
        if !nalu_is_dropped(n.as_slice()) {
            let ghost before = byte_views(out@);
            out.push(clone_bytes(n));
            assert(byte_views(out@) =~= before.push(n@));
        }
        i += 1;
    }
    assert(all.take(nalus@.len() as int) =~= all);
    out
}

/// Bytes after the start code and NAL header position (the header byte included).
pub open spec fn nal_body_of(n: Seq<u8>) -> Seq<u8> {
    let s = match first_start_from(n, 0) {
        Some(s) => s,
        None => 0,
    };
    let h = s + start_code_len(n, s);
    if h <= n.len() {
        n.skip(h)
    } else {
        Seq::empty()
    }
}

/// RBSP bytes after the NAL header byte, for joining a falsely split unit.
pub open spec fn rbsp_continuation(n: Seq<u8>) -> Seq<u8> {
    let body = nal_body_of(n);
    if body.len() > 1 {
        body.skip(1)
    } else {
        body
    }
}

/// The bytes of a unit after its start code.
pub fn nal_body(nalu: &[u8]) -> (res: &[u8])
    ensures
        res@ == nal_body_of(nalu@),
{
    proof {
        lemma_first_start_from_bounds(nalu@, 0);
    }
    let start = match find_annex_b_start(nalu) {
        Some(s) => s,
        None => 0,
    };
    let scl = start_code_len_at(nalu, start);
    if start <= nalu.len() && scl <= nalu.len() - start {
        let h = start + scl;
        &nalu[h..nalu.len()]
    } else {
        &nalu[nalu.len()..nalu.len()]
    }
}

/// RBSP bytes after the NAL header byte (see [`rbsp_continuation`]).
pub fn vcl_rbsp_continuation(nalu: &[u8]) -> (res: &[u8])
    ensures
        res@ == rbsp_continuation(nalu@),
{
    let body = nal_body(nalu);
    if body.len() > 1 {
        &body[1..body.len()]
    } else {
        body
    }
}

/// Units with each run of adjacent slices rejoined into one unit: a slice that
/// follows a slice is appended to it without its start code and header byte.
pub open spec fn coalesced(ns: Seq<Seq<u8>>) -> Seq<Seq<u8>>
    decreases ns.len(),
{
    if ns.len() == 0 {
        Seq::empty()
    } else {
        let prev = coalesced(ns.drop_last());
        let n = ns.last();
        if is_vcl(n) && prev.len() > 0 && is_vcl(prev.last()) {
            prev.update(prev.len() - 1, prev.last() + rbsp_continuation(n))
        } else {
            prev.push(n)
        }
    }
}

/// A copy of `v`.
pub fn clone_bytes(v: &Vec<u8>) -> (r: Vec<u8>)
    ensures
        r@ == v@,
{
    let r = v.clone();
    assert(r@ =~= v@);
    r
}

/// Appends the bytes of `s` to `v`.
pub fn extend_bytes(v: &mut Vec<u8>, s: &[u8])
    ensures
        final(v)@ == old(v)@ + s@,
{
    let mut i: usize = 0;
    while i < s.len()
        invariant
            i <= s@.len(),
            v@ == old(v)@ + s@.take(i as int),
        decreases s@.len() - i,
    {
        v.push(s[i]);
        i += 1;
        assert(v@ =~= old(v)@ + s@.take(i as int));
    }
    assert(s@.take(s@.len() as int) =~= s@);
}

/// Rejoins slice units split on a false `00 00 01` inside the RBSP (see [`coalesced`]).
pub fn coalesce_adjacent_vcl_nalus(nalus: Vec<Vec<u8>>) -> (res: Vec<Vec<u8>>)
    ensures
        byte_views(res@) == coalesced(byte_views(nalus@)),
{
    let mut out: Vec<Vec<u8>> = Vec::new();
    let mut i: usize = 0;
    let ghost all = byte_views(nalus@);
    while i < nalus.len()
        invariant
            i <= nalus@.len(),
            all == byte_views(nalus@),
            byte_views(out@) == coalesced(all.take(i as int)),
        decreases nalus@.len() - i,
    {
        let nal = &nalus[i];
        assert(all.take(i + 1).drop_last() =~= all.take(i as int));
        assert(all.take(i + 1).last() == nal@);
        let ghost before = byte_views(out@);
        let n_vcl = nalu_is_vcl(nal.as_slice());
        let mut joined = false;
        if n_vcl && out.len() > 0 {
            let last_idx = out.len() - 1;
            if nalu_is_vcl(out[last_idx].as_slice()) {
                let mut last = out.pop().unwrap();
                extend_bytes(&mut last, vcl_rbsp_continuation(nal.as_slice()));
                out.push(last);
                joined = true;
                assert(byte_views(out@) =~= before.update(before.len() - 1, before.last()
                    + rbsp_continuation(nal@)));
            }
        }
        if !joined {
            out.push(clone_bytes(nal));
            assert(byte_views(out@) =~= before.push(nal@));
        }
        i += 1;
    }
    assert(all.take(nalus@.len() as int) =~= all);
    out
}

/// Errors of access-unit assembly.
#[derive(Debug, Clone, Copy, PartialEq, Eq, Structural)]
pub enum AccessUnitError {
    /// The encoder output holds no slice unit.
    NoVcl,
}

/// Some unit of `ns` satisfies `p`.
pub open spec fn any_nalu(ns: Seq<Seq<u8>>, p: spec_fn(Seq<u8>) -> bool) -> bool {
    exists|i: int| 0 <= i < ns.len() && p(#[trigger] ns[i])
}

pub(crate) fn any_vcl(ns: &Vec<Vec<u8>>) -> (res: bool)
    ensures
        res == any_nalu(byte_views(ns@), |n: Seq<u8>| is_vcl(n)),
{
    let mut i: usize = 0;
    while i < ns.len()
        invariant
            i <= ns@.len(),
            forall|j: int| 0 <= j < i ==> !is_vcl(#[trigger] byte_views(ns@)[j]),
        decreases ns@.len() - i,
    {
        if nalu_is_vcl(ns[i].as_slice()) {
            assert((|n: Seq<u8>| is_vcl(n))(byte_views(ns@)[i as int]));
            return true;
        }
        i += 1;
    }
    false
}

fn any_param_set(ns: &Vec<Vec<u8>>) -> (res: bool)
    ensures
        res == any_nalu(byte_views(ns@), |n: Seq<u8>| is_param_set(n)),
{
    let mut i: usize = 0;
    while i < ns.len()
        invariant
            i <= ns@.len(),
            forall|j: int| 0 <= j < i ==> !is_param_set(#[trigger] byte_views(ns@)[j]),
        decreases ns@.len() - i,
    {
        if nalu_is_param_set(ns[i].as_slice()) {
            assert((|n: Seq<u8>| is_param_set(n))(byte_views(ns@)[i as int]));
            return true;
        }
        i += 1;
    }
    false
}

/// Prepends cached SPS/PPS to an access unit that has slices but no parameter
/// sets; an access unit without slices is an error.
pub fn attach_param_nals(param_nals: &Vec<Vec<u8>>, vcl_nalus: Vec<Vec<u8>>) -> (res: Result<
    Vec<Vec<u8>>,
    AccessUnitError,
>)
    ensures
        res is Err <==> !any_nalu(byte_views(vcl_nalus@), |n: Seq<u8>| is_vcl(n)),
        res matches Ok(out) ==> byte_views(out@) == (if any_nalu(
            byte_views(vcl_nalus@),
            |n: Seq<u8>| is_param_set(n),
        ) || param_nals@.len() == 0 {
            byte_views(vcl_nalus@)
        } else {
            byte_views(param_nals@) + byte_views(vcl_nalus@)
        }),
{
    let has_params = any_param_set(&vcl_nalus);
    let has_vcl = any_vcl(&vcl_nalus);
    if !has_vcl {
        return Err(AccessUnitError::NoVcl);
    }
    if has_params || param_nals.len() == 0 {
        return Ok(vcl_nalus);
    }
    let mut out: Vec<Vec<u8>> = Vec::new();
    let mut i: usize = 0;
    while i < param_nals.len()
        invariant
            i <= param_nals@.len(),
            byte_views(out@) == byte_views(param_nals@).take(i as int),
        decreases param_nals@.len() - i,
    {
        let ghost before = byte_views(out@);
        let c = clone_bytes(&param_nals[i]);
        out.push(c);
        assert(byte_views(out@) =~= before.push(c@));
        assert(byte_views(param_nals@)[i as int] == c@);
        i += 1;
        assert(byte_views(out@) =~= byte_views(param_nals@).take(i as int));
    }
    let mut j: usize = 0;
    while j < vcl_nalus.len()
        invariant
            j <= vcl_nalus@.len(),
            byte_views(out@) == byte_views(param_nals@) + byte_views(vcl_nalus@).take(j as int),
        decreases vcl_nalus@.len() - j,
    {
        let ghost before = byte_views(out@);
        let c = clone_bytes(&vcl_nalus[j]);
        out.push(c);
        assert(byte_views(out@) =~= before.push(c@));
        assert(byte_views(vcl_nalus@)[j as int] == c@);
        j += 1;
        assert(byte_views(out@) =~= byte_views(param_nals@) + byte_views(vcl_nalus@).take(j as int));
    }
    assert(byte_views(vcl_nalus@).take(vcl_nalus@.len() as int) =~= byte_views(vcl_nalus@));
    Ok(out)
}

/// `nalu` without a leading `00 00 00 01` or `00 00 01`.
pub open spec fn without_start_code(n: Seq<u8>) -> Seq<u8> {
    if n.len() >= 4 && n[0] == 0 && n[1] == 0 && n[2] == 0 && n[3] == 1 {
        n.skip(4)
    } else if n.len() >= 3 && n[0] == 0 && n[1] == 0 && n[2] == 1 {
        n.skip(3)
    } else {
        n
    }
}

/// Strips a leading 4- or 3-byte start code.
pub fn strip_annex_b_start_code(nalu: &[u8]) -> (res: &[u8])
    ensures
        res@ == without_start_code(nalu@),
{
    if nalu.len() >= 4 && nalu[0] == 0 && nalu[1] == 0 && nalu[2] == 0 && nalu[3] == 1 {
        &nalu[4..nalu.len()]
    } else if nalu.len() >= 3 && nalu[0] == 0 && nalu[1] == 0 && nalu[2] == 1 {
        &nalu[3..nalu.len()]
    } else {
        nalu
    }
}

} // verus!
