//! Encoder-side logic around the external H.264 encoder: frame geometry,
//! presentation times, and batching of the NAL units read from its output.

use vstd::prelude::*;
use vstd::slice::slice_to_vec;
use crate::nal::{
    any_nalu, any_vcl, attach_param_nals, byte_views, clone_bytes, first_nalu, first_start_from,
    filter_stream_nalus, is_dropped_type, is_param_set, is_vcl, kept_nalus, nalu_is_param_set,
    nalu_is_vcl, nalu_type, split_annex_b_nalus, split_nalus, take_first_nalu, find_annex_b_start,
    extend_bytes,
};
use crate::wire::{be32, read_be32};

verus! {

/// Default capture width.
pub const DEFAULT_WIDTH: u32 = 640;
/// Default capture height.
pub const DEFAULT_HEIGHT: u32 = 360;
/// Default frame rate.
pub const DEFAULT_FPS: u32 = 30;

/// The live encoder pipe is used up to 640 x 360; above that the stream
/// parser is unreliable and frames are encoded one at a time.
pub fn use_live_pipe_encoder(width: u32, height: u32) -> (res: bool)
    ensures
        res == (width as int * height as int <= 640 * 360),
{
    assert((width as u64) * (height as u64) <= u64::MAX) by (nonlinear_arith)
        requires width <= u32::MAX, height <= u32::MAX;
    (width as u64) * (height as u64) <= 640 * 360
}

/// Presentation time (ns) of frame `frame_index` at `fps` (at least 1), saturating.
pub open spec fn frame_pts_ns(frame_index: u64, fps: u32) -> int {
    let ns = frame_index as int * 1_000_000_000;
    let sat = if ns > u128::MAX { u128::MAX as int } else { ns };
    sat / (if fps < 1 { 1 } else { fps as int })
}

/// Presentation time of a frame (see [`frame_pts_ns`]).
pub fn pts_ns(frame_index: u64, fps: u32) -> (res: u128)
    ensures
        res as int == frame_pts_ns(frame_index, fps),
{
    assert((frame_index as u128) * 1_000_000_000u128 <= u128::MAX) by (nonlinear_arith)
        requires frame_index <= u64::MAX;
    let ns = (frame_index as u128) * 1_000_000_000u128;
    let d: u128 = if fps < 1 { 1 } else { fps as u128 };
    ns / d
}

/// Bytes of one RGB24 frame.
pub fn frame_bytes(width: u32, height: u32) -> (res: u128)
    ensures
        res as int == width as int * height as int * 3,
{
    assert((width as u128) * (height as u128) * 3 <= u128::MAX) by (nonlinear_arith)
        requires width <= u32::MAX, height <= u32::MAX;
    (width as u128) * (height as u128) * 3
}

/// Which headers a one-shot encode asks the encoder for.
#[derive(Debug, Clone, Copy, PartialEq, Eq, Structural)]
pub enum OneshotMode {
    /// Default headers; a single frame often yields only SPS/PPS.
    ParamSets,
    /// One access unit with matching SPS/PPS and slice from a single encode.
    WithHeaders,
}

/// x264 options for a one-shot encode.
pub fn oneshot_x264_params(mode: OneshotMode) -> (res: &'static str)
    ensures
        mode == OneshotMode::ParamSets ==> res@ == "annexb=1:sliced-threads=0:sync-lookahead=0:slices=1:slice-max-size=0"@,
        mode == OneshotMode::WithHeaders ==> res@ == "repeat-headers=1:annexb=1:sliced-threads=0:sync-lookahead=0:slices=1:slice-max-size=0"@,
{
    match mode {
        OneshotMode::ParamSets => "annexb=1:sliced-threads=0:sync-lookahead=0:slices=1:slice-max-size=0",
        OneshotMode::WithHeaders => "repeat-headers=1:annexb=1:sliced-threads=0:sync-lookahead=0:slices=1:slice-max-size=0",
    }
}

/// Stand-in encoder output when no encoder is installed: an SPS-like unit
/// and an IDR unit of `max(w * h / 8, 1400)` bytes of the frame index's low byte.
pub open spec fn synthetic_units(width: u32, height: u32, frame_index: u64) -> Seq<Seq<u8>> {
    let n = (width as int * height as int) / 8;
    let len = if n < 1400 { 1400 } else { n };
    seq![
        seq![0u8, 0u8, 0u8, 1u8, 0x67u8, 0x42u8, 0x00u8, 0x1fu8],
        seq![0u8, 0u8, 0u8, 1u8, 0x65u8] + Seq::new(len as nat, |i: int| (frame_index % 256) as u8),
    ]
}

/// Synthetic encoder output (see [`synthetic_units`]).
pub fn synthetic_nalus(width: u32, height: u32, frame_index: u64) -> (res: Vec<Vec<u8>>)
    requires
        (width as int * height as int) / 8 + 5 <= usize::MAX,
    ensures
        byte_views(res@) == synthetic_units(width, height, frame_index),
{
    let sps = vec![0u8, 0, 0, 1, 0x67, 0x42, 0x00, 0x1f];
    let mut idr = vec![0u8, 0, 0, 1, 0x65];
    assert((width as u64) * (height as u64) <= u64::MAX) by (nonlinear_arith)
        requires width <= u32::MAX, height <= u32::MAX;
    let n = ((width as u64) * (height as u64) / 8) as usize;
    let len: usize = if n < 1400 { 1400 } else { n };
    let fill = (frame_index % 256) as u8;
    let mut i: usize = 0;
    while i < len
        invariant
            i <= len,
            len as int + 5 <= usize::MAX,
            idr@ == seq![0u8, 0u8, 0u8, 1u8, 0x65u8] + Seq::new(i as nat, |k: int| fill),
        decreases len - i,
    {
        idr.push(fill);
        i += 1;
        assert(idr@ =~= seq![0u8, 0u8, 0u8, 1u8, 0x65u8] + Seq::new(i as nat, |k: int| fill));
    }
    let out = vec![sps, idr];
    assert(byte_views(out@) =~= synthetic_units(width, height, frame_index));
    out
}

/// Pending units with a slice among them are released as one batch.
pub open spec fn emit_step(pending: Seq<Seq<u8>>) -> (Seq<Seq<u8>>, Option<Seq<Seq<u8>>>) {
    if any_nalu(pending, |n: Seq<u8>| is_vcl(n)) {
        (Seq::empty(), Some(pending))
    } else {
        (pending, None)
    }
}

/// One unit read from the encoder: SEI, AUD and filler units are dropped;
/// others join the pending list, which is released once it holds a slice.
pub open spec fn push_step(pending: Seq<Seq<u8>>, n: Seq<u8>) -> (Seq<Seq<u8>>, Option<Seq<Seq<u8>>>) {
    if is_dropped_type(n) {
        (pending, None)
    } else {
        emit_step(pending.push(n))
    }
}

/// Pending list and released batches after reading `ns` in order.
pub open spec fn push_all(pending: Seq<Seq<u8>>, ns: Seq<Seq<u8>>) -> (Seq<Seq<u8>>, Seq<Seq<Seq<u8>>>)
    decreases ns.len(),
{
    if ns.len() == 0 {
        (pending, Seq::empty())
    } else {
        let (p, out) = push_all(pending, ns.drop_last());
        let (p2, e) = push_step(p, ns.last());
        match e {
            Some(batch) => (p2, out.push(batch)),
            None => (p2, out),
        }
    }
}

fn any_vcl_in(ns: &Vec<Vec<u8>>) -> (res: bool)
    ensures
        res == any_nalu(byte_views(ns@), |n: Seq<u8>| is_vcl(n)),
{
    let mut i: usize = 0;
    while i < ns.len()
        invariant
            i <= ns@.len(),
            forall|j: int| 0 <= j < i ==> !is_vcl(#[trigger] byte_views(ns@)[j]),
        decreases ns@.len() - i,
    {
        if nalu_is_vcl(ns[i].as_slice()) {
            assert((|n: Seq<u8>| is_vcl(n))(byte_views(ns@)[i as int]));
            return true;
        }
        i += 1;
    }
    false
}

/// Releases the pending units as one batch when one of them is a slice.
pub fn try_emit_pending(pending: &mut Vec<Vec<u8>>) -> (res: Option<Vec<Vec<u8>>>)
    ensures
        (byte_views(final(pending)@), match res {
            Some(b) => Some(byte_views(b@)),
            None => None,
        }) == emit_step(byte_views(old(pending)@)),
{
    if pending.len() == 0 {
        assert(!any_nalu(byte_views(pending@), |n: Seq<u8>| is_vcl(n)));
        return None;
    }
    if any_vcl_in(pending) {
        let mut batch: Vec<Vec<u8>> = Vec::new();
        std::mem::swap(&mut batch, pending);
        assert(byte_views(pending@) =~= Seq::<Seq<u8>>::empty());
        Some(batch)
    } else {
        None
    }
}

/// Adds one unit read from the encoder (see [`push_step`]).
pub fn push_stream_nalu(pending: &mut Vec<Vec<u8>>, nalu: Vec<u8>) -> (res: Option<Vec<Vec<u8>>>)
    ensures
        (byte_views(final(pending)@), match res {
            Some(b) => Some(byte_views(b@)),
            None => None,
        }) == push_step(byte_views(old(pending)@), nalu@),
{
    if crate::nal::nalu_type_of(nalu.as_slice()) matches Some(t) && (t == 6 || (9 <= t && t <= 12)) {
        return None;
    }
    let ghost before = byte_views(pending@);
    let ghost nv = nalu@;
    pending.push(nalu);
    assert(byte_views(pending@) =~= before.push(nv));
    try_emit_pending(pending)
}

/// Bytes consumed from the front of `b` by splitting off units one after another.
pub open spec fn split_consumed(b: Seq<u8>) -> int
    decreases b.len(),
{
    match first_nalu(b) {
        Some((n, c)) => if 0 < c <= b.len() {
            c + split_consumed(b.skip(c))
        } else {
            0
        },
        None => 0,
    }
}

/// Takes every complete unit from the front of `buf` and feeds it to the
/// pending list; returns the batches released on the way.
pub fn drain_complete_nalus(buf: &mut Vec<u8>, pending: &mut Vec<Vec<u8>>) -> (res: Vec<Vec<Vec<u8>>>)
    ensures
        ({
            let r = push_all(byte_views(old(pending)@), split_nalus(old(buf)@));
            &&& byte_views(final(pending)@) == r.0
            &&& res@.map_values(|b: Vec<Vec<u8>>| byte_views(b@)) == r.1
            &&& final(buf)@ == old(buf)@.skip(split_consumed(old(buf)@))
        }),
{
    let ghost b0 = buf@;
    let ghost p0 = byte_views(pending@);
    let mut batches: Vec<Vec<Vec<u8>>> = Vec::new();
    let mut off: usize = 0;
    let ghost mut done: Seq<Seq<u8>> = Seq::empty();
    assert(b0.skip(0) =~= b0);
    loop
        invariant
            off <= b0.len(),
            buf@ == b0,
            done + split_nalus(b0.skip(off as int)) == split_nalus(b0),
            off + split_consumed(b0.skip(off as int)) == split_consumed(b0),
            (byte_views(pending@), batches@.map_values(|b: Vec<Vec<u8>>| byte_views(b@))) == push_all(p0, done),
        ensures
            first_nalu(b0.skip(off as int)) is None,
        decreases b0.len() - off,
    {
        let rest = &buf.as_slice()[off..buf.len()];
        assert(rest@ =~= b0.skip(off as int));
        proof {
            crate::nal::lemma_first_nalu_progress(rest@);
        }
        match take_first_nalu(rest) {
            Some((nalu, consumed)) => {
                assert(rest@.skip(consumed as int) =~= b0.skip(off + consumed));
                let ghost nv = nalu@;
                let ghost old_batches = batches@.map_values(|b: Vec<Vec<u8>>| byte_views(b@));
                let ghost old_done = done;
                let e = push_stream_nalu(pending, nalu);
                proof {
                    done = done.push(nv);
                    assert(done.drop_last() =~= old_done);
                    assert(old_done + split_nalus(b0.skip(off as int)) == old_done + (seq![nv]
                        + split_nalus(b0.skip(off + consumed))));
                    assert(done + split_nalus(b0.skip(off + consumed)) =~= old_done + (seq![nv]
                        + split_nalus(b0.skip(off + consumed))));
                }
                match e {
                    Some(batch) => {
                        let ghost bv = byte_views(batch@);
                        batches.push(batch);
                        assert(batches@.map_values(|b: Vec<Vec<u8>>| byte_views(b@)) =~= old_batches.push(bv));
                    },
                    None => {},
                }
                off = off + consumed;
            },
            None => {
                break;
            },
        }
    }
    proof {
        assert(split_nalus(b0.skip(off as int)) =~= Seq::<Seq<u8>>::empty());
        assert(done + Seq::<Seq<u8>>::empty() =~= done);
    }
    let remaining = slice_to_vec(&buf.as_slice()[off..buf.len()]);
    *buf = remaining;
    batches
}

/// Length-prefixed (AVCC) units at the front of `b`, each turned into an
/// Annex-B unit, and the bytes they take: a 4-byte big-endian length followed
/// by that many bytes, while the length is non-zero and fits.
pub open spec fn avcc_units(b: Seq<u8>) -> (Seq<Seq<u8>>, int)
    decreases b.len(),
{
    if b.len() < 4 {
        (Seq::empty(), 0)
    } else {
        let l = be32(b, 0) as int;
        if l == 0 || l > b.len() - 4 {
            (Seq::empty(), 0)
        } else {
            let rest = avcc_units(b.skip(4 + l));
            (seq![seq![0u8, 0u8, 0u8, 1u8] + b.subrange(4, 4 + l)] + rest.0, 4 + l + rest.1)
        }
    }
}

/// When `buf` holds no Annex-B start code, takes length-prefixed units from
/// its front and feeds them to the pending list; returns the batches released.
pub fn drain_avcc_nalus(buf: &mut Vec<u8>, pending: &mut Vec<Vec<u8>>) -> (res: Vec<Vec<Vec<u8>>>)
    ensures
        first_start_from(old(buf)@, 0) is Some ==> {
            &&& final(buf)@ == old(buf)@
            &&& final(pending)@ == old(pending)@
            &&& res@.len() == 0
        },
        first_start_from(old(buf)@, 0) is None ==> {
            let u = avcc_units(old(buf)@);
            let r = push_all(byte_views(old(pending)@), u.0);
            &&& byte_views(final(pending)@) == r.0
            &&& res@.map_values(|b: Vec<Vec<u8>>| byte_views(b@)) == r.1
            &&& final(buf)@ == old(buf)@.skip(u.1)
        },
{
    let mut batches: Vec<Vec<Vec<u8>>> = Vec::new();
    if find_annex_b_start(buf.as_slice()).is_some() {
        return batches;
    }
    let ghost b0 = buf@;
    let ghost p0 = byte_views(pending@);
    let mut off: usize = 0;
    let ghost mut done: Seq<Seq<u8>> = Seq::empty();
    assert(b0.skip(0) =~= b0);
    loop
        invariant
            off <= b0.len(),
            buf@ == b0,
            done + avcc_units(b0.skip(off as int)).0 == avcc_units(b0).0,
            off + avcc_units(b0.skip(off as int)).1 == avcc_units(b0).1,
            (byte_views(pending@), batches@.map_values(|b: Vec<Vec<u8>>| byte_views(b@))) == push_all(p0, done),
        ensures
            avcc_units(b0.skip(off as int)).0 == Seq::<Seq<u8>>::empty(),
            avcc_units(b0.skip(off as int)).1 == 0,
        decreases b0.len() - off,
    {
        let ghost rest = b0.skip(off as int);
        if buf.len() - off < 4 {
            break;
        }
        let len = read_be32(buf.as_slice(), off) as usize;
        assert(be32(b0, off as int) == be32(rest, 0));
        if len == 0 || len > buf.len() - off - 4 {
            break;
        }
        let mut nalu = vec![0u8, 0, 0, 1];
        extend_bytes(&mut nalu, &buf.as_slice()[off + 4..off + 4 + len]);
        assert(nalu@ =~= seq![0u8, 0u8, 0u8, 1u8] + rest.subrange(4, 4 + len as int));
        assert(rest.skip(4 + len as int) =~= b0.skip(off + 4 + len));
        let ghost nv = nalu@;
        let ghost old_batches = batches@.map_values(|b: Vec<Vec<u8>>| byte_views(b@));
        let ghost old_done = done;
        let e = push_stream_nalu(pending, nalu);
        proof {
            done = done.push(nv);
            assert(done.drop_last() =~= old_done);
            assert(done + avcc_units(b0.skip(off + 4 + len)).0 =~= old_done + avcc_units(rest).0);
        }
        match e {
            Some(batch) => {
                let ghost bv = byte_views(batch@);
                batches.push(batch);
                assert(batches@.map_values(|b: Vec<Vec<u8>>| byte_views(b@)) =~= old_batches.push(bv));
            },
            None => {},
        }
        off = off + 4 + len;
    }
    assert(done + Seq::<Seq<u8>>::empty() =~= done);
    let remaining = slice_to_vec(&buf.as_slice()[off..buf.len()]);
    *buf = remaining;
    assert(buf@ =~= b0.skip(off as int));
    batches
}

/// Which encoder produces the frames.
#[derive(Debug, Clone, Copy, PartialEq, Eq, Structural)]
pub enum EncoderBackend {
    /// A long-lived encoder process fed frame by frame.
    Pipe,
    /// One encoder process per frame.
    Oneshot,
    /// No encoder installed: synthetic units.
    Synthetic,
}

/// How starting the live encoder process went.
#[derive(Debug, Clone, Copy, PartialEq, Eq, Structural)]
pub enum SpawnOutcome {
    Started,
    /// The encoder program is not installed.
    NotInstalled,
    Failed,
}

/// The backend after trying to start the live encoder: the pipe when it
/// started, synthetic output when no encoder is installed, one process per
/// frame otherwise.
pub fn backend_after_spawn(outcome: SpawnOutcome) -> (r: EncoderBackend)
    ensures
        outcome == SpawnOutcome::Started ==> r == EncoderBackend::Pipe,
        outcome == SpawnOutcome::NotInstalled ==> r == EncoderBackend::Synthetic,
        outcome == SpawnOutcome::Failed ==> r == EncoderBackend::Oneshot,
{
    match outcome {
        SpawnOutcome::Started => EncoderBackend::Pipe,
        SpawnOutcome::NotInstalled => EncoderBackend::Synthetic,
        SpawnOutcome::Failed => EncoderBackend::Oneshot,
    }
}

/// Why a frame could not be encoded.
#[derive(Debug, Clone, Copy, PartialEq, Eq, Structural)]
pub enum EncoderError {
    /// The frame is not `width * height * 3` bytes.
    FrameSize { got: usize, expected: u128 },
    /// A parameter-set prime gave no SPS or PPS.
    NoParamSets,
    /// A one-frame encode gave no NAL unit.
    NoNalus,
    /// The encoder output holds no slice unit.
    NoVcl,
    /// The backend encodes in an encoder process, which the caller runs.
    ProcessBackend,
}

/// The parameter sets (SPS, PPS) among the units, in order.
pub open spec fn param_sets_of(ns: Seq<Seq<u8>>) -> Seq<Seq<u8>> {
    ns.filter(|n: Seq<u8>| is_param_set(n))
}

/// The parameter sets (SPS, PPS) among encoder output units, in order.
pub fn param_set_nalus(nalus: &Vec<Vec<u8>>) -> (res: Vec<Vec<u8>>)
    ensures
        byte_views(res@) == param_sets_of(byte_views(nalus@)),
{
    let mut out: Vec<Vec<u8>> = Vec::new();
    let mut i: usize = 0;
    let ghost all = byte_views(nalus@);
    while i < nalus.len()
        invariant
            i <= nalus@.len(),
            all == byte_views(nalus@),
            byte_views(out@) == param_sets_of(all.take(i as int)),
        decreases nalus@.len() - i,
    {
        reveal_with_fuel(Seq::<_>::filter, 1);
        let n = &nalus[i];
        assert(all.take(i + 1).drop_last() =~= all.take(i as int));
        assert(all.take(i + 1).last() == n@);
        if nalu_is_param_set(n.as_slice()) {
            let ghost before = byte_views(out@);
            out.push(clone_bytes(n));
            assert(byte_views(out@) =~= before.push(n@));
        }
        i += 1;
    }
    assert(all.take(nalus@.len() as int) =~= all);
    out
}

/// Parameter sets from a priming encode; an encode without any is an error.
pub fn prime_from_output(nalus: &Vec<Vec<u8>>) -> (res: Result<Vec<Vec<u8>>, EncoderError>)
    ensures
        param_sets_of(byte_views(nalus@)).len() == 0 ==> res == Err::<Vec<Vec<u8>>, EncoderError>(EncoderError::NoParamSets),
        param_sets_of(byte_views(nalus@)).len() > 0 ==> (res matches Ok(p) && byte_views(p@) == param_sets_of(byte_views(nalus@))),
{
    let p = param_set_nalus(nalus);
    if p.len() == 0 {
        Err(EncoderError::NoParamSets)
    } else {
        Ok(p)
    }
}

/// Units of a one-frame encode's output: split at start codes, SEI, AUD,
/// end-of-sequence, end-of-stream and filler dropped; no unit at all is an error.
pub fn oneshot_output_nalus(stdout: &[u8]) -> (res: Result<Vec<Vec<u8>>, EncoderError>)
    ensures
        split_nalus(stdout@).len() == 0 ==> res == Err::<Vec<Vec<u8>>, EncoderError>(EncoderError::NoNalus),
        split_nalus(stdout@).len() > 0 ==> (res matches Ok(ns) && byte_views(ns@) == kept_nalus(split_nalus(stdout@))),
{
    let nalus = split_annex_b_nalus(stdout);
    assert(byte_views(nalus@) == split_nalus(stdout@));
    if nalus.len() == 0 {
        return Err(EncoderError::NoNalus);
    }
    Ok(filter_stream_nalus(nalus))
}

/// A one-frame encode with slice data, as needed for an access unit; none is an error.
pub fn require_vcl(nalus: Vec<Vec<u8>>) -> (res: Result<Vec<Vec<u8>>, EncoderError>)
    ensures
        !any_nalu(byte_views(nalus@), |n: Seq<u8>| is_vcl(n)) ==> res == Err::<Vec<Vec<u8>>, EncoderError>(EncoderError::NoVcl),
        any_nalu(byte_views(nalus@), |n: Seq<u8>| is_vcl(n)) ==> (res matches Ok(ns) && byte_views(ns@) == byte_views(nalus@)),
{
    if any_vcl(&nalus) {
        Ok(nalus)
    } else {
        Err(EncoderError::NoVcl)
    }
}

/// A video encoder: RGB24 frames in, Annex B NAL units and the frame's
/// presentation time (ns) out.
pub trait VideoEncoder {
    type Error;

    fn encode_frame(&mut self, rgb24: &[u8], frame_index: u64) -> Result<(Vec<Vec<u8>>, u128), Self::Error>;
}

/// Encoder state apart from the encoder process: frame geometry and rate,
/// the backend in use, and the cached parameter sets that are put in front of
/// access units that lack them.
pub struct EncoderCore {
    width: u32,
    height: u32,
    fps: u32,
    backend: EncoderBackend,
    param_nals: Vec<Vec<u8>>,
}

/// Plain-value state of an encoder: width, height, fps, backend, cached parameter sets.
pub type EncoderView = (u32, u32, u32, EncoderBackend, Seq<Seq<u8>>);

impl View for EncoderCore {
    type V = EncoderView;

    closed spec fn view(&self) -> EncoderView {
        (self.width, self.height, self.fps, self.backend, byte_views(self.param_nals@))
    }
}

impl EncoderCore {
    /// An encoder opened with `backend`, keeping the parameter sets primed
    /// from a warm-up frame (dropped for synthetic output).
    pub fn opened(width: u32, height: u32, fps: u32, backend: EncoderBackend, primed: Vec<Vec<u8>>) -> (r: Self)
        ensures
            r@ == (width, height, fps, backend, if backend == EncoderBackend::Synthetic { Seq::<Seq<u8>>::empty() } else { byte_views(primed@) }),
    {
        let param_nals = if backend == EncoderBackend::Synthetic {
            let empty: Vec<Vec<u8>> = Vec::new();
            assert(byte_views(empty@) =~= Seq::<Seq<u8>>::empty());
            empty
        } else {
            primed
        };
        EncoderCore { width, height, fps, backend, param_nals }
    }

    /// A synthetic encoder (no encoder installed).
    pub fn open_synthetic(width: u32, height: u32, fps: u32) -> (r: Self)
        ensures
            r@ == (width, height, fps, EncoderBackend::Synthetic, Seq::<Seq<u8>>::empty()),
    {
        let r = EncoderCore { width, height, fps, backend: EncoderBackend::Synthetic, param_nals: Vec::new() };
        assert(byte_views(r.param_nals@) =~= Seq::<Seq<u8>>::empty());
        r
    }

    /// The backend in use.
    pub fn backend(&self) -> (r: EncoderBackend)
        ensures
            r == self@.3,
    {
        self.backend
    }

    /// Falls back to one encoder process per frame.
    pub fn switch_to_oneshot(&mut self)
        ensures
            final(self)@ == (old(self)@.0, old(self)@.1, old(self)@.2, EncoderBackend::Oneshot, old(self)@.4),
    {
        self.backend = EncoderBackend::Oneshot;
    }

    /// A frame must be exactly `width * height * 3` bytes.
    pub fn check_frame(&self, rgb24_len: usize) -> (r: Result<(), EncoderError>)
        ensures
            r is Ok <==> rgb24_len as int == self@.0 as int * self@.1 as int * 3,
            r is Err ==> r == Err::<(), EncoderError>(EncoderError::FrameSize { got: rgb24_len, expected: (self@.0 as int * self@.1 as int * 3) as u128 }),
    {
        let expected = frame_bytes(self.width, self.height);
        if rgb24_len as u128 != expected {
            Err(EncoderError::FrameSize { got: rgb24_len, expected })
        } else {
            Ok(())
        }
    }

    /// Presentation time of frame `frame_index`.
    pub fn frame_pts(&self, frame_index: u64) -> (r: u128)
        ensures
            r as int == frame_pts_ns(frame_index, self@.2),
    {
        pts_ns(frame_index, self.fps)
    }

    /// After a one-frame encode: parameter sets in its output replace the
    /// cached ones. Returns whether the cache is still empty and should be
    /// primed.
    pub fn refresh_param_nals(&mut self, nalus: &Vec<Vec<u8>>) -> (needs_prime: bool)
        ensures
            ({
                let inline = param_sets_of(byte_views(nalus@));
                &&& final(self)@ == (old(self)@.0, old(self)@.1, old(self)@.2, old(self)@.3,
                    if inline.len() > 0 { inline } else { old(self)@.4 })
                &&& needs_prime == (inline.len() == 0 && old(self)@.4.len() == 0)
            }),
    {
        let inline = param_set_nalus(nalus);
        if inline.len() > 0 {
            self.param_nals = inline;
            false
        } else {
            self.param_nals.len() == 0
        }
    }

    /// Replaces the cached parameter sets.
    pub fn set_param_nals(&mut self, params: Vec<Vec<u8>>)
        ensures
            final(self)@ == (old(self)@.0, old(self)@.1, old(self)@.2, old(self)@.3, byte_views(params@)),
    {
        self.param_nals = params;
    }

    /// An access unit from encoder output: the cached parameter sets go in
    /// front when the output has slice data but no parameter set of its own.
    pub fn attach_params(&self, nalus: Vec<Vec<u8>>) -> (res: Result<Vec<Vec<u8>>, EncoderError>)
        ensures
            res is Err <==> !any_nalu(byte_views(nalus@), |n: Seq<u8>| is_vcl(n)),
            res is Err ==> res == Err::<Vec<Vec<u8>>, EncoderError>(EncoderError::NoVcl),
            res matches Ok(out) ==> byte_views(out@) == (if any_nalu(byte_views(nalus@), |n: Seq<u8>| is_param_set(n)) || self@.4.len() == 0 {
                byte_views(nalus@)
            } else {
                self@.4 + byte_views(nalus@)
            }),
    {
        match attach_param_nals(&self.param_nals, nalus) {
            Ok(out) => Ok(out),
            Err(_) => Err(EncoderError::NoVcl),
        }
    }

    /// One synthetic frame: checked for size, then the synthetic units and
    /// the frame's presentation time.
    pub fn encode_synthetic(&self, rgb24: &[u8], frame_index: u64) -> (res: Result<(Vec<Vec<u8>>, u128), EncoderError>)
        requires
            (self@.0 as int * self@.1 as int) / 8 + 5 <= usize::MAX,
        ensures
            rgb24@.len() != self@.0 as int * self@.1 as int * 3 ==> res is Err,
            rgb24@.len() == self@.0 as int * self@.1 as int * 3 ==> (res matches Ok(p)
                && byte_views(p.0@) == synthetic_units(self@.0, self@.1, frame_index)
                && p.1 as int == frame_pts_ns(frame_index, self@.2)),
    {
        match self.check_frame(rgb24.len()) {
            Err(e) => Err(e),
            Ok(()) => Ok((synthetic_nalus(self.width, self.height, frame_index), pts_ns(frame_index, self.fps))),
        }
    }
}

impl VideoEncoder for EncoderCore {
    type Error = EncoderError;

    /// A frame of the wrong size is refused and changes nothing. The
    /// synthetic backend produces its units and the frame's presentation
    /// time; the pipe and one-shot backends leave the encoding to the encoder
    /// process (`ProcessBackend`).
    fn encode_frame(&mut self, rgb24: &[u8], frame_index: u64) -> (res: Result<(Vec<Vec<u8>>, u128), EncoderError>)
        ensures
            final(self)@ == old(self)@,
            rgb24@.len() != old(self)@.0 as int * old(self)@.1 as int * 3 ==> res == Err::<(Vec<Vec<u8>>, u128), EncoderError>(
                EncoderError::FrameSize { got: rgb24@.len() as usize, expected: (old(self)@.0 as int * old(self)@.1 as int * 3) as u128 },
            ),
            rgb24@.len() == old(self)@.0 as int * old(self)@.1 as int * 3 && old(self)@.3 == EncoderBackend::Synthetic ==> (res matches Ok(p)
                && byte_views(p.0@) == synthetic_units(old(self)@.0, old(self)@.1, frame_index)
                && p.1 as int == frame_pts_ns(frame_index, old(self)@.2)),
            rgb24@.len() == old(self)@.0 as int * old(self)@.1 as int * 3 && old(self)@.3 != EncoderBackend::Synthetic ==> res
                == Err::<(Vec<Vec<u8>>, u128), EncoderError>(EncoderError::ProcessBackend),
    {
        match self.check_frame(rgb24.len()) {
            Err(e) => Err(e),
            Ok(()) => {
                if self.backend == EncoderBackend::Synthetic {
                    assert((self.width as int * self.height as int) / 8 + 5 <= usize::MAX) by (nonlinear_arith)
                        requires
                            rgb24@.len() == self.width as int * self.height as int * 3,
                            rgb24@.len() <= usize::MAX,
                    ;
                    self.encode_synthetic(rgb24, frame_index)
                } else {
                    Err(EncoderError::ProcessBackend)
                }
            },
        }
    }
}

/// A pending list that holds a coded slice (NAL type 1) or an IDR slice
/// (type 5) is released whole as one batch and the list starts over empty;
/// one without either stays pending. So a slice read from the encoder always
/// releases a batch that ends with it.
pub proof fn lemma_slices_release_batch(pending: Seq<Seq<u8>>, n: Seq<u8>)
    ensures
        (exists|i: int| 0 <= i < pending.len() && (nalu_type(#[trigger] pending[i]) == Some(1u8)
            || nalu_type(pending[i]) == Some(5u8))) ==> emit_step(pending) == (Seq::<Seq<u8>>::empty(), Some(
            pending,
        )),
        (forall|i: int| 0 <= i < pending.len() ==> nalu_type(#[trigger] pending[i]) != Some(1u8)
            && nalu_type(pending[i]) != Some(5u8)) ==> emit_step(pending) == (pending, None::<Seq<Seq<u8>>>),
        nalu_type(n) == Some(1u8) || nalu_type(n) == Some(5u8) ==> push_step(pending, n) == (
            Seq::<Seq<u8>>::empty(),
            Some(pending.push(n)),
        ),
{
    if exists|i: int| 0 <= i < pending.len() && (nalu_type(#[trigger] pending[i]) == Some(1u8)
        || nalu_type(pending[i]) == Some(5u8)) {
        let i = choose|i: int| 0 <= i < pending.len() && (nalu_type(#[trigger] pending[i]) == Some(1u8)
            || nalu_type(pending[i]) == Some(5u8));
        assert((|m: Seq<u8>| is_vcl(m))(pending[i]));
    }
    let p2 = pending.push(n);
    if nalu_type(n) == Some(1u8) || nalu_type(n) == Some(5u8) {
        assert(p2[p2.len() - 1] == n);
        assert((|m: Seq<u8>| is_vcl(m))(p2[p2.len() - 1]));
    }
}

} // verus!
