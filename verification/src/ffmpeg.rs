//! Command lines of the `ffmpeg` processes the application runs: the live
//! low-latency encoder, the one-frame encoder, and the one-frame decoder.

use vstd::prelude::*;
use crate::encoder::{oneshot_x264_params, OneshotMode};
use crate::text::{decimal_chars, decimal_string, push_decimal, push_str};

verus! {

/// Characters of each `&str`.
pub open spec fn str_views(v: Seq<&str>) -> Seq<Seq<char>> {
    v.map_values(|s: &str| s@)
}

/// Characters of each `String`.
pub open spec fn string_views(v: Seq<String>) -> Seq<Seq<char>> {
    v.map_values(|s: String| s@)
}

/// Appends each literal as a new `String`.
fn push_lits(v: &mut Vec<String>, lits: &[&str])
    ensures
        string_views(final(v)@) == string_views(old(v)@) + str_views(lits@),
{
    let mut i: usize = 0;
    while i < lits.len()
        invariant
            i <= lits@.len(),
            string_views(v@) == string_views(old(v)@) + str_views(lits@).take(i as int),
        decreases lits@.len() - i,
    {
        let ghost before = string_views(v@);
        let s: String = lits[i].to_owned();
        v.push(s);
        assert(string_views(v@) =~= before.push(lits@[i as int]@));
        assert(str_views(lits@).take(i + 1) =~= str_views(lits@).take(i as int).push(lits@[i as int]@));
        i += 1;
    }
    assert(str_views(lits@).take(lits@.len() as int) =~= str_views(lits@));
}

/// Appends one `String`.
fn push_owned(v: &mut Vec<String>, s: String)
    ensures
        string_views(final(v)@) == string_views(old(v)@).push(s@),
{
    let ghost before = string_views(v@);
    let ghost sv = s@;
    v.push(s);
    assert(string_views(v@) =~= before.push(sv));
}

/// `WxH` in decimal.
pub open spec fn size_arg(width: u32, height: u32) -> Seq<char> {
    decimal_chars(width as nat) + seq!['x'] + decimal_chars(height as nat)
}

/// Keyframe interval: one second of frames (at least 1).
pub open spec fn gop_arg(fps: u32) -> Seq<char> {
    decimal_chars(if fps < 1 { 1 } else { fps as nat })
}

fn size_string(width: u32, height: u32) -> (s: String)
    ensures
        s@ == size_arg(width, height),
{
    let mut s = decimal_string(width as u64);
    push_str(&mut s, "x");
    proof { reveal_strlit("x"); }
    push_decimal(&mut s, height as u64);
    assert(s@ =~= size_arg(width, height));
    s
}

fn gop_string(fps: u32) -> (s: String)
    ensures
        s@ == gop_arg(fps),
{
    let g: u64 = if fps < 1 { 1 } else { fps as u64 };
    decimal_string(g)
}

/// x264 options of the live encoder (repeated headers except on Windows).
pub open spec fn live_x264_params(windows: bool) -> Seq<char> {
    if windows {
        "repeat-headers=0:annexb=1:nal-hrd=none:sync-lookahead=0:sliced-threads=0:slices=1:slice-max-size=0"@
    } else {
        "repeat-headers=1:annexb=1:nal-hrd=none:sync-lookahead=0:sliced-threads=0:slices=1:slice-max-size=0"@
    }
}

/// Arguments of the live encoder: raw RGB24 frames of `width` x `height` at
/// `fps` on stdin, low-latency baseline H.264 (Annex-B) on stdout, a keyframe
/// every frame on Windows and every second elsewhere.
pub open spec fn live_encoder_args(width: u32, height: u32, fps: u32, windows: bool) -> Seq<Seq<char>> {
    let gop = if windows { "1"@ } else { gop_arg(fps) };
    str_views(seq!["-nostdin", "-hide_banner", "-loglevel", "error", "-fflags", "nobuffer+flush_packets", "-f", "rawvideo", "-pix_fmt", "rgb24", "-s"])
        + seq![size_arg(width, height)]
        + str_views(seq!["-r"])
        + seq![decimal_chars(fps as nat)]
        + str_views(seq!["-i", "-", "-an", "-sn", "-dn", "-vf", "format=yuv420p", "-c:v", "libx264", "-pix_fmt", "yuv420p", "-preset", "ultrafast", "-tune", "zerolatency", "-profile:v", "baseline", "-bf", "0", "-g"])
        + seq![gop]
        + str_views(seq!["-keyint_min"])
        + seq![gop]
        + str_views(seq!["-sc_threshold", "0", "-threads", "1", "-slices", "1", "-x264-params"])
        + seq![live_x264_params(windows)]
        + str_views(seq!["-flags", "+low_delay", "-bsf:v", "h264_mp4toannexb", "-f", "h264", "-"])
}

/// Arguments of the live `ffmpeg` encoder.
pub fn live_encoder_args_for(width: u32, height: u32, fps: u32, windows: bool) -> (args: Vec<String>)
    ensures
        string_views(args@) == live_encoder_args(width, height, fps, windows),
{
    let mut args: Vec<String> = Vec::new();
    let a: [&str; 11] = ["-nostdin", "-hide_banner", "-loglevel", "error", "-fflags", "nobuffer+flush_packets", "-f", "rawvideo", "-pix_fmt", "rgb24", "-s"];
    assert(a@ =~= seq!["-nostdin", "-hide_banner", "-loglevel", "error", "-fflags", "nobuffer+flush_packets", "-f", "rawvideo", "-pix_fmt", "rgb24", "-s"]);
    push_lits(&mut args, &a);
    push_owned(&mut args, size_string(width, height));
    let b: [&str; 1] = ["-r"];
    assert(b@ =~= seq!["-r"]);
    push_lits(&mut args, &b);
    push_owned(&mut args, decimal_string(fps as u64));
    let c: [&str; 20] = ["-i", "-", "-an", "-sn", "-dn", "-vf", "format=yuv420p", "-c:v", "libx264", "-pix_fmt", "yuv420p", "-preset", "ultrafast", "-tune", "zerolatency", "-profile:v", "baseline", "-bf", "0", "-g"];
    assert(c@ =~= seq!["-i", "-", "-an", "-sn", "-dn", "-vf", "format=yuv420p", "-c:v", "libx264", "-pix_fmt", "yuv420p", "-preset", "ultrafast", "-tune", "zerolatency", "-profile:v", "baseline", "-bf", "0", "-g"]);
    push_lits(&mut args, &c);
    let gop: String = if windows { "1".to_owned() } else { gop_string(fps) };
    let gop2: String = if windows { "1".to_owned() } else { gop_string(fps) };
    push_owned(&mut args, gop);
    let d: [&str; 1] = ["-keyint_min"];
    assert(d@ =~= seq!["-keyint_min"]);
    push_lits(&mut args, &d);
    push_owned(&mut args, gop2);
    let e: [&str; 7] = ["-sc_threshold", "0", "-threads", "1", "-slices", "1", "-x264-params"];
    assert(e@ =~= seq!["-sc_threshold", "0", "-threads", "1", "-slices", "1", "-x264-params"]);
    push_lits(&mut args, &e);
    let x264: String = if windows {
        "repeat-headers=0:annexb=1:nal-hrd=none:sync-lookahead=0:sliced-threads=0:slices=1:slice-max-size=0".to_owned()
    } else {
        "repeat-headers=1:annexb=1:nal-hrd=none:sync-lookahead=0:sliced-threads=0:slices=1:slice-max-size=0".to_owned()
    };
    push_owned(&mut args, x264);
    let f: [&str; 7] = ["-flags", "+low_delay", "-bsf:v", "h264_mp4toannexb", "-f", "h264", "-"];
    assert(f@ =~= seq!["-flags", "+low_delay", "-bsf:v", "h264_mp4toannexb", "-f", "h264", "-"]);
    push_lits(&mut args, &f);
    args
}

/// x264 options of a one-frame encode.
pub open spec fn oneshot_params(mode: OneshotMode) -> Seq<char> {
    match mode {
        OneshotMode::ParamSets => "annexb=1:sliced-threads=0:sync-lookahead=0:slices=1:slice-max-size=0"@,
        OneshotMode::WithHeaders => "repeat-headers=1:annexb=1:sliced-threads=0:sync-lookahead=0:slices=1:slice-max-size=0"@,
    }
}

/// Arguments of a one-frame encoder: one raw RGB24 frame on stdin, one
/// baseline H.264 access unit (Annex-B) on stdout.
pub open spec fn oneshot_encoder_args(width: u32, height: u32, fps: u32, mode: OneshotMode) -> Seq<Seq<char>> {
    str_views(seq!["-nostdin", "-hide_banner", "-loglevel", "error", "-f", "rawvideo", "-pix_fmt", "rgb24", "-s"])
        + seq![size_arg(width, height)]
        + str_views(seq!["-r"])
        + seq![decimal_chars(fps as nat)]
        + str_views(seq!["-i", "-", "-frames:v", "1", "-an", "-vf", "format=yuv420p", "-c:v", "libx264", "-pix_fmt", "yuv420p", "-preset", "ultrafast", "-tune", "zerolatency", "-profile:v", "baseline", "-bf", "0", "-g"])
        + seq![gop_arg(fps)]
        + str_views(seq!["-keyint_min"])
        + seq![gop_arg(fps)]
        + str_views(seq!["-threads", "1", "-slices", "1", "-x264-params"])
        + seq![oneshot_params(mode)]
        + str_views(seq!["-bsf:v", "h264_mp4toannexb", "-f", "h264", "-"])
}

/// Arguments of a one-frame `ffmpeg` encode.
pub fn oneshot_encoder_args_for(width: u32, height: u32, fps: u32, mode: OneshotMode) -> (args: Vec<String>)
    ensures
        string_views(args@) == oneshot_encoder_args(width, height, fps, mode),
{
    let mut args: Vec<String> = Vec::new();
    let a: [&str; 9] = ["-nostdin", "-hide_banner", "-loglevel", "error", "-f", "rawvideo", "-pix_fmt", "rgb24", "-s"];
    assert(a@ =~= seq!["-nostdin", "-hide_banner", "-loglevel", "error", "-f", "rawvideo", "-pix_fmt", "rgb24", "-s"]);
    push_lits(&mut args, &a);
    push_owned(&mut args, size_string(width, height));
    let b: [&str; 1] = ["-r"];
    assert(b@ =~= seq!["-r"]);
    push_lits(&mut args, &b);
    push_owned(&mut args, decimal_string(fps as u64));
    let c: [&str; 20] = ["-i", "-", "-frames:v", "1", "-an", "-vf", "format=yuv420p", "-c:v", "libx264", "-pix_fmt", "yuv420p", "-preset", "ultrafast", "-tune", "zerolatency", "-profile:v", "baseline", "-bf", "0", "-g"];
    assert(c@ =~= seq!["-i", "-", "-frames:v", "1", "-an", "-vf", "format=yuv420p", "-c:v", "libx264", "-pix_fmt", "yuv420p", "-preset", "ultrafast", "-tune", "zerolatency", "-profile:v", "baseline", "-bf", "0", "-g"]);
    push_lits(&mut args, &c);
    push_owned(&mut args, gop_string(fps));
    let d: [&str; 1] = ["-keyint_min"];
    assert(d@ =~= seq!["-keyint_min"]);
    push_lits(&mut args, &d);
    push_owned(&mut args, gop_string(fps));
    let e: [&str; 5] = ["-threads", "1", "-slices", "1", "-x264-params"];
    assert(e@ =~= seq!["-threads", "1", "-slices", "1", "-x264-params"]);
    push_lits(&mut args, &e);
    push_owned(&mut args, oneshot_x264_params(mode).to_owned());
    let f: [&str; 5] = ["-bsf:v", "h264_mp4toannexb", "-f", "h264", "-"];
    assert(f@ =~= seq!["-bsf:v", "h264_mp4toannexb", "-f", "h264", "-"]);
    push_lits(&mut args, &f);
    args
}

/// Video filter of the decoder: scale to `WxH` without keeping the aspect ratio.
pub open spec fn scale_filter(width: u32, height: u32) -> Seq<char> {
    "scale="@ + decimal_chars(width as nat) + ":"@ + decimal_chars(height as nat) + ":force_original_aspect_ratio=disable:flags=fast_bilinear"@
}

/// Arguments of the one-frame decoder: one Annex-B access unit on stdin, one
/// RGB24 frame of `width` x `height` on stdout.
pub open spec fn decoder_args(width: u32, height: u32) -> Seq<Seq<char>> {
    str_views(seq!["-nostdin", "-hide_banner", "-loglevel", "error", "-probesize", "65536", "-analyzeduration", "500000", "-flags", "low_delay", "-f", "h264", "-c:v", "h264", "-i", "-", "-an", "-vf"])
        + seq![scale_filter(width, height)]
        + str_views(seq!["-pix_fmt", "rgb24", "-vframes", "1", "-f", "rawvideo", "-"])
}

/// Arguments of the one-frame `ffmpeg` decoder.
pub fn decoder_args_for(width: u32, height: u32) -> (args: Vec<String>)
    ensures
        string_views(args@) == decoder_args(width, height),
{
    let mut args: Vec<String> = Vec::new();
    let a: [&str; 18] = ["-nostdin", "-hide_banner", "-loglevel", "error", "-probesize", "65536", "-analyzeduration", "500000", "-flags", "low_delay", "-f", "h264", "-c:v", "h264", "-i", "-", "-an", "-vf"];
    assert(a@ =~= seq!["-nostdin", "-hide_banner", "-loglevel", "error", "-probesize", "65536", "-analyzeduration", "500000", "-flags", "low_delay", "-f", "h264", "-c:v", "h264", "-i", "-", "-an", "-vf"]);
    push_lits(&mut args, &a);
    let mut filter = "scale=".to_owned();
    push_decimal(&mut filter, width as u64);
    push_str(&mut filter, ":");
    push_decimal(&mut filter, height as u64);
    push_str(&mut filter, ":force_original_aspect_ratio=disable:flags=fast_bilinear");
    assert(filter@ =~= scale_filter(width, height));
    push_owned(&mut args, filter);
    let b: [&str; 7] = ["-pix_fmt", "rgb24", "-vframes", "1", "-f", "rawvideo", "-"];
    assert(b@ =~= seq!["-pix_fmt", "rgb24", "-vframes", "1", "-f", "rawvideo", "-"]);
    push_lits(&mut args, &b);
    args
}

} // verus!
