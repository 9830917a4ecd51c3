//! Audio stream logic: 20 ms interleaved PCM frames, the checks around the
//! Opus codec, Opus over RTP, and the options of a combined A/V receiver.
//! The codec itself (floating-point PCM) and the audio devices live in the
//! application.

use vstd::prelude::*;
use crate::protocol::audio::{CHANNELS, SAMPLE_RATE};
use crate::protocol::rtp::{AUDIO_SAMPLES_PER_FRAME, PT_OPUS};
use crate::rtcp::{build_rtcp_sr, ntp_of_wall, rtcp_sr_bytes, wall_to_ntp};
use crate::rtp_packet::{parse_rtp, plain_header_fields, rtp_packet, rtp_packet_bytes, rtp_parsed};
use crate::sender::seq_after;

verus! {

/// Samples per channel in one 20 ms frame at 48 kHz.
pub const FRAME_SAMPLES: usize = 960;

/// Bytes of one interleaved 16-bit PCM frame with `channels` channels.
pub fn interleaved_frame_bytes(channels: u16) -> (r: usize)
    ensures
        r == 960 * channels as int * 2,
{
    FRAME_SAMPLES * channels as usize * 2
}

/// Session sample rate (Hz).
pub fn sample_rate() -> (r: u32)
    ensures
        r == 48_000,
{
    SAMPLE_RATE
}

/// Default channel count.
pub fn channels() -> (r: u16)
    ensures
        r == 2,
{
    CHANNELS
}

/// One 20 ms PCM frame (interleaved 16-bit samples).
pub struct PcmFrame {
    pub samples: Vec<i16>,
    pub channels: u16,
}

impl PcmFrame {
    /// A two-channel frame.
    pub fn stereo(samples: Vec<i16>) -> (r: Self)
        ensures
            r.samples@ == samples@ && r.channels == 2,
    {
        PcmFrame { samples, channels: 2 }
    }
}

/// Why audio could not be handled.
#[derive(Debug, Clone, Copy, PartialEq, Eq, Structural)]
pub enum AudioError {
    /// Only mono and stereo are supported.
    UnsupportedChannels { channels: u16 },
    /// A PCM frame does not hold one 20 ms frame for its channel count.
    FrameLength { got: usize, expected: usize },
    /// An empty Opus payload.
    EmptyPayload,
    /// The decoder reported more samples than one frame holds.
    UnexpectedSampleCount { samples: usize },
    /// The PCM source stopped.
    SourceStopped,
}

/// The codec accepts one or two channels.
pub fn check_channels(channels: u16) -> (r: Result<u16, AudioError>)
    ensures
        (channels == 1 || channels == 2) ==> r == Ok::<u16, AudioError>(channels),
        !(channels == 1 || channels == 2) ==> r == Err::<u16, AudioError>(AudioError::UnsupportedChannels { channels }),
{
    if channels != 1 && channels != 2 {
        Err(AudioError::UnsupportedChannels { channels })
    } else {
        Ok(channels)
    }
}

/// A frame handed to the encoder holds exactly 960 samples per channel.
pub fn check_frame_len(samples_len: usize, channels: u16) -> (r: Result<(), AudioError>)
    ensures
        samples_len == 960 * channels as int ==> r is Ok,
        samples_len != 960 * channels as int ==> r == Err::<(), AudioError>(AudioError::FrameLength { got: samples_len, expected: (960 * channels as int) as usize }),
{
    let expected: usize = FRAME_SAMPLES * channels as usize;
    if samples_len != expected {
        Err(AudioError::FrameLength { got: samples_len, expected })
    } else {
        Ok(())
    }
}

/// A payload handed to the decoder is not empty.
pub fn check_opus_payload(payload: &[u8]) -> (r: Result<(), AudioError>)
    ensures
        payload@.len() == 0 <==> r == Err::<(), AudioError>(AudioError::EmptyPayload),
        payload@.len() > 0 ==> r is Ok,
{
    if payload.len() == 0 {
        Err(AudioError::EmptyPayload)
    } else {
        Ok(())
    }
}

/// Interleaved samples the decoder produced: `samples` per channel, which
/// must fit the frame buffer of 960 per channel.
pub fn decoded_sample_count(samples: usize, channels: u16) -> (r: Result<usize, AudioError>)
    ensures
        samples as int * channels as int <= 960 * channels as int ==> r == Ok::<usize, AudioError>((samples as int * channels as int) as usize),
        samples as int * channels as int > 960 * channels as int ==> r == Err::<usize, AudioError>(AudioError::UnexpectedSampleCount { samples }),
{
    assert(samples as int * channels as int <= 0xffff_ffff_ffff_ffff * 0xffff) by (nonlinear_arith)
        requires samples <= 0xffff_ffff_ffff_ffff, channels <= 0xffff;
    let need: u128 = samples as u128 * channels as u128;
    if need > (FRAME_SAMPLES as u128) * (channels as u128) {
        Err(AudioError::UnexpectedSampleCount { samples })
    } else {
        assert(need <= 960 * 65535);
        Ok(need as usize)
    }
}

/// The payload is an Ogg page ("OggS") rather than a raw Opus packet.
pub open spec fn is_ogg(payload: Seq<u8>) -> bool {
    payload.len() >= 4 && payload[0] == 0x4f && payload[1] == 0x67 && payload[2] == 0x67 && payload[3] == 0x53
}

/// True when the payload is an Ogg Opus page rather than raw Opus.
pub fn is_ogg_opus(payload: &[u8]) -> (r: bool)
    ensures
        r == is_ogg(payload@),
{
    payload.len() >= 4 && payload[0] == 0x4f && payload[1] == 0x67 && payload[2] == 0x67 && payload[3] == 0x53
}

/// Takes one frame of 960 samples per channel from the front of the samples
/// captured so far, if there are enough.
pub fn take_pcm_frame(pending: &mut Vec<i16>, channels: u16) -> (r: Option<PcmFrame>)
    ensures
        old(pending)@.len() < 960 * channels as int ==> r is None && final(pending)@ == old(pending)@,
        old(pending)@.len() >= 960 * channels as int ==> (r matches Some(f)
            && f.samples@ == old(pending)@.take(960 * channels as int)
            && f.channels == channels
            && final(pending)@ == old(pending)@.skip(960 * channels as int)),
{
    let need: usize = FRAME_SAMPLES * channels as usize;
    if pending.len() < need {
        return None;
    }
    let mut samples: Vec<i16> = Vec::new();
    let mut rest: Vec<i16> = Vec::new();
    let mut i: usize = 0;
    let n = pending.len();
    while i < n
        invariant
            n == old(pending)@.len(),
            pending@ == old(pending)@,
            need <= n,
            i <= n,
            i <= need ==> samples@ == old(pending)@.take(i as int) && rest@.len() == 0,
            i > need ==> samples@ == old(pending)@.take(need as int) && rest@ == old(pending)@.subrange(need as int, i as int),
        decreases n - i,
    {
        if i < need {
            samples.push(pending[i]);
        } else {
            rest.push(pending[i]);
        }
        i += 1;
        assert(i <= need ==> samples@ =~= old(pending)@.take(i as int));
        assert(i > need ==> samples@ =~= old(pending)@.take(need as int) && rest@ =~= old(pending)@.subrange(need as int, i as int));
    }
    if n == need {
        assert(samples@ =~= old(pending)@.take(need as int));
    }
    assert(rest@ =~= old(pending)@.skip(need as int));
    *pending = rest;
    Some(PcmFrame { samples, channels })
}

/// Producers of PCM frames (test tone, microphone).
pub trait TestToneSource {
    fn next_pcm_frame(&mut self) -> Result<PcmFrame, AudioError>;
}

/// RTP timestamp of the next audio frame: one 20 ms frame (960 ticks) later, wrapping.
pub fn next_audio_ts(rtp_ts: u32) -> (r: u32)
    ensures
        r == (rtp_ts + 960) % 0x1_0000_0000,
{
    rtp_ts.wrapping_add(AUDIO_SAMPLES_PER_FRAME)
}

/// RTP sender state of the audio stream: last sequence number and SSRC.
pub struct AudioRtpSender {
    seq: u16,
    ssrc: u32,
}

impl View for AudioRtpSender {
    type V = (u16, u32);

    closed spec fn view(&self) -> (u16, u32) {
        (self.seq, self.ssrc)
    }
}

impl AudioRtpSender {
    /// A sender for `ssrc` that has sent nothing.
    pub fn new(ssrc: u32) -> (r: Self)
        ensures
            r@ == (0u16, ssrc),
    {
        AudioRtpSender { seq: 0, ssrc }
    }

    /// The next Opus packet: payload type 111, no marker, the next sequence number.
    pub fn opus_datagram(&mut self, payload: &[u8], rtp_ts: u32) -> (out: Vec<u8>)
        ensures
            final(self)@ == (seq_after(old(self)@.0, 1), old(self)@.1),
            out@ == rtp_packet_bytes(false, PT_OPUS, seq_after(old(self)@.0, 1), rtp_ts, old(self)@.1, payload@),
    {
        self.seq = if self.seq == 0xffff { 0 } else { self.seq + 1 };
        rtp_packet(false, PT_OPUS, self.seq, rtp_ts, self.ssrc, payload)
    }

    /// The Sender Report of the audio stream at media time `rtp_ts`, stamped
    /// with the wall-clock time `now_ns`.
    pub fn rtcp_sr_datagram(&self, rtp_ts: u32, now_ns: u128) -> (out: [u8; 28])
        ensures
            out@ == rtcp_sr_bytes(self@.1, rtp_ts, ntp_of_wall(now_ns).0, ntp_of_wall(now_ns).1),
    {
        let (ntp_secs, ntp_frac) = wall_to_ntp(now_ns);
        build_rtcp_sr(self.ssrc, rtp_ts, ntp_secs, ntp_frac)
    }
}

/// The timestamp and Opus payload of a received datagram: `None` when it is
/// shorter than an RTP header, cannot be read as RTP, or carries another
/// payload type.
pub fn opus_from_datagram(datagram: &[u8]) -> (r: Option<(u32, Vec<u8>)>)
    ensures
        datagram@.len() < 12 ==> r is None,
        datagram@.len() >= 12 ==> match rtp_parsed(datagram@) {
            None => r is None,
            Some(f) => if f.2 == PT_OPUS { r matches Some(p) && p.0 == f.4 && p.1@ == f.6 } else { r is None },
        },
{
    if datagram.len() < 12 {
        return None;
    }
    match parse_rtp(datagram) {
        Some(pkt) => {
            if pkt.payload_type == PT_OPUS {
                Some((pkt.timestamp, pkt.payload))
            } else {
                None
            }
        },
        None => None,
    }
}

/// Options of a combined video/audio receiver.
#[derive(Debug, Clone, Copy, PartialEq, Eq, Structural)]
pub struct RecvAvOpts {
    pub with_audio: bool,
    /// Decode the audio and play it.
    pub playback: bool,
    pub video_fps: u32,
}

impl RecvAvOpts {
    /// Logging receiver, with or without audio, no playback.
    pub fn log_only(with_audio: bool, video_fps: u32) -> (r: Self)
        ensures
            r == (RecvAvOpts { with_audio, playback: false, video_fps }),
    {
        RecvAvOpts { with_audio, playback: false, video_fps }
    }
}

} // verus!
