//! Protocol constants and port derivation (protocol v1, sections 2 to 5).

pub mod audio;
pub mod mdns;
pub mod ports;
pub mod rtp;

use vstd::prelude::*;

verus! {

/// Protocol version advertised in TXT `v`.
pub const PROTOCOL_VERSION: u32 = 1;

/// RTCP port for an RTP bind port (`None` when `rtp_port + 1` overflows).
pub fn rtcp_port(rtp_port: u16) -> (res: Option<u16>)
    ensures
        rtp_port + ports::RTCP_OFFSET <= u16::MAX ==> res == Some((rtp_port + ports::RTCP_OFFSET) as u16),
        rtp_port + ports::RTCP_OFFSET > u16::MAX ==> res is None,
{
    rtp_port.checked_add(ports::RTCP_OFFSET)
}

/// Default audio RTP port when paired with a video port on the same host.
pub fn audio_port_from_video(video_port: u16) -> (res: Option<u16>)
    ensures
        video_port + ports::AUDIO_OFFSET_FROM_VIDEO <= u16::MAX
            ==> res == Some((video_port + ports::AUDIO_OFFSET_FROM_VIDEO) as u16),
        video_port + ports::AUDIO_OFFSET_FROM_VIDEO > u16::MAX ==> res is None,
{
    video_port.checked_add(ports::AUDIO_OFFSET_FROM_VIDEO)
}

} // verus!
