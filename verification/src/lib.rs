//! ZeroCast: verified core of a zero-configuration LAN screen-casting stack.
//!
//! The library holds the protocol constants, stream-profile negotiation, the
//! QoS ladder controller, discovery TXT records, RTP/RTCP framing, H.264
//! Annex-B handling and the receive-side reassembly state. Sockets, processes,
//! windows and audio devices live in the application around it.

pub mod audio;
pub mod av_sync;
pub mod capture;
pub mod cli;
pub mod decode;
pub mod directory;
pub mod discovery;
pub mod encoder;
pub mod ffmpeg;
pub mod h264_rtp;
pub mod nal;
pub mod netaddr;
pub mod pipeline;
pub mod playout;
pub mod profile;
pub mod protocol;
pub mod qos;
pub mod receive;
pub mod recv_qos;
pub mod registry;
pub mod rtcp;
pub mod rtp_packet;
pub mod sender;
pub mod test_pattern;
pub mod text;
pub mod wire;

use vstd::prelude::*;

verus! {

} // verus!
