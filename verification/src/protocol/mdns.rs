//! mDNS-SD service type and TXT keys (protocol v1, section 3).

use vstd::prelude::*;

verus! {

/// DNS-SD service type browsed and published by ZeroCast peers.
pub const SERVICE_TYPE: &'static str = "_zerocast._udp.local.";
/// TXT key: protocol version.
pub const TXT_V: &'static str = "v";
/// TXT key: session width.
pub const TXT_W: &'static str = "w";
/// TXT key: session height.
pub const TXT_H: &'static str = "h";
/// TXT key: session frame rate.
pub const TXT_FPS: &'static str = "fps";
/// TXT key: decode width ceiling.
pub const TXT_MAX_W: &'static str = "max_w";
/// TXT key: decode height ceiling.
pub const TXT_MAX_H: &'static str = "max_h";
/// TXT key: decode frame-rate ceiling.
pub const TXT_MAX_FPS: &'static str = "max_fps";
/// TXT key: device class hint.
pub const TXT_CLASS: &'static str = "class";
/// TXT key: receiver accepts Opus RTP.
pub const TXT_AUDIO: &'static str = "audio";
/// TXT key: audio RTP port.
pub const TXT_AUDIO_PORT: &'static str = "a_port";
/// TXT key: Opus sample rate.
pub const TXT_AUDIO_SR: &'static str = "a_sr";
/// TXT key: audio channel count.
pub const TXT_AUDIO_CH: &'static str = "a_ch";

} // verus!
