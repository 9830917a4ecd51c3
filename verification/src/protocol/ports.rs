//! Default UDP ports (protocol v1, section 2).

use vstd::prelude::*;

verus! {

/// Default video RTP port.
pub const VIDEO_RTP_DEFAULT: u16 = 5000;
/// Default audio RTP port.
pub const AUDIO_RTP_DEFAULT: u16 = 5002;
/// RTCP is always RTP port + 1.
pub const RTCP_OFFSET: u16 = 1;
/// Default audio RTP = video RTP + 2 when co-located.
pub const AUDIO_OFFSET_FROM_VIDEO: u16 = 2;

} // verus!
