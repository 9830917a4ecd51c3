//! RTP payload types and clock rates (protocol v1, sections 4 and 5).

use vstd::prelude::*;

verus! {

/// Dynamic payload type for H.264 video.
pub const PT_H264: u8 = 96;
/// Dynamic payload type for Opus audio.
pub const PT_OPUS: u8 = 111;
/// Video RTP clock (Hz).
pub const VIDEO_CLOCK_HZ: u32 = 90_000;
/// Audio RTP clock (Hz).
pub const AUDIO_CLOCK_HZ: u32 = 48_000;
/// Opus frame: 20 ms at 48 kHz.
pub const AUDIO_SAMPLES_PER_FRAME: u32 = 960;
/// Opus frame duration (ms).
pub const AUDIO_FRAME_MS: u32 = 20;

} // verus!
