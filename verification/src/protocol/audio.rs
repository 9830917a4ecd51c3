//! Default Opus session parameters.

use vstd::prelude::*;

verus! {

/// Session sample rate (Hz).
pub const SAMPLE_RATE: u32 = 48_000;
/// Default channel count.
pub const CHANNELS: u16 = 2;
/// Default Opus bitrate (bit/s).
pub const DEFAULT_BITRATE: i32 = 64_000;

} // verus!
