//! Media pipeline copy tiers: how much CPU memory traffic each path costs.

use vstd::prelude::*;

verus! {

/// How much CPU memory traffic the hot path uses (lower is better).
#[derive(Debug, Clone, Copy, PartialEq, Eq, Structural, PartialOrd, Ord)]
pub enum CopyTier {
    /// Capture RGB24, CPU encode, RTP, CPU decode, RGB24 window.
    FullCpu,
    /// Hardware encode/decode; one GPU or DMA blit to display.
    HwAccel,
    /// Textures / dmabuf end-to-end; no full-frame CPU RGB.
    ZeroCopy,
}

/// Where decoded pixels go on the receiver.
#[derive(Debug, Clone, Copy, PartialEq, Eq, Structural)]
pub enum ReceiverOutput {
    /// Desktop window fed from a CPU RGB24 buffer.
    CpuWindow,
    /// Linux embedded: DRM/KMS direct scanout.
    DrmKms,
    /// GPU compositor texture.
    GpuTexture,
}

impl ReceiverOutput {
    /// Output target for a Raspberry Pi Zero W class receiver.
    pub fn for_embedded_pi_zero_w() -> (res: Self)
        ensures
            res == ReceiverOutput::DrmKms,
    {
        ReceiverOutput::DrmKms
    }

    /// The copy tier this output mode reaches.
    pub fn preferred_copy_tier(self) -> (res: CopyTier)
        ensures
            res == (match self {
                ReceiverOutput::CpuWindow => CopyTier::FullCpu,
                _ => CopyTier::HwAccel,
            }),
    {
        match self {
            ReceiverOutput::CpuWindow => CopyTier::FullCpu,
            ReceiverOutput::DrmKms | ReceiverOutput::GpuTexture => CopyTier::HwAccel,
        }
    }
}

/// Sender-side capture path.
#[derive(Debug, Clone, Copy, PartialEq, Eq, Structural)]
pub enum SenderCapture {
    /// Screen capture scaled on the CPU to RGB24.
    CpuRgb24,
    /// GPU texture capture.
    GpuTexture,
}

impl SenderCapture {
    /// The copy tier this capture path reaches.
    pub fn preferred_copy_tier(self) -> (res: CopyTier)
        ensures
            res == (match self {
                SenderCapture::CpuRgb24 => CopyTier::FullCpu,
                SenderCapture::GpuTexture => CopyTier::ZeroCopy,
            }),
    {
        match self {
            SenderCapture::CpuRgb24 => CopyTier::FullCpu,
            SenderCapture::GpuTexture => CopyTier::ZeroCopy,
        }
    }
}

} // verus!
