//! Decisions about the window surface: what to do with the texture the
//! surface hands out for a frame, which format to configure, which sizes to
//! accept, and how many line vertices fit the arrow buffer.
use vstd::prelude::*;

verus! {

/// What the surface reported when asked for the texture of the next frame.
#[derive(Clone, Copy, Debug, PartialEq, Eq, Structural)]
pub enum SurfaceStatus {
    Success,
    Suboptimal,
    Timeout,
    Occluded,
    Validation,
    Outdated,
    Lost,
}

/// What a frame does with the surface status.
#[derive(Clone, Copy, Debug, PartialEq, Eq, Structural)]
pub enum FrameStart {
    /// Draw into the texture, reconfiguring the surface first when asked.
    Draw { reconfigure: bool },
    /// Skip this frame, reconfiguring the surface when asked.
    Skip { reconfigure: bool },
    /// The device is lost: the frame fails.
    DeviceLost,
}

/// A fresh texture is drawn into; a suboptimal one too, after reconfiguring;
/// a timeout, an occluded window or a validation failure skip the frame; an
/// outdated surface is reconfigured and the frame skipped; a lost device fails.
pub open spec fn frame_start_for(status: SurfaceStatus) -> FrameStart {
    match status {
        SurfaceStatus::Success => FrameStart::Draw { reconfigure: false },
        SurfaceStatus::Suboptimal => FrameStart::Draw { reconfigure: true },
        SurfaceStatus::Timeout | SurfaceStatus::Occluded | SurfaceStatus::Validation => FrameStart::Skip {
            reconfigure: false,
        },
        SurfaceStatus::Outdated => FrameStart::Skip { reconfigure: true },
        SurfaceStatus::Lost => FrameStart::DeviceLost,
    }
}

/// What the frame does with the given surface status.
pub fn frame_start(status: SurfaceStatus) -> (f: FrameStart)
    ensures
        f == frame_start_for(status),
{
    match status {
        SurfaceStatus::Success => FrameStart::Draw { reconfigure: false },
        SurfaceStatus::Suboptimal => FrameStart::Draw { reconfigure: true },
        SurfaceStatus::Timeout | SurfaceStatus::Occluded | SurfaceStatus::Validation => FrameStart::Skip {
            reconfigure: false,
        },
        SurfaceStatus::Outdated => FrameStart::Skip { reconfigure: true },
        SurfaceStatus::Lost => FrameStart::DeviceLost,
    }
}

/// Position of the surface format to configure, given for each supported
/// format (in the surface's order of preference) whether it is sRGB: the
/// first sRGB format, or the first format when none is sRGB.
pub fn pick_surface_format(is_srgb: &Vec<bool>) -> (i: usize)
    requires
        is_srgb.len() > 0,
    ensures
        i < is_srgb.len(),
        forall|j: int| 0 <= j < i ==> !is_srgb[j],
        is_srgb[i as int] || (i == 0 && forall|j: int| 0 <= j < is_srgb.len() ==> !is_srgb[j]),
{
    let mut i: usize = 0;
    while i < is_srgb.len()
        invariant
            i <= is_srgb.len(),
            forall|j: int| 0 <= j < i ==> !is_srgb[j],
        decreases is_srgb.len() - i,
    {
        if is_srgb[i] {
            return i;
        }
        i += 1;
    }
    0
}

/// Whether the surface can take a new size: both sides must be positive.
pub fn usable_size(width: u32, height: u32) -> (b: bool)
    ensures
        b == (width > 0 && height > 0),
{
    width > 0 && height > 0
}

/// How many of `len` line vertices are drawn from a buffer that holds
/// `capacity`: all of them when they fit, the first `capacity` otherwise.
pub fn drawn_vertex_count(len: usize, capacity: u32) -> (n: u32)
    ensures
        n as int == if len <= capacity { len as int } else { capacity as int },
{
    if len <= capacity as usize {
        len as u32
    } else {
        capacity
    }
}

} // verus!
