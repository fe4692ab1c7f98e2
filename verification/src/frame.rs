//! Decisions taken around each drawn frame: the size the surface is configured with, and what
//! to do with the state in which the surface hands out its next texture.

use vstd::prelude::*;

verus! {

/// The largest width or height the surface is configured with.
pub const MAX_SURFACE_DIM: u32 = 2048;

/// `a` capped at `cap`.
pub open spec fn capped(a: u32, cap: u32) -> u32 {
    if a <= cap {
        a
    } else {
        cap
    }
}

/// The size to configure the surface with for a window of the given inner size: nothing for
/// a window with no area, and otherwise each side capped at `MAX_SURFACE_DIM`.
pub fn surface_size(width: u32, height: u32) -> (r: Option<(u32, u32)>)
    ensures
        r == (if width > 0 && height > 0 {
            Some((capped(width, MAX_SURFACE_DIM), capped(height, MAX_SURFACE_DIM)))
        } else {
            None
        }),
{
    if width > 0 && height > 0 {
        let w = if width <= MAX_SURFACE_DIM {
            width
        } else {
            MAX_SURFACE_DIM
        };
        let h = if height <= MAX_SURFACE_DIM {
            height
        } else {
            MAX_SURFACE_DIM
        };
        Some((w, h))
    } else {
        None
    }
}

/// The configured side is the smaller of the window's side and the cap: never more than either,
/// and equal to one of them. A side that fits is kept as it is.
pub proof fn lemma_capped_is_min(a: u32, cap: u32)
    ensures
        capped(a, cap) <= a,
        capped(a, cap) <= cap,
        capped(a, cap) == a || capped(a, cap) == cap,
        a <= cap ==> capped(a, cap) == a,
{
}

/// A configured size is its own configured size: configuring again for it changes nothing, and
/// it is never above the cap nor empty.
pub proof fn lemma_surface_size_settled(width: u32, height: u32)
    requires
        width > 0,
        height > 0,
    ensures
        ({
            let w = capped(width, MAX_SURFACE_DIM);
            let h = capped(height, MAX_SURFACE_DIM);
            &&& 0 < w <= MAX_SURFACE_DIM
            &&& 0 < h <= MAX_SURFACE_DIM
            &&& capped(w, MAX_SURFACE_DIM) == w
            &&& capped(h, MAX_SURFACE_DIM) == h
        }),
{
}

/// The state in which the surface hands out its next texture.
#[derive(Clone, Copy, Debug, PartialEq, Eq, Structural)]
pub enum SurfaceStatus {
    Success,
    Suboptimal,
    Timeout,
    Occluded,
    Validation,
    Outdated,
    Lost,
}

/// What to do with the frame.
#[derive(Clone, Copy, Debug, PartialEq, Eq, Structural)]
pub enum FrameStep {
    /// Draw into the texture and present it.
    Draw,
    /// Draw nothing now and ask for another redraw.
    Retry,
    /// Configure the surface again and ask for another redraw.
    Reconfigure,
    /// The device is lost: stop with an error.
    Fail,
}

/// A usable texture is drawn into, even a suboptimal one; a timeout, an occluded window or a
/// validation failure waits for the next redraw; an outdated surface is configured again; a
/// lost device ends the game.
pub open spec fn spec_frame_step(status: SurfaceStatus) -> FrameStep {
    match status {
        SurfaceStatus::Success | SurfaceStatus::Suboptimal => FrameStep::Draw,
        SurfaceStatus::Timeout | SurfaceStatus::Occluded | SurfaceStatus::Validation => FrameStep::Retry,
        SurfaceStatus::Outdated => FrameStep::Reconfigure,
        SurfaceStatus::Lost => FrameStep::Fail,
    }
}

/// What to do with the frame, given the surface's state.
pub fn frame_step(status: SurfaceStatus) -> (step: FrameStep)
    ensures
        step == spec_frame_step(status),
{
    match status {
        SurfaceStatus::Success | SurfaceStatus::Suboptimal => FrameStep::Draw,
        SurfaceStatus::Timeout | SurfaceStatus::Occluded | SurfaceStatus::Validation => FrameStep::Retry,
        SurfaceStatus::Outdated => FrameStep::Reconfigure,
        SurfaceStatus::Lost => FrameStep::Fail,
    }
}

} // verus!
