//! Window extents and what is asked of a rendering surface.
//!
//! A window has a logical size, which the windowing system reports, and a
//! physical size, the resolution of the framebuffer behind it. Under display
//! scaling the physical size is the larger one.

use vstd::prelude::*;

verus! {

/// Logical and physical extents of a window.
#[derive(Clone, Copy, Debug, PartialEq, Eq, Structural)]
pub struct WindowSize {
    pub width: i32,
    pub height: i32,
    pub highdpi_width: i32,
    pub highdpi_height: i32,
}

/// The physical extent of one dimension, given the logical extent and the
/// drawable extent that the surface reports: the report, capped to what an
/// `i32` holds, and raised to the logical extent where it falls short of it.
pub open spec fn physical_extent(logical: int, drawable: int) -> int {
    let capped = if drawable > i32::MAX { i32::MAX as int } else { drawable };
    if capped < logical { logical } else { capped }
}

/// The window size that follows from a logical size and a reported drawable
/// size.
pub open spec fn reported_size(width: i32, height: i32, drawable_width: u32, drawable_height: u32)
    -> WindowSize {
    WindowSize {
        width,
        height,
        highdpi_width: physical_extent(width as int, drawable_width as int) as i32,
        highdpi_height: physical_extent(height as int, drawable_height as int) as i32,
    }
}

fn physical(logical: i32, drawable: u32) -> (r: i32)
    ensures
        r == physical_extent(logical as int, drawable as int),
{
    let capped: i32 = if drawable > 0x7fff_ffff { i32::MAX } else { drawable as i32 };
    if capped < logical { logical } else { capped }
}

impl WindowSize {
    /// No dimension has fewer physical pixels than logical units.
    pub open spec fn wf(&self) -> bool {
        &&& self.highdpi_width >= self.width
        &&& self.highdpi_height >= self.height
    }

    /// A window on an unscaled surface: the physical size is the logical size.
    pub fn new(width: i32, height: i32) -> (r: WindowSize)
        ensures
            r == (WindowSize { width, height, highdpi_width: width, highdpi_height: height }),
            r.wf(),
    {
        WindowSize { width, height, highdpi_width: width, highdpi_height: height }
    }

    /// The size of a window whose logical size is `width` by `height` and whose
    /// surface reports a drawable size of `drawable_width` by `drawable_height`.
    pub fn reported(width: i32, height: i32, drawable_width: u32, drawable_height: u32) -> (r:
        WindowSize)
        ensures
            r == reported_size(width, height, drawable_width, drawable_height),
            r.wf(),
    {
        WindowSize {
            width,
            height,
            highdpi_width: physical(width, drawable_width),
            highdpi_height: physical(height, drawable_height),
        }
    }

    /// Takes over a new logical size together with the drawable size that the
    /// surface reports for it.
    pub fn resize(&mut self, width: i32, height: i32, drawable_width: u32, drawable_height: u32)
        ensures
            *final(self) == reported_size(width, height, drawable_width, drawable_height),
            final(self).wf(),
    {
        *self = WindowSize::reported(width, height, drawable_width, drawable_height);
    }

    /// Refreshes the physical size from the surface; the logical size stays.
    pub fn refresh(&mut self, drawable_width: u32, drawable_height: u32)
        ensures
            *final(self) == reported_size(
                old(self).width,
                old(self).height,
                drawable_width,
                drawable_height,
            ),
            final(self).wf(),
    {
        *self = WindowSize::reported(self.width, self.height, drawable_width, drawable_height);
    }

    /// The logical size as the unsigned extents a window is created with, if
    /// neither dimension is negative.
    pub fn window_extent(&self) -> (r: Option<(u32, u32)>)
        ensures
            r is Some <==> self.width >= 0 && self.height >= 0,
            r matches Some(e) ==> e.0 == self.width && e.1 == self.height,
    {
        if self.width >= 0 && self.height >= 0 {
            Some((self.width as u32, self.height as u32))
        } else {
            None
        }
    }
}

/// How presenting a frame is synchronised with the display.
#[derive(Clone, Copy, Debug, PartialEq, Eq, Structural)]
pub enum SwapInterval {
    /// Present at once.
    Immediate,
    /// Present with the vertical retrace.
    VSync,
    /// Present with the vertical retrace, but at once when a frame is late.
    Adaptive,
}

/// The number a swap interval is known by to the graphics system.
pub open spec fn swap_interval_raw(mode: SwapInterval) -> int {
    match mode {
        SwapInterval::Immediate => 0,
        SwapInterval::VSync => 1,
        SwapInterval::Adaptive => -1,
    }
}

impl SwapInterval {
    /// The number this mode is known by to the graphics system.
    pub fn raw(self) -> (r: i32)
        ensures
            r == swap_interval_raw(self),
    {
        match self {
            SwapInterval::Immediate => 0,
            SwapInterval::VSync => 1,
            SwapInterval::Adaptive => -1,
        }
    }

    /// The mode with the given number, if there is one.
    pub fn from_raw(raw: i32) -> (r: Option<SwapInterval>)
        ensures
            r is Some <==> -1 <= raw <= 1,
            r matches Some(mode) ==> swap_interval_raw(mode) == raw,
    {
        if raw == 0 {
            Some(SwapInterval::Immediate)
        } else if raw == 1 {
            Some(SwapInterval::VSync)
        } else if raw == -1 {
            Some(SwapInterval::Adaptive)
        } else {
            None
        }
    }

    /// Synchronised presentation when `vsync` is set, immediate otherwise.
    pub fn from_vsync(vsync: bool) -> (r: SwapInterval)
        ensures
            r == if vsync { SwapInterval::VSync } else { SwapInterval::Immediate },
    {
        if vsync {
            SwapInterval::VSync
        } else {
            SwapInterval::Immediate
        }
    }
}

/// The family of graphics interface a context is created for.
#[derive(Clone, Copy, Debug, PartialEq, Eq, Structural)]
pub enum ContextProfile {
    Core,
    Compatibility,
    Embedded,
}

/// What is asked of the graphics context that a surface is bound to.
#[derive(Clone, Copy, Debug, PartialEq, Eq, Structural)]
pub struct ContextRequest {
    pub profile: ContextProfile,
    pub major: u8,
    pub minor: u8,
    pub accelerated: bool,
    pub double_buffer: bool,
}

impl ContextRequest {
    /// A hardware-accelerated, double-buffered context of the core profile in
    /// the given version.
    pub fn core_profile(major: u8, minor: u8) -> (r: ContextRequest)
        ensures
            r == (ContextRequest {
                profile: ContextProfile::Core,
                major,
                minor,
                accelerated: true,
                double_buffer: true,
            }),
    {
        ContextRequest {
            profile: ContextProfile::Core,
            major,
            minor,
            accelerated: true,
            double_buffer: true,
        }
    }
}

/// Whatever the surface reports, the resulting window size is well formed and
/// keeps the logical size it was given.
pub proof fn lemma_reported_size_wf(
    width: i32,
    height: i32,
    drawable_width: u32,
    drawable_height: u32,
)
    ensures
        reported_size(width, height, drawable_width, drawable_height).wf(),
        reported_size(width, height, drawable_width, drawable_height).width == width,
        reported_size(width, height, drawable_width, drawable_height).height == height,
{
}

/// A drawable extent that an `i32` holds and that is no smaller than the
/// logical extent is taken over as it is.
pub proof fn lemma_physical_extent_exact(logical: i32, drawable: u32)
    requires
        logical <= drawable <= i32::MAX,
    ensures
        physical_extent(logical as int, drawable as int) == drawable,
{
}

} // verus!
