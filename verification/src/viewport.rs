//! The rectangle of the framebuffer that the graphics pipeline renders into.

use vstd::prelude::*;
use crate::window::WindowSize;

verus! {

/// A rendering rectangle, in physical pixels.
#[derive(Clone, Copy, Debug, PartialEq, Eq, Structural)]
pub struct Viewport {
    pub x: i32,
    pub y: i32,
    pub w: i32,
    pub h: i32,
}

/// The viewport of a window: its whole physical framebuffer.
pub open spec fn viewport_of(size: WindowSize) -> Viewport {
    Viewport { x: 0, y: 0, w: size.highdpi_width, h: size.highdpi_height }
}

impl Viewport {
    /// The viewport that covers a framebuffer of `w` by `h` pixels.
    pub fn for_window(w: i32, h: i32) -> (r: Viewport)
        ensures
            r == (Viewport { x: 0, y: 0, w, h }),
    {
        Viewport { x: 0, y: 0, w, h }
    }

    /// Gives the viewport a new extent; its origin stays.
    pub fn update_size(&mut self, w: i32, h: i32)
        ensures
            *final(self) == (Viewport { x: old(self).x, y: old(self).y, w, h }),
    {
        self.w = w;
        self.h = h;
    }

    /// The viewport of a window of the given size. It depends on the physical
    /// size alone.
    pub fn recompute(size: &WindowSize) -> (r: Viewport)
        ensures
            r == viewport_of(*size),
    {
        Viewport::for_window(size.highdpi_width, size.highdpi_height)
    }

    /// Whether this viewport is the whole physical framebuffer of the window.
    pub fn covers(&self, size: &WindowSize) -> (r: bool)
        ensures
            r <==> *self == viewport_of(*size),
    {
        self.x == 0 && self.y == 0 && self.w == size.highdpi_width && self.h
            == size.highdpi_height
    }
}

/// Two windows with the same physical size have the same viewport, whatever
/// their logical sizes are.
pub proof fn lemma_viewport_depends_on_physical_size(a: WindowSize, b: WindowSize)
    requires
        a.highdpi_width == b.highdpi_width,
        a.highdpi_height == b.highdpi_height,
    ensures
        viewport_of(a) == viewport_of(b),
{
}

/// A viewport that starts at the origin and is given the physical size of a
/// window is the viewport of that window.
pub proof fn lemma_update_size_agrees_with_recompute(before: Viewport, size: WindowSize)
    requires
        before.x == 0,
        before.y == 0,
    ensures
        (Viewport { x: before.x, y: before.y, w: size.highdpi_width, h: size.highdpi_height })
            == viewport_of(size),
{
}

} // verus!
