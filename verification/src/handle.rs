//! Native window handles, reduced to plain values.
//!
//! The windowing collaborator hands the embedding program a tagged union of
//! native pointers. The library never dereferences those pointers; it only
//! matches the tag and passes the addresses through to the commands it
//! plans. So a handle is modeled here with each pointer as its address.

use vstd::prelude::*;

verus! {

/// An X11 (Xlib) window: the window id and the address of the Display.
#[derive(Clone, Copy, PartialEq, Eq, Structural, Debug)]
pub struct XlibHandle {
    pub window: u64,
    pub display: usize,
}

/// An XCB window: the window id and the address of the connection.
#[derive(Clone, Copy, PartialEq, Eq, Structural, Debug)]
pub struct XcbHandle {
    pub window: u32,
    pub connection: usize,
}

/// A Wayland surface: the addresses of the surface and of the display.
#[derive(Clone, Copy, PartialEq, Eq, Structural, Debug)]
pub struct WaylandHandle {
    pub surface: usize,
    pub display: usize,
}

/// The tagged union identifying a windowing backend. Opaque to the buffer
/// logic except for tag matching; its lifetime is owned by the caller.
#[derive(Clone, Copy, PartialEq, Eq, Structural, Debug)]
pub enum WindowHandle {
    Xlib(XlibHandle),
    Xcb(XcbHandle),
    Wayland(WaylandHandle),
}

impl WindowHandle {
    pub open spec fn spec_is_xlib(self) -> bool {
        self is Xlib
    }

    /// Does this handle carry the Xlib backend tag?
    pub fn is_xlib(&self) -> (r: bool)
        ensures
            r == self.spec_is_xlib(),
    {
        matches!(self, WindowHandle::Xlib(_))
    }
}

} // verus!
