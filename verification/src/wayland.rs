//! The Wayland backend slot. The backend set is closed and this member is
//! not realized: a Wayland handle is answered with `UnsupportedHandle`
//! instead of a buffer, and never with a panic, so a caller holding mixed
//! windows can recover.

use crate::error::PixelBufferCreationError;
use crate::format::PixelBufferFormatType;
use crate::handle::WaylandHandle;
use vstd::prelude::*;

verus! {

/// The unrealized Wayland surface backend. No value of it can be built.
pub struct WaylandPixelBuffer {}

impl WaylandPixelBuffer {
    /// Always refuses: this backend is not realized, so the handle's tag
    /// has nothing compiled in to serve it.
    #[allow(unused_variables)]
    pub fn new(
        width: u32,
        height: u32,
        format: PixelBufferFormatType,
        handle: WaylandHandle,
    ) -> (r: Result<WaylandPixelBuffer, PixelBufferCreationError>)
        ensures
            r == Err::<WaylandPixelBuffer, PixelBufferCreationError>(
                PixelBufferCreationError::UnsupportedHandle,
            ),
    {
        Err(PixelBufferCreationError::UnsupportedHandle)
    }
}

} // verus!
