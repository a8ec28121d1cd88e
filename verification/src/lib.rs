//! A CPU-side pixel buffer that can be written row by row and then copied
//! ("blitted") onto a native window surface.
//!
//! The buffer itself, its row addressing (top-left-origin rows over
//! bottom-to-top physical storage), the backend dispatch on the window
//! handle, the visual negotiation, and the bounds checks of a blit are all
//! ordinary data logic and live here, verified. The native presentation
//! calls that realize a blit are performed by the embedding program, which
//! hands this library plain descriptions of what the platform reported and
//! executes the commands the library plans.

pub mod buffer;
pub mod error;
pub mod format;
pub mod handle;
pub mod rows;
pub mod wayland;
pub mod x11;
pub mod xlib;

pub use buffer::PixelBuffer;
pub use error::{BlitError, NativeStatus, PixelBufferCreationError};
pub use format::PixelBufferFormatType;
pub use handle::{WaylandHandle, WindowHandle, XcbHandle, XlibHandle};
