//! The error taxonomy of the library, and the translation of native status
//! codes into it.

use vstd::prelude::*;

verus! {

/// Why constructing a pixel buffer failed. Construction is transactional:
/// whichever of these comes back, no native resource stays allocated.
#[derive(Clone, Copy, PartialEq, Eq, Structural, Debug)]
pub enum PixelBufferCreationError {
    /// No native visual matches the requested channel ordering.
    UnsupportedFormat,
    /// The window handle's tag names a backend that is not realized.
    UnsupportedHandle,
    /// The native display connection could not be opened.
    BackendInitFailed,
}

/// Why a blit was refused or failed. All three are recoverable: the buffer
/// stays usable after any of them.
#[derive(Clone, Copy, PartialEq, Eq, Structural, Debug)]
pub enum BlitError {
    /// The handle presented to the call has a different backend tag than the
    /// one the buffer was bound to at construction.
    HandleMismatch,
    /// The requested source rectangle exceeds the buffer bounds.
    OutOfBounds,
    /// The native copy primitive reported this protocol status code.
    NativeBlitFailed(u8),
}

// The X protocol status codes that the native copy call can report.
pub const STATUS_SUCCESS: u8 = 0;
pub const STATUS_BAD_VALUE: u8 = 2;
pub const STATUS_BAD_MATCH: u8 = 8;
pub const STATUS_BAD_DRAWABLE: u8 = 9;
pub const STATUS_BAD_GC: u8 = 13;

/// The named kinds of status a native copy can end with.
#[derive(Clone, Copy, PartialEq, Eq, Structural, Debug)]
pub enum NativeStatus {
    Success,
    BadValue,
    BadMatch,
    BadDrawable,
    BadGc,
    Unknown,
}

pub open spec fn spec_classify_status(status: u8) -> NativeStatus {
    if status == STATUS_SUCCESS {
        NativeStatus::Success
    } else if status == STATUS_BAD_VALUE {
        NativeStatus::BadValue
    } else if status == STATUS_BAD_MATCH {
        NativeStatus::BadMatch
    } else if status == STATUS_BAD_DRAWABLE {
        NativeStatus::BadDrawable
    } else if status == STATUS_BAD_GC {
        NativeStatus::BadGc
    } else {
        NativeStatus::Unknown
    }
}

/// Name the status code a native copy reported.
pub fn classify_status(status: u8) -> (r: NativeStatus)
    ensures
        r == spec_classify_status(status),
{
    if status == STATUS_SUCCESS {
        NativeStatus::Success
    } else if status == STATUS_BAD_VALUE {
        NativeStatus::BadValue
    } else if status == STATUS_BAD_MATCH {
        NativeStatus::BadMatch
    } else if status == STATUS_BAD_DRAWABLE {
        NativeStatus::BadDrawable
    } else if status == STATUS_BAD_GC {
        NativeStatus::BadGc
    } else {
        NativeStatus::Unknown
    }
}

/// Translate the status of an executed native copy into the error taxonomy:
/// success is success, and any other code is preserved as the diagnostic
/// payload of `NativeBlitFailed`.
pub fn blit_outcome(status: u8) -> (r: Result<(), BlitError>)
    ensures
        status == STATUS_SUCCESS ==> r == Ok::<(), BlitError>(()),
        status != STATUS_SUCCESS ==> r == Err::<(), BlitError>(BlitError::NativeBlitFailed(status)),
{
    if status == STATUS_SUCCESS {
        Ok(())
    } else {
        Err(BlitError::NativeBlitFailed(status))
    }
}

} // verus!
