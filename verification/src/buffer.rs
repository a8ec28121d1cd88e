//! The pixel buffer facade: one owned CPU buffer, bound at construction
//! to exactly one backend out of the compiled-in set, with top-left-origin
//! row accessors over the bottom-to-top storage and validated blits.

use crate::error::{BlitError, PixelBufferCreationError};
use crate::format::PixelBufferFormatType;
use crate::handle::WindowHandle;
use crate::rows::{
    lemma_segment_in_bounds, lemma_size_grouping, spec_phys_row, spec_row_of, spec_write_row,
    spec_write_rows,
};
use crate::wayland::WaylandPixelBuffer;
use crate::xlib::{spec_find_visual, BlitCommand, XlibSession};
use vstd::pervasive::unreached;
use vstd::prelude::*;

verus! {

/// The compiled-in backend set. The dispatcher selects exactly one member
/// at construction, and the binding never changes afterwards.
enum PixelBufferBackend {
    Xlib(crate::xlib::PixelBuffer),
    Wayland(WaylandPixelBuffer),
}

/// An owned CPU pixel buffer that can be written row by row and blitted
/// onto the native window it was constructed against.
pub struct PixelBuffer {
    backend: PixelBufferBackend,
}

/// For an Xlib handle with a session, the session must describe that
/// handle's display; any other combination carries no obligation.
pub open spec fn spec_session_for(handle: WindowHandle, session: Option<&XlibSession>) -> bool {
    match (handle, session) {
        (WindowHandle::Xlib(h), Some(s)) => s.context.display == h.display,
        _ => true,
    }
}

impl PixelBuffer {
    /// Which backend the buffer is bound to. Only the Xlib backend is
    /// realized, so a constructed buffer is always bound to it.
    pub closed spec fn spec_is_xlib(self) -> bool {
        self.backend is Xlib
    }

    pub closed spec fn spec_width(self) -> u32 {
        match self.backend {
            PixelBufferBackend::Xlib(b) => b.spec_width(),
            PixelBufferBackend::Wayland(_) => 0,
        }
    }

    pub closed spec fn spec_height(self) -> u32 {
        match self.backend {
            PixelBufferBackend::Xlib(b) => b.spec_height(),
            PixelBufferBackend::Wayland(_) => 0,
        }
    }

    pub closed spec fn spec_bpp(self) -> u32 {
        match self.backend {
            PixelBufferBackend::Xlib(b) => b.spec_bpp(),
            PixelBufferBackend::Wayland(_) => 0,
        }
    }

    pub closed spec fn spec_format(self) -> PixelBufferFormatType {
        match self.backend {
            PixelBufferBackend::Xlib(b) => b.spec_format(),
            PixelBufferBackend::Wayland(_) => PixelBufferFormatType::RGB,
        }
    }

    pub closed spec fn spec_bytes(self) -> Seq<u8> {
        match self.backend {
            PixelBufferBackend::Xlib(b) => b.spec_bytes(),
            PixelBufferBackend::Wayland(_) => Seq::empty(),
        }
    }

    /// The display identity the buffer was bound to at construction.
    pub closed spec fn spec_display(self) -> usize {
        match self.backend {
            PixelBufferBackend::Xlib(b) => b.spec_context().display,
            PixelBufferBackend::Wayland(_) => 0,
        }
    }

    /// The graphics context every planned copy goes through.
    pub closed spec fn spec_gc(self) -> usize {
        match self.backend {
            PixelBufferBackend::Xlib(b) => b.spec_context().gc,
            PixelBufferBackend::Wayland(_) => 0,
        }
    }

    /// Length in bytes of one row; the storage has no padding, so the
    /// physical stride equals the pixel row width.
    pub open spec fn spec_row_len(self) -> int {
        self.spec_bpp() * self.spec_width()
    }

    /// Visual row `n` of the buffer.
    pub open spec fn spec_row(self, n: int) -> Seq<u8> {
        spec_row_of(self.spec_bytes(), self.spec_height() as int, self.spec_row_len(), n)
    }

    /// The facade's invariant: bound to the realized backend, and that
    /// backend well formed.
    pub closed spec fn wf(self) -> bool {
        match self.backend {
            PixelBufferBackend::Xlib(b) => b.wf(),
            PixelBufferBackend::Wayland(_) => false,
        }
    }

    /// What well-formedness guarantees every holder of a buffer: it is
    /// bound to the realized backend, its byte width is the format's, and
    /// it holds exactly `height` rows of `width * bytes_per_pixel` bytes —
    /// `width * height * bytes_per_pixel` bytes in all, a size that fits
    /// the native size type.
    pub proof fn lemma_wf(self)
        requires
            self.wf(),
        ensures
            self.spec_is_xlib(),
            self.spec_bpp() == self.spec_format().spec_bytes_per_pixel(),
            self.spec_bytes().len() == self.spec_height() * self.spec_row_len(),
            self.spec_bytes().len() == self.spec_bpp() * self.spec_width() * self.spec_height(),
            self.spec_bpp() * self.spec_width() <= u32::MAX,
            self.spec_bpp() * self.spec_width() * self.spec_height() <= u32::MAX,
    {
        lemma_size_grouping(
            self.spec_width() as int,
            self.spec_height() as int,
            self.spec_bpp() as int,
        );
    }

    /// The geometry and binding of the buffer: everything but the bytes.
    pub open spec fn spec_same_shape(self, other: PixelBuffer) -> bool {
        &&& self.spec_is_xlib() == other.spec_is_xlib()
        &&& self.spec_width() == other.spec_width()
        &&& self.spec_height() == other.spec_height()
        &&& self.spec_bpp() == other.spec_bpp()
        &&& self.spec_format() == other.spec_format()
    }

    /// Construct a buffer against a native window: the handle's tag
    /// selects the backend, which then negotiates a visual and allocates
    /// the zeroed buffer.
    ///
    /// `session` is what the embedding program learned from the native
    /// display for an Xlib handle, or `None` where the display could not
    /// be opened. Construction succeeds exactly for an Xlib handle whose
    /// open session lists a visual matching `format`; it fails with
    /// `UnsupportedHandle` for any other tag (no other backend is
    /// realized), `BackendInitFailed` without an open session, and
    /// `UnsupportedFormat` when no visual matches. Nothing native is
    /// allocated by this call, so every failure rolls back to nothing.
    pub fn new(
        width: u32,
        height: u32,
        format: PixelBufferFormatType,
        handle: WindowHandle,
        session: Option<&XlibSession>,
    ) -> (r: Result<PixelBuffer, PixelBufferCreationError>)
        requires
            format.spec_bytes_per_pixel() * width <= u32::MAX,
            format.spec_bytes_per_pixel() * width * height <= u32::MAX,
            spec_session_for(handle, session),
        ensures
            !(handle is Xlib) ==> r == Err::<PixelBuffer, PixelBufferCreationError>(
                PixelBufferCreationError::UnsupportedHandle,
            ),
            handle is Xlib && session is None ==> r == Err::<
                PixelBuffer,
                PixelBufferCreationError,
            >(PixelBufferCreationError::BackendInitFailed),
            session matches Some(s) ==> (handle is Xlib ==> ({
                &&& (r is Ok <==> spec_find_visual(s.visuals@, s.context, format) is Some)
                &&& (r is Err ==> r == Err::<PixelBuffer, PixelBufferCreationError>(
                    PixelBufferCreationError::UnsupportedFormat,
                ))
            })),
            r matches Ok(b) ==> ({
                &&& b.wf()
                &&& b.spec_is_xlib()
                &&& b.spec_width() == width
                &&& b.spec_height() == height
                &&& b.spec_format() == format
                &&& b.spec_bpp() == format.spec_bytes_per_pixel()
                &&& b.spec_bytes().len() == format.spec_bytes_per_pixel() * width * height
                &&& forall|i: int| 0 <= i < b.spec_bytes().len() ==> b.spec_bytes()[i] == 0u8
                &&& (session matches Some(s) ==> b.spec_display() == s.context.display
                    && b.spec_gc() == s.context.gc)
            }),
    {
        match handle {
            WindowHandle::Xlib(h) => match session {
                Some(s) => match crate::xlib::PixelBuffer::new(width, height, format, h, s) {
                    Ok(b) => Ok(PixelBuffer { backend: PixelBufferBackend::Xlib(b) }),
                    Err(e) => Err(e),
                },
                None => Err(PixelBufferCreationError::BackendInitFailed),
            },
            WindowHandle::Xcb(_) => Err(PixelBufferCreationError::UnsupportedHandle),
            WindowHandle::Wayland(h) => match WaylandPixelBuffer::new(width, height, format, h) {
                Ok(_) => Err(PixelBufferCreationError::UnsupportedHandle),
                Err(e) => Err(e),
            },
        }
    }

    /// Pixel depth in bits.
    pub fn bits_per_pixel(&self) -> (r: usize)
        requires
            self.wf(),
        ensures
            r == self.spec_bpp() * 8,
    {
        self.bytes_per_pixel() * 8
    }

    /// Pixel depth in bytes.
    pub fn bytes_per_pixel(&self) -> (r: usize)
        ensures
            r == self.spec_bpp(),
    {
        match &self.backend {
            PixelBufferBackend::Xlib(b) => b.bytes_per_pixel(),
            PixelBufferBackend::Wayland(_) => 0,
        }
    }

    pub fn width(&self) -> (r: u32)
        ensures
            r == self.spec_width(),
    {
        match &self.backend {
            PixelBufferBackend::Xlib(b) => b.width(),
            PixelBufferBackend::Wayland(_) => 0,
        }
    }

    pub fn height(&self) -> (r: u32)
        ensures
            r == self.spec_height(),
    {
        match &self.backend {
            PixelBufferBackend::Xlib(b) => b.height(),
            PixelBufferBackend::Wayland(_) => 0,
        }
    }

    /// The physical stride in bytes between consecutive rows; equal to
    /// `width * bytes_per_pixel` as the storage carries no padding.
    pub fn row_len(&self) -> (r: usize)
        requires
            self.wf(),
        ensures
            r == self.spec_row_len(),
    {
        match &self.backend {
            PixelBufferBackend::Xlib(b) => b.row_len(),
            PixelBufferBackend::Wayland(_) => unreached(),
        }
    }

    /// The whole buffer, in native (bottom-to-top) row order.
    pub fn bytes(&self) -> (r: &Vec<u8>)
        requires
            self.wf(),
        ensures
            r@ == self.spec_bytes(),
    {
        match &self.backend {
            PixelBufferBackend::Xlib(b) => b.bytes(),
            PixelBufferBackend::Wayland(_) => unreached(),
        }
    }

    /// Overwrite the whole buffer, in native (bottom-to-top) row order.
    pub fn bytes_mut(&mut self, data: &Vec<u8>)
        requires
            old(self).wf(),
            data@.len() == old(self).spec_bytes().len(),
        ensures
            final(self).wf(),
            final(self).spec_same_shape(*old(self)),
            final(self).spec_bytes() == data@,
    {
        match &mut self.backend {
            PixelBufferBackend::Xlib(b) => b.bytes_mut(data),
            PixelBufferBackend::Wayland(_) => unreached(),
        }
    }

    /// The row at top-left-origin index `row` (row 0 is the visually
    /// topmost row), copied out of the bottom-to-top storage; `None` when
    /// `row` is out of range.
    pub fn row(&self, row: u32) -> (r: Option<Vec<u8>>)
        requires
            self.wf(),
        ensures
            row < self.spec_height() ==> (r matches Some(v) && v@ == self.spec_row(row as int)
                && v@.len() == self.spec_row_len()),
            row >= self.spec_height() ==> r is None,
    {
        let r = match &self.backend {
            PixelBufferBackend::Xlib(b) => b.row(row),
            PixelBufferBackend::Wayland(_) => unreached(),
        };
        proof {
            if row < self.spec_height() {
                lemma_segment_in_bounds(
                    self.spec_height() as int,
                    self.spec_row_len(),
                    spec_phys_row(self.spec_height() as int, row as int),
                );
            }
        }
        r
    }

    /// Overwrite the row at top-left-origin index `row` with `data`;
    /// `None`, and no change, when `row` is out of range.
    pub fn row_mut(&mut self, row: u32, data: &Vec<u8>) -> (r: Option<()>)
        requires
            old(self).wf(),
            data@.len() == old(self).spec_row_len(),
        ensures
            final(self).wf(),
            final(self).spec_same_shape(*old(self)),
            row < old(self).spec_height() ==> r is Some && final(self).spec_bytes()
                == spec_write_row(
                old(self).spec_bytes(),
                old(self).spec_height() as int,
                old(self).spec_row_len(),
                row as int,
                data@,
            ),
            row >= old(self).spec_height() ==> r is None && final(self).spec_bytes() == old(
                self,
            ).spec_bytes(),
    {
        match &mut self.backend {
            PixelBufferBackend::Xlib(b) => b.row_mut(row, data),
            PixelBufferBackend::Wayland(_) => unreached(),
        }
    }

    /// All rows in top-to-bottom visual order, one owned vector per row:
    /// entry `n` equals `row(n)`, so there are exactly `height` entries.
    /// A buffer with empty rows yields no entries, as there are no bytes
    /// to chunk.
    pub fn rows(&self) -> (r: Vec<Vec<u8>>)
        requires
            self.wf(),
        ensures
            self.spec_row_len() == 0 ==> r@.len() == 0,
            self.spec_row_len() > 0 ==> r@.len() == self.spec_height() && forall|n: int|
                0 <= n < r@.len() ==> (#[trigger] r@[n])@ == self.spec_row(n),
    {
        match &self.backend {
            PixelBufferBackend::Xlib(b) => b.rows(),
            PixelBufferBackend::Wayland(_) => unreached(),
        }
    }

    /// Overwrite every row in top-to-bottom visual order: row `n` becomes
    /// `rows[n]`.
    pub fn rows_mut(&mut self, rows: &Vec<Vec<u8>>)
        requires
            old(self).wf(),
            rows@.len() == old(self).spec_height(),
            forall|n: int|
                0 <= n < rows@.len() ==> (#[trigger] rows@[n])@.len() == old(
                    self,
                ).spec_row_len(),
        ensures
            final(self).wf(),
            final(self).spec_same_shape(*old(self)),
            forall|n: int|
                0 <= n < rows@.len() ==> final(self).spec_row(n) == (#[trigger] rows@[n])@,
            final(self).spec_bytes() == spec_write_rows(
                old(self).spec_bytes(),
                old(self).spec_row_len(),
                rows@.map_values(|v: Vec<u8>| v@),
            ),
    {
        match &mut self.backend {
            PixelBufferBackend::Xlib(b) => b.rows_mut(rows),
            PixelBufferBackend::Wayland(_) => unreached(),
        }
    }

    /// As `rows`, but gathered across the worker pool: byte-identical to
    /// the sequential form.
    pub fn par_rows(&self) -> (r: Vec<Vec<u8>>)
        requires
            self.wf(),
        ensures
            self.spec_row_len() == 0 ==> r@.len() == 0,
            self.spec_row_len() > 0 ==> r@.len() == self.spec_height() && forall|n: int|
                0 <= n < r@.len() ==> (#[trigger] r@[n])@ == self.spec_row(n),
    {
        match &self.backend {
            PixelBufferBackend::Xlib(b) => b.par_rows(),
            PixelBufferBackend::Wayland(_) => unreached(),
        }
    }

    /// As `rows_mut`, but written across the worker pool: the final bytes
    /// are exactly those the sequential form produces for the same
    /// `rows`.
    pub fn par_rows_mut(&mut self, rows: &Vec<Vec<u8>>)
        requires
            old(self).wf(),
            rows@.len() == old(self).spec_height(),
            forall|n: int|
                0 <= n < rows@.len() ==> (#[trigger] rows@[n])@.len() == old(
                    self,
                ).spec_row_len(),
        ensures
            final(self).wf(),
            final(self).spec_same_shape(*old(self)),
            forall|n: int|
                0 <= n < rows@.len() ==> final(self).spec_row(n) == (#[trigger] rows@[n])@,
            final(self).spec_bytes() == spec_write_rows(
                old(self).spec_bytes(),
                old(self).spec_row_len(),
                rows@.map_values(|v: Vec<u8>| v@),
            ),
    {
        match &mut self.backend {
            PixelBufferBackend::Xlib(b) => b.par_rows_mut(rows),
            PixelBufferBackend::Wayland(_) => unreached(),
        }
    }

    /// Does the `blit_size` rectangle at `src_pos` lie inside the buffer?
    pub open spec fn spec_rect_in_bounds(self, src_pos: (u32, u32), blit_size: (u32, u32)) -> bool {
        src_pos.0 + blit_size.0 <= self.spec_width() && src_pos.1 + blit_size.1
            <= self.spec_height()
    }

    /// Validate a partial blit and plan the native copy: the `blit_size`
    /// rectangle at `src_pos` within the buffer, placed at `dst_pos` on
    /// the drawable `handle` names. `HandleMismatch` when the handle's
    /// tag differs from the backend bound at construction;
    /// `OutOfBounds` — before any native call is planned — exactly when
    /// the source rectangle exceeds the buffer bounds. The embedding
    /// program executes the planned command and translates its status
    /// with `blit_outcome`.
    pub fn blit_rect(
        &self,
        src_pos: (u32, u32),
        dst_pos: (u32, u32),
        blit_size: (u32, u32),
        handle: WindowHandle,
    ) -> (r: Result<BlitCommand, BlitError>)
        requires
            self.wf(),
            src_pos.0 <= i32::MAX as u32,
            src_pos.1 <= i32::MAX as u32,
            dst_pos.0 <= i32::MAX as u32,
            dst_pos.1 <= i32::MAX as u32,
        ensures
            !(handle is Xlib) ==> r == Err::<BlitCommand, BlitError>(BlitError::HandleMismatch),
            handle is Xlib ==> ((r is Ok <==> self.spec_rect_in_bounds(src_pos, blit_size)) && (
            !self.spec_rect_in_bounds(src_pos, blit_size) ==> r == Err::<BlitCommand, BlitError>(
                BlitError::OutOfBounds,
            ))),
            handle matches WindowHandle::Xlib(h) ==> (r matches Ok(cmd) ==> cmd.display
                == h.display && cmd.drawable == h.window && cmd.gc == self.spec_gc() && cmd.src_x
                == src_pos.0 as i32 && cmd.src_y == src_pos.1 as i32 && cmd.dst_x == dst_pos.0
                as i32 && cmd.dst_y == dst_pos.1 as i32 && cmd.width == blit_size.0 && cmd.height
                == blit_size.1),
    {
        let h = match handle {
            WindowHandle::Xlib(h) => h,
            _ => {
                return Err(BlitError::HandleMismatch);
            },
        };
        match &self.backend {
            PixelBufferBackend::Xlib(b) => b.blit_rect(src_pos, dst_pos, blit_size, h),
            PixelBufferBackend::Wayland(_) => unreached(),
        }
    }

    /// Blit the whole buffer at the window's origin: the same as
    /// `blit_rect((0,0), (0,0), (width, height), handle)`, so it cannot
    /// be out of bounds, and fails exactly when the handle's tag differs
    /// from the backend bound at construction.
    pub fn blit(&self, handle: WindowHandle) -> (r: Result<BlitCommand, BlitError>)
        requires
            self.wf(),
        ensures
            !(handle is Xlib) ==> r == Err::<BlitCommand, BlitError>(BlitError::HandleMismatch),
            handle is Xlib ==> r is Ok,
            handle matches WindowHandle::Xlib(h) ==> (r matches Ok(cmd) ==> cmd.display
                == h.display && cmd.drawable == h.window && cmd.gc == self.spec_gc() && cmd.src_x
                == 0 && cmd.src_y == 0 && cmd.dst_x == 0 && cmd.dst_y == 0 && cmd.width
                == self.spec_width() && cmd.height == self.spec_height()),
    {
        self.blit_rect((0, 0), (0, 0), (self.width(), self.height()), handle)
    }
}

} // verus!
