//! An alternate X11 backend that stages its blit through an off-screen
//! pixmap: the image is first put onto the pixmap and then copied onto the
//! window. Its buffer is addressed exactly like the main backend's: full
//! pixel rows of `width * bytes_per_pixel` bytes, numbered top-to-bottom
//! over bottom-to-top physical storage.

use crate::error::{PixelBufferCreationError, STATUS_BAD_VALUE};
use crate::format::PixelBufferFormatType;
use crate::handle::XlibHandle;
use crate::rows::{
    lemma_row_roundtrip, lemma_segment_in_bounds, lemma_size_grouping, lemma_write_row_frame,
    lemma_write_rows_agree, spec_phys_row, spec_row_of, spec_write_row, spec_write_rows,
};
use crate::xlib::BlitCommand;
use vstd::prelude::*;

verus! {

/// The second leg of a staged blit: the native copy-area call from one
/// drawable to another, fully planned.
#[derive(Clone, Copy, PartialEq, Eq, Structural, Debug)]
pub struct CopyAreaCommand {
    pub display: usize,
    pub src_drawable: u64,
    pub dst_drawable: u64,
    pub gc: usize,
    pub src_x: i32,
    pub src_y: i32,
    pub width: u32,
    pub height: u32,
    pub dst_x: i32,
    pub dst_y: i32,
}

/// A size given to a blit, or the buffer's own if none was.
pub open spec fn spec_size_or(v: Option<u32>, d: u32) -> u32 {
    match v {
        Some(x) => x,
        None => d,
    }
}

/// The staged backend: the byte buffer, its geometry and format, and the
/// addresses of the native objects the staging uses.
pub struct XlibPixelBuffer {
    data: Vec<u8>,
    width: u32,
    height: u32,
    format: PixelBufferFormatType,
    pixel_byte_count: u32,
    image: usize,
    pixmap: u64,
    gc: usize,
    window: u64,
    display: usize,
}

impl XlibPixelBuffer {
    pub closed spec fn spec_data(self) -> Seq<u8> {
        self.data@
    }

    pub closed spec fn spec_width(self) -> u32 {
        self.width
    }

    pub closed spec fn spec_height(self) -> u32 {
        self.height
    }

    pub closed spec fn spec_format(self) -> PixelBufferFormatType {
        self.format
    }

    pub closed spec fn spec_bpp(self) -> u32 {
        self.pixel_byte_count
    }

    pub closed spec fn spec_pixmap(self) -> u64 {
        self.pixmap
    }

    pub closed spec fn spec_window(self) -> u64 {
        self.window
    }

    pub closed spec fn spec_display(self) -> usize {
        self.display
    }

    pub closed spec fn spec_gc(self) -> usize {
        self.gc
    }

    pub closed spec fn spec_image(self) -> usize {
        self.image
    }

    /// Length in bytes of one row; the storage carries no padding.
    pub open spec fn spec_row_len(self) -> int {
        self.spec_bpp() * self.spec_width()
    }

    /// Visual row `n` of the buffer.
    pub open spec fn spec_row(self, n: int) -> Seq<u8> {
        spec_row_of(self.spec_data(), self.spec_height() as int, self.spec_row_len(), n)
    }

    /// The buffer's invariant: the byte width matches the format, the
    /// sizes fit the native size type, the buffer holds exactly
    /// width * height * bytes-per-pixel bytes, and the off-screen pixmap
    /// is a real allocation, not the bad-value sentinel.
    pub open spec fn wf(self) -> bool {
        &&& self.spec_bpp() == self.spec_format().spec_bytes_per_pixel()
        &&& self.spec_bpp() * self.spec_width() <= u32::MAX
        &&& self.spec_bpp() * self.spec_width() * self.spec_height() <= u32::MAX
        &&& self.spec_data().len() == self.spec_height() * self.spec_row_len()
        &&& self.spec_pixmap() != STATUS_BAD_VALUE as u64
    }

    /// The geometry and binding of the buffer: everything but the bytes.
    pub open spec fn spec_same_shape(self, other: XlibPixelBuffer) -> bool {
        &&& self.spec_width() == other.spec_width()
        &&& self.spec_height() == other.spec_height()
        &&& self.spec_bpp() == other.spec_bpp()
        &&& self.spec_format() == other.spec_format()
        &&& self.spec_image() == other.spec_image()
        &&& self.spec_pixmap() == other.spec_pixmap()
        &&& self.spec_gc() == other.spec_gc()
        &&& self.spec_window() == other.spec_window()
        &&& self.spec_display() == other.spec_display()
    }

    /// Build the staged backend from what the embedding program allocated
    /// natively: the image over this buffer, the off-screen pixmap, and
    /// the default graphics context. The buffer starts zeroed, sized to
    /// the format. A pixmap reported as the bad-value sentinel is a
    /// failed native allocation and comes back as an error; nothing of
    /// this buffer exists yet at that point, so nothing is leaked.
    #[allow(unused_variables)]
    pub fn new(
        width: u32,
        height: u32,
        format: PixelBufferFormatType,
        handle: XlibHandle,
        image: usize,
        pixmap: u64,
        gc: usize,
    ) -> (r: Result<XlibPixelBuffer, PixelBufferCreationError>)
        requires
            format.spec_bytes_per_pixel() * width <= u32::MAX,
            format.spec_bytes_per_pixel() * width * height <= u32::MAX,
        ensures
            r is Ok <==> pixmap != STATUS_BAD_VALUE as u64,
            r is Err ==> r == Err::<XlibPixelBuffer, PixelBufferCreationError>(
                PixelBufferCreationError::BackendInitFailed,
            ),
            r matches Ok(b) ==> ({
                &&& b.wf()
                &&& b.spec_width() == width
                &&& b.spec_height() == height
                &&& b.spec_format() == format
                &&& b.spec_bpp() == format.spec_bytes_per_pixel()
                &&& b.spec_image() == image
                &&& b.spec_pixmap() == pixmap
                &&& b.spec_gc() == gc
                &&& b.spec_window() == handle.window
                &&& b.spec_display() == handle.display
                &&& b.spec_data().len() == format.spec_bytes_per_pixel() * width * height
                &&& forall|i: int| 0 <= i < b.spec_data().len() ==> b.spec_data()[i] == 0u8
            }),
    {
        if pixmap == STATUS_BAD_VALUE as u64 {
            return Err(PixelBufferCreationError::BackendInitFailed);
        }
        let pixel_byte_count = format.bytes_per_pixel();
        let total: u32 = pixel_byte_count * width * height;
        let total_usize: usize = total as usize;
        let mut data: Vec<u8> = Vec::new();
        while data.len() < total_usize
            invariant
                data@.len() <= total_usize,
                forall|i: int| 0 <= i < data@.len() ==> data@[i] == 0u8,
            decreases total_usize - data.len(),
        {
            data.push(0u8);
        }
        proof {
            lemma_size_grouping(width as int, height as int, pixel_byte_count as int);
        }
        Ok(
            XlibPixelBuffer {
                data,
                width,
                height,
                format,
                pixel_byte_count,
                image,
                pixmap,
                gc,
                window: handle.window,
                display: handle.display,
            },
        )
    }

    /// Plan the staged blit: first the put-image call that transfers the
    /// rectangle onto the off-screen pixmap, then the copy-area call that
    /// moves it from the pixmap onto the window. A missing size defaults
    /// to the whole buffer.
    pub fn blit(
        &self,
        src_x: u32,
        src_y: u32,
        dest_x: u32,
        dest_y: u32,
        width: Option<u32>,
        height: Option<u32>,
    ) -> (r: (BlitCommand, CopyAreaCommand))
        requires
            src_x <= i32::MAX as u32,
            src_y <= i32::MAX as u32,
            dest_x <= i32::MAX as u32,
            dest_y <= i32::MAX as u32,
        ensures
            r.0 == (BlitCommand {
                display: self.spec_display(),
                drawable: self.spec_pixmap(),
                gc: self.spec_gc(),
                src_x: src_x as i32,
                src_y: src_y as i32,
                dst_x: dest_x as i32,
                dst_y: dest_y as i32,
                width: spec_size_or(width, self.spec_width()),
                height: spec_size_or(height, self.spec_height()),
            }),
            r.1 == (CopyAreaCommand {
                display: self.spec_display(),
                src_drawable: self.spec_pixmap(),
                dst_drawable: self.spec_window(),
                gc: self.spec_gc(),
                src_x: src_x as i32,
                src_y: src_y as i32,
                width: spec_size_or(width, self.spec_width()),
                height: spec_size_or(height, self.spec_height()),
                dst_x: dest_x as i32,
                dst_y: dest_y as i32,
            }),
    {
        let w = match width {
            Some(x) => x,
            None => self.width,
        };
        let h = match height {
            Some(x) => x,
            None => self.height,
        };
        let put = BlitCommand {
            display: self.display,
            drawable: self.pixmap,
            gc: self.gc,
            src_x: src_x as i32,
            src_y: src_y as i32,
            dst_x: dest_x as i32,
            dst_y: dest_y as i32,
            width: w,
            height: h,
        };
        let copy = CopyAreaCommand {
            display: self.display,
            src_drawable: self.pixmap,
            dst_drawable: self.window,
            gc: self.gc,
            src_x: src_x as i32,
            src_y: src_y as i32,
            width: w,
            height: h,
            dst_x: dest_x as i32,
            dst_y: dest_y as i32,
        };
        (put, copy)
    }

    /// Copy visual row `row` out of the bottom-to-top storage.
    fn row_copy(&self, row: u32) -> (r: Vec<u8>)
        requires
            self.wf(),
            row < self.spec_height(),
        ensures
            r@ == self.spec_row(row as int),
    {
        let phys = self.height - 1 - row;
        let rl = (self.pixel_byte_count * self.width) as usize;
        let _buf_len = self.data.len();
        proof {
            lemma_segment_in_bounds(
                self.spec_height() as int,
                self.spec_row_len(),
                phys as int,
            );
        }
        let start: usize = (phys as usize) * rl;
        let mut out: Vec<u8> = Vec::new();
        let mut j: usize = 0;
        while j < rl
            invariant
                j <= rl,
                out@.len() == j,
                row < self.spec_height(),
                rl == self.spec_row_len(),
                start == spec_phys_row(self.spec_height() as int, row as int) * rl,
                start + rl <= self.spec_data().len(),
                self.spec_data().len() <= usize::MAX,
                forall|k: int| 0 <= k < j ==> out@[k] == self.spec_data()[start + k],
            decreases rl - j,
        {
            let b = self.data[start + j];
            out.push(b);
            j += 1;
        }
        proof {
            assert(out@ =~= self.spec_row(row as int));
        }
        out
    }

    /// Overwrite visual row `row` with `data`.
    fn write_row(&mut self, row: u32, data: &Vec<u8>)
        requires
            old(self).wf(),
            row < old(self).spec_height(),
            data@.len() == old(self).spec_row_len(),
        ensures
            final(self).wf(),
            final(self).spec_same_shape(*old(self)),
            final(self).spec_data() == spec_write_row(
                old(self).spec_data(),
                old(self).spec_height() as int,
                old(self).spec_row_len(),
                row as int,
                data@,
            ),
    {
        let phys = self.height - 1 - row;
        let rl = (self.pixel_byte_count * self.width) as usize;
        let _buf_len = self.data.len();
        proof {
            lemma_segment_in_bounds(
                self.spec_height() as int,
                self.spec_row_len(),
                phys as int,
            );
        }
        let start: usize = (phys as usize) * rl;
        let mut j: usize = 0;
        while j < rl
            invariant
                j <= rl,
                row < old(self).spec_height(),
                rl == old(self).spec_row_len(),
                data@.len() == rl,
                self.spec_same_shape(*old(self)),
                self.spec_data().len() == old(self).spec_data().len(),
                start == spec_phys_row(old(self).spec_height() as int, row as int) * rl,
                start + rl <= self.spec_data().len(),
                self.spec_data().len() <= usize::MAX,
                forall|k: int| 0 <= k < j ==> self.spec_data()[start + k] == data@[k],
                forall|k: int|
                    0 <= k < self.spec_data().len() && !(start <= k < start + j)
                        ==> self.spec_data()[k] == old(self).spec_data()[k],
            decreases rl - j,
        {
            let b = data[j];
            self.data.set(start + j, b);
            j += 1;
        }
        proof {
            assert(self.spec_data() =~= spec_write_row(
                old(self).spec_data(),
                old(self).spec_height() as int,
                old(self).spec_row_len(),
                row as int,
                data@,
            ));
        }
    }

    /// All rows in top-to-bottom visual order, one owned vector per row:
    /// entry `n` is visual row `n`. A buffer with empty rows yields no
    /// entries, as there are no bytes to chunk.
    pub fn rows(&self) -> (r: Vec<Vec<u8>>)
        requires
            self.wf(),
        ensures
            self.spec_row_len() == 0 ==> r@.len() == 0,
            self.spec_row_len() > 0 ==> r@.len() == self.spec_height() && forall|n: int|
                0 <= n < r@.len() ==> (#[trigger] r@[n])@ == self.spec_row(n),
    {
        let mut out: Vec<Vec<u8>> = Vec::new();
        let rl = (self.pixel_byte_count * self.width) as usize;
        if rl == 0 {
            return out;
        }
        let mut n: u32 = 0;
        while n < self.height
            invariant
                self.wf(),
                n <= self.spec_height(),
                out@.len() == n,
                forall|m: int| 0 <= m < n ==> (#[trigger] out@[m])@ == self.spec_row(m),
            decreases self.height - n,
        {
            let v = self.row_copy(n);
            out.push(v);
            n += 1;
        }
        out
    }

    /// Overwrite every row in top-to-bottom visual order: row `n` becomes
    /// `rows[n]`. The mirror image of `rows`.
    pub fn rows_mut(&mut self, rows: &Vec<Vec<u8>>)
        requires
            old(self).wf(),
            rows@.len() == old(self).spec_height(),
            forall|n: int|
                0 <= n < rows@.len() ==> (#[trigger] rows@[n])@.len() == old(
                    self,
                ).spec_row_len(),
        ensures
            final(self).wf(),
            final(self).spec_same_shape(*old(self)),
            forall|n: int|
                0 <= n < rows@.len() ==> final(self).spec_row(n) == (#[trigger] rows@[n])@,
            final(self).spec_data() == spec_write_rows(
                old(self).spec_data(),
                old(self).spec_row_len(),
                rows@.map_values(|v: Vec<u8>| v@),
            ),
    {
        let rl_entry = (self.pixel_byte_count * self.width) as usize;
        if rl_entry == 0 {
            proof {
                assert forall|n: int| 0 <= n < rows@.len() implies self.spec_row(n)
                    == (#[trigger] rows@[n])@ by {
                    assert(self.spec_row(n) =~= rows@[n]@);
                }
            }
            return ;
        }
        let mut n: u32 = 0;
        while n < self.height
            invariant
                self.wf(),
                self.spec_same_shape(*old(self)),
                self.spec_data().len() == old(self).spec_data().len(),
                n <= self.spec_height(),
                rows@.len() == self.spec_height(),
                forall|m: int|
                    0 <= m < rows@.len() ==> (#[trigger] rows@[m])@.len()
                        == self.spec_row_len(),
                forall|m: int| 0 <= m < n ==> self.spec_row(m) == (#[trigger] rows@[m])@,
                forall|m: int|
                    n <= m < self.spec_height() ==> self.spec_row(m) == old(self).spec_row(m),
            decreases self.height - n,
        {
            let ghost before = *self;
            let data = &rows[n as usize];
            self.write_row(n, data);
            proof {
                let h = self.spec_height() as int;
                let rl = self.spec_row_len();
                lemma_row_roundtrip(before.spec_data(), h, rl, n as int, rows@[n as int]@);
                assert forall|m: int| 0 <= m < h && m != n implies self.spec_row(m)
                    == before.spec_row(m) by {
                    lemma_write_row_frame(
                        before.spec_data(),
                        h,
                        rl,
                        n as int,
                        rows@[n as int]@,
                        m,
                    );
                }
            }
            n += 1;
        }
        proof {
            let h = self.spec_height() as int;
            let rl = old(self).spec_row_len();
            let rs = rows@.map_values(|v: Vec<u8>| v@);
            assert forall|m: int| 0 <= m < h implies (#[trigger] rs[m]).len() == rl by {
                assert(rs[m] == rows@[m]@);
            }
            assert forall|m: int| 0 <= m < h implies spec_row_of(
                self.spec_data(),
                h,
                rl,
                m,
            ) == #[trigger] rs[m] by {
                assert(rs[m] == rows@[m]@);
            }
            lemma_write_rows_agree(old(self).spec_data(), self.spec_data(), h, rl, rs);
        }
    }

    /// The off-screen pixmap the staging writes to; teardown frees it.
    pub fn pixmap(&self) -> (r: u64)
        ensures
            r == self.spec_pixmap(),
    {
        self.pixmap
    }

    /// The address of the native image over this buffer; teardown detaches
    /// and destroys it before the buffer's storage goes.
    pub fn image(&self) -> (r: usize)
        ensures
            r == self.spec_image(),
    {
        self.image
    }
}

} // verus!
