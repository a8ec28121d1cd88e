//! The realized backend: a pixel buffer bound to an X11 (Xlib) window.
//!
//! The native side of the backend — opening the display library, querying
//! visuals, creating the image that aliases the byte buffer, executing a
//! copy — is performed by the embedding program. This module holds
//! everything that can be decided from plain values: the process-wide
//! context cache, the visual negotiation, the buffer itself with its row
//! addressing, and the planning and validation of every native copy.

use crate::error::{BlitError, PixelBufferCreationError};
use crate::format::PixelBufferFormatType;
use crate::handle::XlibHandle;
use crate::rows::{
    lemma_row_roundtrip, lemma_segment_in_bounds, lemma_size_grouping, lemma_whole_rows,
    lemma_write_row_frame, lemma_write_rows_agree, spec_phys_row, spec_row_of, spec_write_row,
    spec_write_rows,
};
use rayon::iter::{IndexedParallelIterator, IntoParallelRefIterator, ParallelIterator};
use rayon::slice::{ParallelSlice, ParallelSliceMut};
use vstd::prelude::*;

verus! {

/// What the backend keeps of one native display connection, as plain
/// values: the address of the Display it belongs to, the default screen,
/// the default depth, and the address of the default graphics context. The
/// embedding program fills one in when it first opens a display; the
/// library only reads it.
#[derive(Clone, Copy, PartialEq, Eq, Structural, Debug)]
pub struct XlibContext {
    pub display: usize,
    pub screen: i32,
    pub depth: u32,
    pub gc: usize,
}

/// At most one cached context per display identity.
pub open spec fn spec_cache_distinct(cache: Seq<XlibContext>) -> bool {
    forall|i: int, j: int|
        #![trigger cache[i].display, cache[j].display]
        0 <= i < j < cache.len() ==> cache[i].display != cache[j].display
}

/// The context the cache holds for `display`, if any.
pub open spec fn spec_cache_lookup(cache: Seq<XlibContext>, display: usize) -> Option<
    XlibContext,
>
    decreases cache.len(),
{
    if cache.len() == 0 {
        None
    } else if cache[0].display == display {
        Some(cache[0])
    } else {
        spec_cache_lookup(cache.drop_first(), display)
    }
}

proof fn lemma_cache_lookup_at(cache: Seq<XlibContext>, display: usize, i: int)
    requires
        0 <= i < cache.len(),
        forall|j: int| 0 <= j < i ==> (#[trigger] cache[j]).display != display,
        cache[i].display == display,
    ensures
        spec_cache_lookup(cache, display) == Some(cache[i]),
    decreases i,
{
    if i == 0 {
    } else {
        assert(cache[0].display != display);
        assert forall|j: int| 0 <= j < i - 1 implies (#[trigger] cache.drop_first()[j]).display
            != display by {
            assert(cache.drop_first()[j] == cache[j + 1]);
        }
        lemma_cache_lookup_at(cache.drop_first(), display, i - 1);
        assert(cache.drop_first()[i - 1] == cache[i]);
    }
}

proof fn lemma_cache_lookup_none(cache: Seq<XlibContext>, display: usize)
    requires
        forall|j: int| 0 <= j < cache.len() ==> (#[trigger] cache[j]).display != display,
    ensures
        spec_cache_lookup(cache, display) is None,
    decreases cache.len(),
{
    if cache.len() == 0 {
    } else {
        assert forall|j: int| 0 <= j < cache.drop_first().len() implies (#[trigger] cache
            .drop_first()[j]).display != display by {
            assert(cache.drop_first()[j] == cache[j + 1]);
        }
        lemma_cache_lookup_none(cache.drop_first(), display);
    }
}

proof fn lemma_cache_lookup_push(cache: Seq<XlibContext>, display: usize, c: XlibContext)
    requires
        spec_cache_lookup(cache, display) is None,
        c.display == display,
    ensures
        spec_cache_lookup(cache.push(c), display) == Some(c),
    decreases cache.len(),
{
    if cache.len() == 0 {
        assert(cache.push(c)[0] == c);
    } else {
        assert(cache.push(c)[0] == cache[0]);
        assert(cache.push(c).drop_first() =~= cache.drop_first().push(c));
        lemma_cache_lookup_push(cache.drop_first(), display, c);
    }
}

impl XlibContext {
    /// Look up or create the process-wide context for `display`.
    ///
    /// `cache` is the process-wide table of open connections, one entry per
    /// distinct display identity. `opened` is the context the embedding
    /// program freshly opened for `display`, or `None` where the native
    /// library or the display could not be opened. A context the cache
    /// already holds is returned as it is — a later open of the same
    /// display never replaces the first — and a display that is neither
    /// cached nor freshly opened is an initialization failure.
    pub fn get(cache: &mut Vec<XlibContext>, display: usize, opened: Option<XlibContext>) -> (r:
        Result<XlibContext, PixelBufferCreationError>)
        requires
            spec_cache_distinct(old(cache)@),
            opened matches Some(c) ==> c.display == display,
        ensures
            spec_cache_distinct(final(cache)@),
            match spec_cache_lookup(old(cache)@, display) {
                Some(c) => r == Ok::<XlibContext, PixelBufferCreationError>(c) && final(cache)@
                    == old(cache)@,
                None => match opened {
                    Some(c) => r == Ok::<XlibContext, PixelBufferCreationError>(c)
                        && final(cache)@ == old(cache)@.push(c),
                    None => r == Err::<XlibContext, PixelBufferCreationError>(
                        PixelBufferCreationError::BackendInitFailed,
                    ) && final(cache)@ == old(cache)@,
                },
            },
            r matches Ok(c) ==> c.display == display && spec_cache_lookup(final(cache)@, display)
                == Some(c),
    {
        let n = cache.len();
        let mut i: usize = 0;
        while i < n
            invariant
                i <= n,
                n == cache.len(),
                cache@ == old(cache)@,
                spec_cache_distinct(cache@),
                forall|j: int| 0 <= j < i ==> (#[trigger] cache@[j]).display != display,
            decreases n - i,
        {
            if cache[i].display == display {
                let c = cache[i];
                proof {
                    lemma_cache_lookup_at(cache@, display, i as int);
                }
                return Ok(c);
            }
            i += 1;
        }
        proof {
            lemma_cache_lookup_none(cache@, display);
        }
        match opened {
            Some(c) => {
                cache.push(c);
                proof {
                    lemma_cache_lookup_push(old(cache)@, display, c);
                    assert forall|a: int, b: int|
                        0 <= a < b < cache@.len() implies #[trigger] cache@[a].display
                        != #[trigger] cache@[b].display by {
                        if b < cache@.len() - 1 {
                        } else {
                            assert(cache@[a] == old(cache)@[a]);
                        }
                    }
                }
                Ok(c)
            },
            None => Err(PixelBufferCreationError::BackendInitFailed),
        }
    }
}

/// One native visual as the platform lists it: the address of the native
/// Visual object, its id, and the layout facts the negotiation reads.
#[derive(Clone, Copy, PartialEq, Eq, Structural, Debug)]
pub struct XlibVisualInfo {
    pub visual: usize,
    pub visual_id: u64,
    pub screen: i32,
    pub depth: u32,
    pub red_mask: u64,
    pub green_mask: u64,
    pub blue_mask: u64,
    pub bits_per_rgb: i32,
}

/// The visual query the backend issues for `format` on a display described
/// by `context`: right screen, right depth, exactly the channel masks of
/// the format, and 8 bits per channel.
pub open spec fn spec_visual_matches(
    v: XlibVisualInfo,
    context: XlibContext,
    format: PixelBufferFormatType,
) -> bool {
    &&& v.screen == context.screen
    &&& v.depth == context.depth
    &&& v.red_mask == format.spec_channel_masks().0
    &&& v.green_mask == format.spec_channel_masks().1
    &&& v.blue_mask == format.spec_channel_masks().2
    &&& v.bits_per_rgb == 8
}

/// Does `v` satisfy the visual query for `format` on `context`'s display?
pub fn visual_matches(
    v: &XlibVisualInfo,
    context: &XlibContext,
    format: PixelBufferFormatType,
) -> (r: bool)
    ensures
        r == spec_visual_matches(*v, *context, format),
{
    let (red, green, blue) = format.channel_masks();
    v.screen == context.screen && v.depth == context.depth && v.red_mask == red && v.green_mask
        == green && v.blue_mask == blue && v.bits_per_rgb == 8
}

/// The first listed visual that satisfies the query, if any.
pub open spec fn spec_find_visual(
    visuals: Seq<XlibVisualInfo>,
    context: XlibContext,
    format: PixelBufferFormatType,
) -> Option<XlibVisualInfo>
    decreases visuals.len(),
{
    if visuals.len() == 0 {
        None
    } else if spec_visual_matches(visuals[0], context, format) {
        Some(visuals[0])
    } else {
        spec_find_visual(visuals.drop_first(), context, format)
    }
}

proof fn lemma_find_visual_at(
    visuals: Seq<XlibVisualInfo>,
    context: XlibContext,
    format: PixelBufferFormatType,
    i: int,
)
    requires
        0 <= i < visuals.len(),
        forall|j: int| 0 <= j < i ==> !spec_visual_matches(#[trigger] visuals[j], context, format),
        spec_visual_matches(visuals[i], context, format),
    ensures
        spec_find_visual(visuals, context, format) == Some(visuals[i]),
    decreases i,
{
    if i == 0 {
    } else {
        assert(!spec_visual_matches(visuals[0], context, format));
        assert forall|j: int| 0 <= j < i - 1 implies !spec_visual_matches(
            #[trigger] visuals.drop_first()[j],
            context,
            format,
        ) by {
            assert(visuals.drop_first()[j] == visuals[j + 1]);
        }
        lemma_find_visual_at(visuals.drop_first(), context, format, i - 1);
        assert(visuals.drop_first()[i - 1] == visuals[i]);
    }
}

proof fn lemma_find_visual_none(
    visuals: Seq<XlibVisualInfo>,
    context: XlibContext,
    format: PixelBufferFormatType,
)
    requires
        forall|j: int|
            0 <= j < visuals.len() ==> !spec_visual_matches(
                #[trigger] visuals[j],
                context,
                format,
            ),
    ensures
        spec_find_visual(visuals, context, format) is None,
    decreases visuals.len(),
{
    if visuals.len() == 0 {
    } else {
        assert forall|j: int| 0 <= j < visuals.drop_first().len() implies !spec_visual_matches(
            #[trigger] visuals.drop_first()[j],
            context,
            format,
        ) by {
            assert(visuals.drop_first()[j] == visuals[j + 1]);
        }
        lemma_find_visual_none(visuals.drop_first(), context, format);
    }
}

/// Scan the listed visuals for the first one that satisfies the query.
pub fn find_visual(
    visuals: &Vec<XlibVisualInfo>,
    context: &XlibContext,
    format: PixelBufferFormatType,
) -> (r: Option<XlibVisualInfo>)
    ensures
        r == spec_find_visual(visuals@, *context, format),
        r matches Some(v) ==> spec_visual_matches(v, *context, format),
{
    let n = visuals.len();
    let mut i: usize = 0;
    while i < n
        invariant
            i <= n,
            n == visuals.len(),
            forall|j: int|
                0 <= j < i ==> !spec_visual_matches(#[trigger] visuals@[j], *context, format),
        decreases n - i,
    {
        if visual_matches(&visuals[i], context, format) {
            let v = visuals[i];
            proof {
                lemma_find_visual_at(visuals@, *context, format, i as int);
            }
            return Some(v);
        }
        i += 1;
    }
    proof {
        lemma_find_visual_none(visuals@, *context, format);
    }
    None
}

/// Everything the embedding program learned from one open native display:
/// the shared context and the visuals its screen offers. Construction
/// negotiates against this description instead of calling the platform.
pub struct XlibSession {
    pub context: XlibContext,
    pub visuals: Vec<XlibVisualInfo>,
}

/// One native copy, fully planned: the exact arguments of the platform's
/// put-image call. The embedding program executes it and reports the
/// status code back.
#[derive(Clone, Copy, PartialEq, Eq, Structural, Debug)]
pub struct BlitCommand {
    pub display: usize,
    pub drawable: u64,
    pub gc: usize,
    pub src_x: i32,
    pub src_y: i32,
    pub dst_x: i32,
    pub dst_y: i32,
    pub width: u32,
    pub height: u32,
}

/// The Xlib-bound pixel buffer: the CPU byte buffer in native
/// (bottom-to-top) row order, its geometry, the context of the display it
/// was built against, and the visual the negotiation picked.
pub struct PixelBuffer {
    context: XlibContext,
    visual: XlibVisualInfo,
    format: PixelBufferFormatType,
    buf: Vec<u8>,
    width: u32,
    height: u32,
    pixel_byte_count: u32,
}

impl PixelBuffer {
    pub closed spec fn spec_width(self) -> u32 {
        self.width
    }

    pub closed spec fn spec_height(self) -> u32 {
        self.height
    }

    pub closed spec fn spec_bpp(self) -> u32 {
        self.pixel_byte_count
    }

    pub closed spec fn spec_format(self) -> PixelBufferFormatType {
        self.format
    }

    pub closed spec fn spec_context(self) -> XlibContext {
        self.context
    }

    pub closed spec fn spec_visual(self) -> XlibVisualInfo {
        self.visual
    }

    pub closed spec fn spec_bytes(self) -> Seq<u8> {
        self.buf@
    }

    /// Length in bytes of one row. The buffer is allocated without row
    /// padding, so the physical stride equals the pixel row width.
    pub open spec fn spec_row_len(self) -> int {
        self.spec_bpp() * self.spec_width()
    }

    /// Visual row `n` of the buffer.
    pub open spec fn spec_row(self, n: int) -> Seq<u8> {
        spec_row_of(self.spec_bytes(), self.spec_height() as int, self.spec_row_len(), n)
    }

    /// The buffer's invariant: the byte width matches the format, the
    /// sizes fit the native size type, the buffer holds exactly
    /// width * height * bytes-per-pixel bytes, and the picked visual
    /// satisfies the query for the format.
    pub open spec fn wf(self) -> bool {
        &&& self.spec_bpp() == self.spec_format().spec_bytes_per_pixel()
        &&& self.spec_bpp() * self.spec_width() <= u32::MAX
        &&& self.spec_bpp() * self.spec_width() * self.spec_height() <= u32::MAX
        &&& self.spec_bytes().len() == self.spec_height() * self.spec_row_len()
        &&& spec_visual_matches(self.spec_visual(), self.spec_context(), self.spec_format())
    }

    /// The geometry and binding of the buffer: everything but the bytes.
    pub open spec fn spec_same_shape(self, other: PixelBuffer) -> bool {
        &&& self.spec_width() == other.spec_width()
        &&& self.spec_height() == other.spec_height()
        &&& self.spec_bpp() == other.spec_bpp()
        &&& self.spec_format() == other.spec_format()
        &&& self.spec_context() == other.spec_context()
        &&& self.spec_visual() == other.spec_visual()
    }

    /// Build a buffer for an Xlib window: negotiate a visual against what
    /// the session lists, then allocate the zeroed byte buffer. Succeeds
    /// exactly when some listed visual matches the format; fails with
    /// `UnsupportedFormat` otherwise, leaking nothing (nothing native has
    /// been touched yet).
    #[allow(unused_variables)]
    pub fn new(
        width: u32,
        height: u32,
        format: PixelBufferFormatType,
        handle: XlibHandle,
        session: &XlibSession,
    ) -> (r: Result<PixelBuffer, PixelBufferCreationError>)
        requires
            session.context.display == handle.display,
            format.spec_bytes_per_pixel() * width <= u32::MAX,
            format.spec_bytes_per_pixel() * width * height <= u32::MAX,
        ensures
            r is Ok <==> spec_find_visual(session.visuals@, session.context, format) is Some,
            r is Err ==> r == Err::<PixelBuffer, PixelBufferCreationError>(
                PixelBufferCreationError::UnsupportedFormat,
            ),
            r matches Ok(b) ==> ({
                &&& b.wf()
                &&& b.spec_width() == width
                &&& b.spec_height() == height
                &&& b.spec_format() == format
                &&& b.spec_context() == session.context
                &&& Some(b.spec_visual()) == spec_find_visual(
                    session.visuals@,
                    session.context,
                    format,
                )
                &&& b.spec_bytes().len() == format.spec_bytes_per_pixel() * width * height
                &&& forall|i: int| 0 <= i < b.spec_bytes().len() ==> b.spec_bytes()[i] == 0u8
            }),
    {
        let visual = match find_visual(&session.visuals, &session.context, format) {
            Some(v) => v,
            None => {
                return Err(PixelBufferCreationError::UnsupportedFormat);
            },
        };
        let pixel_byte_count = format.bytes_per_pixel();
        let total: u32 = pixel_byte_count * width * height;
        let total_usize: usize = total as usize;
        let mut buf: Vec<u8> = Vec::new();
        while buf.len() < total_usize
            invariant
                buf@.len() <= total_usize,
                forall|i: int| 0 <= i < buf@.len() ==> buf@[i] == 0u8,
            decreases total_usize - buf.len(),
        {
            buf.push(0u8);
        }
        proof {
            lemma_size_grouping(width as int, height as int, pixel_byte_count as int);
        }
        Ok(
            PixelBuffer {
                context: session.context,
                visual,
                format,
                buf,
                width,
                height,
                pixel_byte_count,
            },
        )
    }

    /// Number of bytes one pixel occupies.
    pub fn bytes_per_pixel(&self) -> (r: usize)
        ensures
            r == self.spec_bpp(),
    {
        self.pixel_byte_count as usize
    }

    pub fn width(&self) -> (r: u32)
        ensures
            r == self.spec_width(),
    {
        self.width
    }

    pub fn height(&self) -> (r: u32)
        ensures
            r == self.spec_height(),
    {
        self.height
    }

    /// The physical stride in bytes between consecutive rows.
    pub fn row_len(&self) -> (r: usize)
        requires
            self.wf(),
        ensures
            r == self.spec_row_len(),
    {
        (self.pixel_byte_count * self.width) as usize
    }

    /// The whole buffer, in native (bottom-to-top) row order.
    pub fn bytes(&self) -> (r: &Vec<u8>)
        ensures
            r@ == self.spec_bytes(),
    {
        &self.buf
    }

    /// Overwrite the whole buffer, in native (bottom-to-top) row order.
    pub fn bytes_mut(&mut self, data: &Vec<u8>)
        requires
            data@.len() == old(self).spec_bytes().len(),
        ensures
            final(self).spec_same_shape(*old(self)),
            final(self).spec_bytes() == data@,
    {
        let n = data.len();
        let mut j: usize = 0;
        while j < n
            invariant
                j <= n,
                n == data.len(),
                self.spec_bytes().len() == n,
                self.spec_same_shape(*old(self)),
                forall|k: int| 0 <= k < j ==> self.spec_bytes()[k] == data@[k],
            decreases n - j,
        {
            let b = data[j];
            self.buf.set(j, b);
            j += 1;
        }
        proof {
            assert(self.spec_bytes() =~= data@);
        }
    }

    /// The row-order inversion, kept in one place: the physical row that
    /// visual row `tlo_row` denotes.
    fn tlo_to_blo(&self, tlo_row: u32) -> (r: u32)
        requires
            tlo_row < self.spec_height(),
        ensures
            r as int == spec_phys_row(self.spec_height() as int, tlo_row as int),
    {
        self.height - 1 - tlo_row
    }

    /// The row at top-left-origin index `row` (row 0 is the visually
    /// topmost row), copied out of the bottom-to-top storage; `None` when
    /// `row` is out of range.
    pub fn row(&self, row: u32) -> (r: Option<Vec<u8>>)
        requires
            self.wf(),
        ensures
            row < self.spec_height() ==> (r matches Some(v) && v@ == self.spec_row(row as int)),
            row >= self.spec_height() ==> r is None,
    {
        if row >= self.height {
            return None;
        }
        let phys = self.tlo_to_blo(row);
        let rl = self.row_len();
        let _buf_len = self.buf.len();
        proof {
            lemma_segment_in_bounds(
                self.spec_height() as int,
                self.spec_row_len(),
                phys as int,
            );
        }
        let start: usize = (phys as usize) * rl;
        let mut out: Vec<u8> = Vec::new();
        let mut j: usize = 0;
        while j < rl
            invariant
                j <= rl,
                out@.len() == j,
                row < self.spec_height(),
                rl == self.spec_row_len(),
                start == spec_phys_row(self.spec_height() as int, row as int) * rl,
                start + rl <= self.spec_bytes().len(),
                self.spec_bytes().len() <= usize::MAX,
                forall|k: int| 0 <= k < j ==> out@[k] == self.spec_bytes()[start + k],
            decreases rl - j,
        {
            let b = self.buf[start + j];
            out.push(b);
            j += 1;
        }
        proof {
            assert(out@ =~= self.spec_row(row as int));
        }
        Some(out)
    }

    /// Overwrite the row at top-left-origin index `row` with `data`;
    /// `None`, and no change, when `row` is out of range.
    pub fn row_mut(&mut self, row: u32, data: &Vec<u8>) -> (r: Option<()>)
        requires
            old(self).wf(),
            data@.len() == old(self).spec_row_len(),
        ensures
            final(self).wf(),
            final(self).spec_same_shape(*old(self)),
            row < old(self).spec_height() ==> r is Some && final(self).spec_bytes()
                == spec_write_row(
                old(self).spec_bytes(),
                old(self).spec_height() as int,
                old(self).spec_row_len(),
                row as int,
                data@,
            ),
            row >= old(self).spec_height() ==> r is None && final(self).spec_bytes() == old(
                self,
            ).spec_bytes(),
    {
        if row >= self.height {
            return None;
        }
        let phys = self.tlo_to_blo(row);
        let rl = self.row_len();
        let _buf_len = self.buf.len();
        proof {
            lemma_segment_in_bounds(
                self.spec_height() as int,
                self.spec_row_len(),
                phys as int,
            );
        }
        let start: usize = (phys as usize) * rl;
        let mut j: usize = 0;
        while j < rl
            invariant
                j <= rl,
                row < old(self).spec_height(),
                rl == old(self).spec_row_len(),
                data@.len() == rl,
                self.spec_same_shape(*old(self)),
                self.spec_bytes().len() == old(self).spec_bytes().len(),
                start == spec_phys_row(old(self).spec_height() as int, row as int) * rl,
                start + rl <= self.spec_bytes().len(),
                self.spec_bytes().len() <= usize::MAX,
                forall|k: int| 0 <= k < j ==> self.spec_bytes()[start + k] == data@[k],
                forall|k: int|
                    0 <= k < self.spec_bytes().len() && !(start <= k < start + j)
                        ==> self.spec_bytes()[k] == old(self).spec_bytes()[k],
            decreases rl - j,
        {
            let b = data[j];
            self.buf.set(start + j, b);
            j += 1;
        }
        proof {
            assert(self.spec_bytes() =~= spec_write_row(
                old(self).spec_bytes(),
                old(self).spec_height() as int,
                old(self).spec_row_len(),
                row as int,
                data@,
            ));
        }
        Some(())
    }

    /// All rows in visual order, one owned vector per row: entry `n`
    /// equals `row(n)`. A buffer with empty rows yields no entries, as
    /// there are no bytes to chunk.
    pub fn rows(&self) -> (r: Vec<Vec<u8>>)
        requires
            self.wf(),
        ensures
            self.spec_row_len() == 0 ==> r@.len() == 0,
            self.spec_row_len() > 0 ==> r@.len() == self.spec_height() && forall|n: int|
                0 <= n < r@.len() ==> (#[trigger] r@[n])@ == self.spec_row(n),
    {
        let mut out: Vec<Vec<u8>> = Vec::new();
        let rl = self.row_len();
        if rl == 0 {
            return out;
        }
        let mut n: u32 = 0;
        while n < self.height
            invariant
                self.wf(),
                n <= self.spec_height(),
                out@.len() == n,
                forall|m: int| 0 <= m < n ==> (#[trigger] out@[m])@ == self.spec_row(m),
            decreases self.height - n,
        {
            let v = match self.row(n) {
                Some(v) => v,
                None => {
                    return out;  // unreachable: n < height
                },
            };
            out.push(v);
            n += 1;
        }
        out
    }

    /// Overwrite every row: row `n` becomes `rows[n]`. The mirror image of
    /// `rows`, writing in visual order over the bottom-to-top storage.
    pub fn rows_mut(&mut self, rows: &Vec<Vec<u8>>)
        requires
            old(self).wf(),
            rows@.len() == old(self).spec_height(),
            forall|n: int|
                0 <= n < rows@.len() ==> (#[trigger] rows@[n])@.len() == old(
                    self,
                ).spec_row_len(),
        ensures
            final(self).wf(),
            final(self).spec_same_shape(*old(self)),
            forall|n: int|
                0 <= n < rows@.len() ==> final(self).spec_row(n) == (#[trigger] rows@[n])@,
            final(self).spec_bytes() == spec_write_rows(
                old(self).spec_bytes(),
                old(self).spec_row_len(),
                rows@.map_values(|v: Vec<u8>| v@),
            ),
    {
        let rl_entry = self.row_len();
        if rl_entry == 0 {
            proof {
                assert forall|n: int| 0 <= n < rows@.len() implies self.spec_row(n)
                    == (#[trigger] rows@[n])@ by {
                    assert(self.spec_row(n) =~= rows@[n]@);
                }
            }
            return ;
        }
        let mut n: u32 = 0;
        while n < self.height
            invariant
                self.wf(),
                self.spec_same_shape(*old(self)),
                self.spec_bytes().len() == old(self).spec_bytes().len(),
                n <= self.spec_height(),
                rows@.len() == self.spec_height(),
                forall|m: int|
                    0 <= m < rows@.len() ==> (#[trigger] rows@[m])@.len()
                        == self.spec_row_len(),
                forall|m: int| 0 <= m < n ==> self.spec_row(m) == (#[trigger] rows@[m])@,
                forall|m: int|
                    n <= m < self.spec_height() ==> self.spec_row(m) == old(self).spec_row(m),
            decreases self.height - n,
        {
            let ghost before = *self;
            let data = &rows[n as usize];
            self.row_mut(n, data);
            proof {
                let h = self.spec_height() as int;
                let rl = self.spec_row_len();
                lemma_row_roundtrip(before.spec_bytes(), h, rl, n as int, rows@[n as int]@);
                assert forall|m: int| 0 <= m < h && m != n implies self.spec_row(m)
                    == before.spec_row(m) by {
                    lemma_write_row_frame(
                        before.spec_bytes(),
                        h,
                        rl,
                        n as int,
                        rows@[n as int]@,
                        m,
                    );
                }
            }
            n += 1;
        }
        proof {
            let h = self.spec_height() as int;
            let rl = old(self).spec_row_len();
            let rs = rows@.map_values(|v: Vec<u8>| v@);
            assert forall|m: int| 0 <= m < h implies (#[trigger] rs[m]).len() == rl by {
                assert(rs[m] == rows@[m]@);
            }
            assert forall|m: int| 0 <= m < h implies spec_row_of(
                self.spec_bytes(),
                h,
                rl,
                m,
            ) == #[trigger] rs[m] by {
                assert(rs[m] == rows@[m]@);
            }
            lemma_write_rows_agree(old(self).spec_bytes(), self.spec_bytes(), h, rl, rs);
        }
    }

    /// Validate a partial blit and plan the native copy: the `blit_size`
    /// rectangle at `src_pos` in the buffer, placed at `dst_pos` on the
    /// drawable `handle` names. Refused with `OutOfBounds` — before any
    /// native call is planned — exactly when the source rectangle exceeds
    /// the buffer bounds.
    pub open spec fn spec_rect_in_bounds(self, src_pos: (u32, u32), blit_size: (u32, u32)) -> bool {
        src_pos.0 + blit_size.0 <= self.spec_width() && src_pos.1 + blit_size.1
            <= self.spec_height()
    }

    pub fn blit_rect(
        &self,
        src_pos: (u32, u32),
        dst_pos: (u32, u32),
        blit_size: (u32, u32),
        handle: XlibHandle,
    ) -> (r: Result<BlitCommand, BlitError>)
        requires
            src_pos.0 <= i32::MAX as u32,
            src_pos.1 <= i32::MAX as u32,
            dst_pos.0 <= i32::MAX as u32,
            dst_pos.1 <= i32::MAX as u32,
        ensures
            r is Ok <==> self.spec_rect_in_bounds(src_pos, blit_size),
            !self.spec_rect_in_bounds(src_pos, blit_size) ==> r == Err::<BlitCommand, BlitError>(
                BlitError::OutOfBounds,
            ),
            r matches Ok(cmd) ==> cmd == (BlitCommand {
                display: handle.display,
                drawable: handle.window,
                gc: self.spec_context().gc,
                src_x: src_pos.0 as i32,
                src_y: src_pos.1 as i32,
                dst_x: dst_pos.0 as i32,
                dst_y: dst_pos.1 as i32,
                width: blit_size.0,
                height: blit_size.1,
            }),
    {
        let in_bounds = src_pos.0 as u64 + blit_size.0 as u64 <= self.width as u64 && src_pos.1
            as u64 + blit_size.1 as u64 <= self.height as u64;
        if !in_bounds {
            return Err(BlitError::OutOfBounds);
        }
        Ok(
            BlitCommand {
                display: handle.display,
                drawable: handle.window,
                gc: self.context.gc,
                src_x: src_pos.0 as i32,
                src_y: src_pos.1 as i32,
                dst_x: dst_pos.0 as i32,
                dst_y: dst_pos.1 as i32,
                width: blit_size.0,
                height: blit_size.1,
            },
        )
    }
}

/// Relies on rayon's `par_chunks(stride).rev().map(..).collect()`: an
/// indexed parallel iterator collects to the very sequence its sequential
/// counterpart yields, so the result holds the `stride`-byte chunks of
/// `data`, last chunk first, each copied into an owned vector.
#[verifier::external_body]
fn par_chunks_rev(data: &Vec<u8>, stride: usize) -> (r: Vec<Vec<u8>>)
    requires
        0 < stride,
        data@.len() as int % (stride as int) == 0,
    ensures
        r@.len() == data@.len() as int / (stride as int),
        forall|i: int|
            0 <= i < r@.len() ==> (#[trigger] r@[i])@ == data@.subrange(
                (r@.len() - 1 - i) * (stride as int),
                (r@.len() - 1 - i) * (stride as int) + (stride as int),
            ),
{
    data.par_chunks(stride).rev().map(|chunk: &[u8]| chunk.to_vec()).collect()
}

/// Relies on rayon's `par_chunks_mut(stride).rev().zip(rows).for_each(..)`:
/// the reversed chunk sequence is paired with `rows` index by index across
/// the worker pool, and each chunk is overwritten with its paired row.
#[verifier::external_body]
fn par_write_chunks_rev(data: &mut Vec<u8>, stride: usize, rows: &Vec<Vec<u8>>)
    requires
        0 < stride,
        old(data)@.len() as int % (stride as int) == 0,
        rows@.len() == old(data)@.len() as int / (stride as int),
        forall|i: int| 0 <= i < rows@.len() ==> (#[trigger] rows@[i])@.len() == stride,
    ensures
        final(data)@.len() == old(data)@.len(),
        forall|i: int|
            0 <= i < rows@.len() ==> final(data)@.subrange(
                (rows@.len() - 1 - i) * (stride as int),
                (rows@.len() - 1 - i) * (stride as int) + (stride as int),
            ) == (#[trigger] rows@[i])@,
{
    data.par_chunks_mut(stride).rev().zip(rows.par_iter()).for_each(
        |(chunk, row): (&mut [u8], &Vec<u8>)| {
            chunk.copy_from_slice(row);
        },
    );
}

impl PixelBuffer {
    /// The rows in visual order, as `rows` yields them, but gathered
    /// across the worker pool. Byte-identical to `rows`.
    pub fn par_rows(&self) -> (r: Vec<Vec<u8>>)
        requires
            self.wf(),
        ensures
            self.spec_row_len() == 0 ==> r@.len() == 0,
            self.spec_row_len() > 0 ==> r@.len() == self.spec_height() && forall|n: int|
                0 <= n < r@.len() ==> (#[trigger] r@[n])@ == self.spec_row(n),
    {
        let rl = self.row_len();
        if rl == 0 {
            return Vec::new();
        }
        proof {
            lemma_whole_rows(self.spec_height() as int, self.spec_row_len());
        }
        let r = par_chunks_rev(&self.buf, rl);
        r
    }

    /// Overwrite every row, as `rows_mut` does, but across the worker
    /// pool: row `n` becomes `rows[n]`. Byte-identical outcome to
    /// `rows_mut` for the same `rows`.
    pub fn par_rows_mut(&mut self, rows: &Vec<Vec<u8>>)
        requires
            old(self).wf(),
            rows@.len() == old(self).spec_height(),
            forall|n: int|
                0 <= n < rows@.len() ==> (#[trigger] rows@[n])@.len() == old(
                    self,
                ).spec_row_len(),
        ensures
            final(self).wf(),
            final(self).spec_same_shape(*old(self)),
            forall|n: int|
                0 <= n < rows@.len() ==> final(self).spec_row(n) == (#[trigger] rows@[n])@,
            final(self).spec_bytes() == spec_write_rows(
                old(self).spec_bytes(),
                old(self).spec_row_len(),
                rows@.map_values(|v: Vec<u8>| v@),
            ),
    {
        let rl = self.row_len();
        if rl == 0 {
            proof {
                assert forall|n: int| 0 <= n < rows@.len() implies self.spec_row(n)
                    == (#[trigger] rows@[n])@ by {
                    assert(self.spec_row(n) =~= rows@[n]@);
                }
            }
            return ;
        }
        proof {
            lemma_whole_rows(self.spec_height() as int, self.spec_row_len());
        }
        par_write_chunks_rev(&mut self.buf, rl, rows);
        proof {
            let h = self.spec_height() as int;
            let rlen = old(self).spec_row_len();
            let rs = rows@.map_values(|v: Vec<u8>| v@);
            lemma_write_rows_agree(old(self).spec_bytes(), self.spec_bytes(), h, rlen, rs);
        }
    }
}

} // verus!
