//! Tests of the backend pieces: the parallel row paths, the context
//! cache, the visual negotiation, the status translation, and the two
//! alternate backends.

use pixel_buffer::buffer::PixelBuffer;
use pixel_buffer::error::{
    blit_outcome, classify_status, BlitError, NativeStatus, PixelBufferCreationError,
};
use pixel_buffer::format::PixelBufferFormatType;
use pixel_buffer::handle::{WaylandHandle, WindowHandle, XlibHandle};
use pixel_buffer::wayland::WaylandPixelBuffer;
use pixel_buffer::x11::XlibPixelBuffer;
use pixel_buffer::xlib::{find_visual, XlibContext, XlibSession, XlibVisualInfo};

const DISPLAY: usize = 0x7000;

fn context() -> XlibContext {
    XlibContext { display: DISPLAY, screen: 0, depth: 24, gc: 0x9000 }
}

fn visual_for(format: PixelBufferFormatType, visual_id: u64) -> XlibVisualInfo {
    let (red_mask, green_mask, blue_mask) = match format {
        PixelBufferFormatType::BGR | PixelBufferFormatType::BGRA => {
            (0xFF0000, 0x00FF00, 0x0000FF)
        }
        PixelBufferFormatType::RGB | PixelBufferFormatType::RGBA => {
            (0x0000FF, 0x00FF00, 0xFF0000)
        }
    };
    XlibVisualInfo {
        visual: 0x5000,
        visual_id,
        screen: 0,
        depth: 24,
        red_mask,
        green_mask,
        blue_mask,
        bits_per_rgb: 8,
    }
}

fn buffer(width: u32, height: u32) -> PixelBuffer {
    let format = PixelBufferFormatType::RGBA;
    let session = XlibSession { context: context(), visuals: vec![visual_for(format, 33)] };
    let handle = WindowHandle::Xlib(XlibHandle { window: 42, display: DISPLAY });
    PixelBuffer::new(width, height, format, handle, Some(&session)).unwrap()
}

/// A deterministic per-row transform: byte j of visual row n becomes a
/// value derived from (n, j).
fn transformed_rows(b: &PixelBuffer) -> Vec<Vec<u8>> {
    let height = b.height();
    let row_len = b.row_len();
    (0..height)
        .map(|n| (0..row_len).map(|j| (n as usize * 31 + j) as u8).collect())
        .collect()
}

fn parallel_matches_sequential(width: u32, height: u32) {
    let mut seq = buffer(width, height);
    let mut par = buffer(width, height);
    let rows = transformed_rows(&seq);
    seq.rows_mut(&rows);
    par.par_rows_mut(&rows);
    assert_eq!(seq.bytes(), par.bytes());
    // Reading back in parallel matches the sequential read too.
    let seq_rows = seq.rows();
    let par_rows = par.par_rows();
    assert_eq!(seq_rows, par_rows);
    assert_eq!(seq_rows.len(), height as usize * (if width == 0 { 0 } else { 1 }));
}

#[test]
fn parallel_rows_match_sequential_1x1() {
    parallel_matches_sequential(1, 1);
}

#[test]
fn parallel_rows_match_sequential_16x16() {
    parallel_matches_sequential(16, 16);
}

#[test]
fn parallel_rows_match_sequential_17x31() {
    parallel_matches_sequential(17, 31);
}

#[test]
fn parallel_read_really_flips() {
    let mut b = buffer(2, 2);
    let top: Vec<u8> = vec![0xAA; 8];
    let bottom: Vec<u8> = vec![0xBB; 8];
    b.row_mut(0, &top).unwrap();
    b.row_mut(1, &bottom).unwrap();
    let rows = b.par_rows();
    // Visual order: the topmost row first, though it sits last physically.
    assert_eq!(rows[0], top);
    assert_eq!(rows[1], bottom);
}

#[test]
fn context_cache_initializes_once() {
    let mut cache: Vec<XlibContext> = Vec::new();
    let first = context();
    let c = XlibContext::get(&mut cache, DISPLAY, Some(first)).unwrap();
    assert_eq!(c, first);
    assert_eq!(cache.len(), 1);

    // A second open of the same display never replaces the first.
    let other = XlibContext { display: DISPLAY, screen: 1, depth: 32, gc: 0x1234 };
    let c = XlibContext::get(&mut cache, DISPLAY, Some(other)).unwrap();
    assert_eq!(c, first);
    assert_eq!(cache.len(), 1);

    // A display that is neither cached nor freshly opened fails.
    let r = XlibContext::get(&mut cache, DISPLAY + 1, None);
    assert_eq!(r.err(), Some(PixelBufferCreationError::BackendInitFailed));
    assert_eq!(cache.len(), 1);

    // A distinct display gets its own entry.
    let second = XlibContext { display: DISPLAY + 1, screen: 0, depth: 24, gc: 0x9001 };
    let c = XlibContext::get(&mut cache, DISPLAY + 1, Some(second)).unwrap();
    assert_eq!(c, second);
    assert_eq!(cache.len(), 2);
}

#[test]
fn negotiation_takes_the_first_match() {
    let a = visual_for(PixelBufferFormatType::RGBA, 1);
    let b = visual_for(PixelBufferFormatType::RGBA, 2);
    let wrong = visual_for(PixelBufferFormatType::BGRA, 3);
    let visuals = vec![wrong, a, b];
    let found = find_visual(&visuals, &context(), PixelBufferFormatType::RGBA).unwrap();
    assert_eq!(found.visual_id, 1);
    // RGB asks for the same masks, so it negotiates the same visual.
    let found = find_visual(&visuals, &context(), PixelBufferFormatType::RGB).unwrap();
    assert_eq!(found.visual_id, 1);
    // A display with another depth matches nothing listed here.
    let deep = XlibContext { depth: 30, ..context() };
    let none = find_visual(&visuals, &deep, PixelBufferFormatType::RGBA);
    assert!(none.is_none());
}

#[test]
fn status_translation() {
    assert_eq!(blit_outcome(0), Ok(()));
    assert_eq!(blit_outcome(9), Err(BlitError::NativeBlitFailed(9)));
    assert_eq!(classify_status(0), NativeStatus::Success);
    assert_eq!(classify_status(2), NativeStatus::BadValue);
    assert_eq!(classify_status(8), NativeStatus::BadMatch);
    assert_eq!(classify_status(9), NativeStatus::BadDrawable);
    assert_eq!(classify_status(13), NativeStatus::BadGc);
    assert_eq!(classify_status(77), NativeStatus::Unknown);
}

#[test]
fn wayland_backend_is_unrealized() {
    let handle = WaylandHandle { surface: 1, display: 2 };
    let r = WaylandPixelBuffer::new(2, 2, PixelBufferFormatType::RGBA, handle);
    assert_eq!(r.err(), Some(PixelBufferCreationError::UnsupportedHandle));
}

#[test]
fn staged_backend_allocates_full_pixels() {
    let handle = XlibHandle { window: 42, display: DISPLAY };
    let b = XlibPixelBuffer::new(
        5,
        4,
        PixelBufferFormatType::RGBA,
        handle,
        0x6000,
        77,
        0x9000,
    )
    .unwrap();
    let rows = b.rows();
    assert_eq!(rows.len(), 4);
    for row in &rows {
        assert_eq!(row.len(), 5 * 4);
        assert!(row.iter().all(|&x| x == 0));
    }

    // No bytes at all when the width is zero: no rows to yield.
    let b0 = XlibPixelBuffer::new(
        0,
        4,
        PixelBufferFormatType::RGBA,
        handle,
        0x6000,
        77,
        0x9000,
    )
    .unwrap();
    assert_eq!(b0.rows().len(), 0);
}

#[test]
fn staged_backend_reports_failed_pixmap() {
    let handle = XlibHandle { window: 42, display: DISPLAY };
    // The bad-value sentinel marks a failed native pixmap allocation.
    let r = XlibPixelBuffer::new(5, 4, PixelBufferFormatType::RGBA, handle, 0x6000, 2, 0x9000);
    assert_eq!(r.err(), Some(PixelBufferCreationError::BackendInitFailed));
}

#[test]
fn staged_backend_plans_both_legs() {
    let handle = XlibHandle { window: 42, display: DISPLAY };
    let b = XlibPixelBuffer::new(
        5,
        4,
        PixelBufferFormatType::RGBA,
        handle,
        0x6000,
        77,
        0x9000,
    )
    .unwrap();
    let (put, copy) = b.blit(1, 2, 3, 0, Some(2), None);
    assert_eq!(put.display, DISPLAY);
    assert_eq!(put.drawable, 77);
    assert_eq!((put.src_x, put.src_y, put.dst_x, put.dst_y), (1, 2, 3, 0));
    assert_eq!((put.width, put.height), (2, 4));
    assert_eq!(copy.src_drawable, 77);
    assert_eq!(copy.dst_drawable, 42);
    assert_eq!((copy.width, copy.height), (2, 4));
    assert_eq!((copy.dst_x, copy.dst_y), (3, 0));
}

#[test]
fn staged_backend_rows_roundtrip() {
    let handle = XlibHandle { window: 42, display: DISPLAY };
    let mut b = XlibPixelBuffer::new(
        3,
        2,
        PixelBufferFormatType::RGB,
        handle,
        0x6000,
        77,
        0x9000,
    )
    .unwrap();
    // Two full pixel rows of 3 * 3 bytes, in top-to-bottom visual order.
    let rows = vec![
        (1..=9u8).collect::<Vec<u8>>(),
        (10..=18u8).collect::<Vec<u8>>(),
    ];
    b.rows_mut(&rows);
    assert_eq!(b.rows(), rows);
}
