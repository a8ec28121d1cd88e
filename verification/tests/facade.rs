//! Tests of the pixel buffer facade: construction, row addressing,
//! orientation, and blit validation.

use pixel_buffer::buffer::PixelBuffer;
use pixel_buffer::error::{BlitError, PixelBufferCreationError};
use pixel_buffer::format::PixelBufferFormatType;
use pixel_buffer::handle::{WaylandHandle, WindowHandle, XcbHandle, XlibHandle};
use pixel_buffer::xlib::{XlibContext, XlibSession, XlibVisualInfo};

const DISPLAY: usize = 0x7000;
const WINDOW: u64 = 42;

fn context() -> XlibContext {
    XlibContext { display: DISPLAY, screen: 0, depth: 24, gc: 0x9000 }
}

fn visual_for(format: PixelBufferFormatType) -> XlibVisualInfo {
    let (red_mask, green_mask, blue_mask) = match format {
        PixelBufferFormatType::BGR | PixelBufferFormatType::BGRA => {
            (0xFF0000, 0x00FF00, 0x0000FF)
        }
        PixelBufferFormatType::RGB | PixelBufferFormatType::RGBA => {
            (0x0000FF, 0x00FF00, 0xFF0000)
        }
    };
    XlibVisualInfo {
        visual: 0x5000,
        visual_id: 33,
        screen: 0,
        depth: 24,
        red_mask,
        green_mask,
        blue_mask,
        bits_per_rgb: 8,
    }
}

fn session_for(format: PixelBufferFormatType) -> XlibSession {
    XlibSession { context: context(), visuals: vec![visual_for(format)] }
}

fn xlib_handle() -> WindowHandle {
    WindowHandle::Xlib(XlibHandle { window: WINDOW, display: DISPLAY })
}

fn buffer(width: u32, height: u32, format: PixelBufferFormatType) -> PixelBuffer {
    let session = session_for(format);
    PixelBuffer::new(width, height, format, xlib_handle(), Some(&session)).unwrap()
}

#[test]
fn new_succeeds_with_exact_size() {
    let b = buffer(4, 3, PixelBufferFormatType::RGBA);
    assert_eq!(b.bytes().len(), 4 * 3 * 4);
    assert_eq!(b.width(), 4);
    assert_eq!(b.height(), 3);
    assert_eq!(b.bytes_per_pixel(), 4);
    assert_eq!(b.bits_per_pixel(), 32);
    assert_eq!(b.row_len(), 16);
    assert!(b.bytes().iter().all(|&x| x == 0));

    let b3 = buffer(5, 2, PixelBufferFormatType::BGR);
    assert_eq!(b3.bytes().len(), 5 * 2 * 3);
    assert_eq!(b3.bytes_per_pixel(), 3);
    assert_eq!(b3.bits_per_pixel(), 24);
    assert_eq!(b3.row_len(), 15);
}

#[test]
fn new_rejects_format_without_visual() {
    // The session lists only an RGBA-ordered visual; ask for BGRA.
    let session = session_for(PixelBufferFormatType::RGBA);
    let r = PixelBuffer::new(2, 2, PixelBufferFormatType::BGRA, xlib_handle(), Some(&session));
    assert_eq!(r.err(), Some(PixelBufferCreationError::UnsupportedFormat));

    // An empty visual list matches nothing.
    let empty = XlibSession { context: context(), visuals: vec![] };
    let r = PixelBuffer::new(2, 2, PixelBufferFormatType::RGBA, xlib_handle(), Some(&empty));
    assert_eq!(r.err(), Some(PixelBufferCreationError::UnsupportedFormat));
}

#[test]
fn new_rejects_foreign_handles() {
    let session = session_for(PixelBufferFormatType::RGBA);
    let xcb = WindowHandle::Xcb(XcbHandle { window: 7, connection: DISPLAY });
    let r = PixelBuffer::new(2, 2, PixelBufferFormatType::RGBA, xcb, Some(&session));
    assert_eq!(r.err(), Some(PixelBufferCreationError::UnsupportedHandle));

    let wl = WindowHandle::Wayland(WaylandHandle { surface: 1, display: 2 });
    let r = PixelBuffer::new(2, 2, PixelBufferFormatType::RGBA, wl, None);
    assert_eq!(r.err(), Some(PixelBufferCreationError::UnsupportedHandle));
}

#[test]
fn new_reports_unopened_display() {
    let r = PixelBuffer::new(2, 2, PixelBufferFormatType::RGBA, xlib_handle(), None);
    assert_eq!(r.err(), Some(PixelBufferCreationError::BackendInitFailed));
}

#[test]
fn row_in_range_and_out_of_range() {
    let b = buffer(4, 3, PixelBufferFormatType::RGBA);
    for n in 0..3u32 {
        let row = b.row(n).expect("row inside the buffer");
        assert_eq!(row.len(), 4 * 4);
    }
    assert!(b.row(3).is_none());
    assert!(b.row(100).is_none());
}

#[test]
fn row_roundtrip() {
    let mut b = buffer(4, 3, PixelBufferFormatType::RGBA);
    let pattern: Vec<u8> = (0..16u8).collect();
    b.row_mut(1, &pattern).expect("row inside the buffer");
    assert_eq!(b.row(1).unwrap(), pattern);
    // The other rows still read as zeros.
    assert!(b.row(0).unwrap().iter().all(|&x| x == 0));
    assert!(b.row(2).unwrap().iter().all(|&x| x == 0));
}

#[test]
fn row_mut_out_of_range_changes_nothing() {
    let mut b = buffer(4, 3, PixelBufferFormatType::RGBA);
    let pattern: Vec<u8> = vec![9; 16];
    assert!(b.row_mut(3, &pattern).is_none());
    assert!(b.bytes().iter().all(|&x| x == 0));
}

#[test]
fn orientation_is_bottom_to_top() {
    let mut b = buffer(2, 2, PixelBufferFormatType::RGBA);
    let top: Vec<u8> = vec![0xAA; 8];
    let bottom: Vec<u8> = vec![0xBB; 8];
    b.row_mut(0, &top).unwrap();
    b.row_mut(1, &bottom).unwrap();
    let bytes = b.bytes();
    // Visual row height-1 is the first physical segment, visual row 0 the last.
    assert_eq!(&bytes[0..8], &bottom[..]);
    assert_eq!(&bytes[8..16], &top[..]);
}

#[test]
fn rows_yields_every_row_in_order() {
    let mut b = buffer(2, 3, PixelBufferFormatType::RGB);
    for n in 0..3u32 {
        let row: Vec<u8> = vec![n as u8 + 1; 6];
        b.row_mut(n, &row).unwrap();
    }
    let rows = b.rows();
    assert_eq!(rows.len(), 3);
    for n in 0..3u32 {
        assert_eq!(rows[n as usize], b.row(n).unwrap());
        assert_eq!(rows[n as usize], vec![n as u8 + 1; 6]);
    }
}

#[test]
fn bytes_mut_replaces_everything() {
    let mut b = buffer(2, 2, PixelBufferFormatType::RGB);
    let data: Vec<u8> = (0..12u8).collect();
    b.bytes_mut(&data);
    assert_eq!(b.bytes(), &data);
}

#[test]
fn blit_rect_rejects_out_of_bounds() {
    let b = buffer(4, 4, PixelBufferFormatType::RGBA);
    let r = b.blit_rect((2, 2), (0, 0), (3, 3), xlib_handle());
    assert_eq!(r.err(), Some(BlitError::OutOfBounds));
    let r = b.blit_rect((0, 0), (0, 0), (5, 1), xlib_handle());
    assert_eq!(r.err(), Some(BlitError::OutOfBounds));
    // The full rectangle is fine.
    assert!(b.blit_rect((0, 0), (0, 0), (4, 4), xlib_handle()).is_ok());
}

#[test]
fn blit_rejects_mismatched_handle() {
    let b = buffer(4, 4, PixelBufferFormatType::RGBA);
    let wl = WindowHandle::Wayland(WaylandHandle { surface: 1, display: 2 });
    assert_eq!(b.blit(wl).err(), Some(BlitError::HandleMismatch));
    let xcb = WindowHandle::Xcb(XcbHandle { window: 7, connection: DISPLAY });
    assert_eq!(b.blit(xcb).err(), Some(BlitError::HandleMismatch));
}

#[test]
fn blit_plans_the_native_copy() {
    let b = buffer(4, 4, PixelBufferFormatType::RGBA);
    let cmd = b.blit(xlib_handle()).unwrap();
    assert_eq!(cmd.display, DISPLAY);
    assert_eq!(cmd.drawable, WINDOW);
    assert_eq!(cmd.gc, 0x9000);
    assert_eq!((cmd.src_x, cmd.src_y, cmd.dst_x, cmd.dst_y), (0, 0, 0, 0));
    assert_eq!((cmd.width, cmd.height), (4, 4));

    let cmd = b.blit_rect((1, 2), (3, 0), (2, 1), xlib_handle()).unwrap();
    assert_eq!((cmd.src_x, cmd.src_y, cmd.dst_x, cmd.dst_y), (1, 2, 3, 0));
    assert_eq!((cmd.width, cmd.height), (2, 1));
}

#[test]
fn scenario_fill_and_blit() {
    let mut b = buffer(4, 4, PixelBufferFormatType::RGBA);
    let red_row: Vec<u8> = [255u8, 0, 0, 255].iter().copied().cycle().take(16).collect();
    let rows: Vec<Vec<u8>> = vec![red_row.clone(); 4];
    b.rows_mut(&rows);
    for chunk in b.bytes().chunks(4) {
        assert_eq!(chunk, &[255, 0, 0, 255]);
    }
    assert!(b.blit(xlib_handle()).is_ok());

    // A zero-width buffer is fine: no bytes, and no rows to yield.
    let b0 = buffer(0, 4, PixelBufferFormatType::RGBA);
    assert_eq!(b0.bytes().len(), 0);
    assert_eq!(b0.rows().len(), 0);
}
