//! The size of a terminal, as the library and as the kernel write it.
use vstd::prelude::*;

verus! {

/// The size of the visible display area of a pty.
#[derive(Clone, Copy, Debug, PartialEq, Eq, Structural)]
pub struct PtySize {
    /// Lines of text.
    pub rows: u16,
    /// Columns of text.
    pub cols: u16,
    pub pixel_width: u16,
    pub pixel_height: u16,
}

/// The record that the window size requests of the kernel read and write.
#[derive(Clone, Copy, Debug, PartialEq, Eq, Structural)]
pub struct Winsize {
    pub ws_row: u16,
    pub ws_col: u16,
    pub ws_xpixel: u16,
    pub ws_ypixel: u16,
}

/// The kernel's record of a size.
pub open spec fn winsize_of(size: PtySize) -> Winsize {
    Winsize {
        ws_row: size.rows,
        ws_col: size.cols,
        ws_xpixel: size.pixel_width,
        ws_ypixel: size.pixel_height,
    }
}

/// The size in a record of the kernel.
pub open spec fn size_of(ws: Winsize) -> PtySize {
    PtySize {
        rows: ws.ws_row,
        cols: ws.ws_col,
        pixel_width: ws.ws_xpixel,
        pixel_height: ws.ws_ypixel,
    }
}

/// Calls `portable_pty::PtySize::default`: 24 rows of 80 columns, with the size in
/// pixels left at zero.
#[verifier::external_body]
fn default_size() -> (size: PtySize)
    ensures
        size.rows == 24,
        size.cols == 80,
        size.pixel_width == 0,
        size.pixel_height == 0,
{
    let size = portable_pty::PtySize::default();
    PtySize {
        rows: size.rows,
        cols: size.cols,
        pixel_width: size.pixel_width,
        pixel_height: size.pixel_height,
    }
}

impl Default for PtySize {
    /// The size that a pty is opened with.
    fn default() -> (size: PtySize)
        ensures
            size == (PtySize { rows: 24, cols: 80, pixel_width: 0, pixel_height: 0 }),
    {
        default_size()
    }
}

} // verus!
