//! Reading the emulated screen into a [`TerminalBuffer`].
use vstd::prelude::*;

use crate::buffer::{captured, captured_row, TerminalBuffer};
use crate::emulator::{screen_of, Emulator};

verus! {

/// Query the maximum scrollback available without disturbing the viewport: the
/// emulator is left as it was found.
pub fn query_max_scrollback(emulator: &mut Emulator) -> (max: usize)
    ensures
        *final(emulator) == *old(emulator),
        max == screen_of(*old(emulator)).history.len(),
{
    let saved: usize = emulator.scrollback();
    emulator.set_scrollback(usize::MAX);
    let max: usize = emulator.scrollback();
    emulator.set_scrollback(saved);
    max
}

/// The cells in view on one row, left to right.
fn extract_row(emulator: &Emulator, row: u16, cols: u16) -> (cells: Vec<vt100::Cell>)
    requires
        cols == screen_of(*emulator).cols,
    ensures
        cells@ == captured_row(screen_of(*emulator), row as int),
{
    let ghost line = captured_row(screen_of(*emulator), row as int);
    let mut cells: Vec<vt100::Cell> = Vec::new();
    let mut col: u16 = 0;
    while col < cols
        invariant
            col <= cols,
            cols == screen_of(*emulator).cols,
            line == captured_row(screen_of(*emulator), row as int),
            cells@ == if col <= line.len() {
                line.take(col as int)
            } else {
                line
            },
        decreases cols - col,
    {
        match emulator.cell(row, col) {
            Some(cell) => {
                cells.push(cell);
            },
            None => {},
        }
        col = col + 1;
    }
    cells
}

/// Extract visible cells from the emulator at the current scrollback position.
pub fn extract_buffer(
    emulator: &Emulator,
    scroll_offset: usize,
    total_scrollback: usize,
) -> (buffer: TerminalBuffer)
    ensures
        buffer@ == captured(screen_of(*emulator), scroll_offset, total_scrollback),
        buffer.cursor_row == screen_of(*emulator).cursor_row,
        buffer.cursor_col == screen_of(*emulator).cursor_col,
        buffer.cursor_visible == !screen_of(*emulator).cursor_hidden,
        buffer.cols == screen_of(*emulator).cols,
        buffer.rows_count == screen_of(*emulator).rows,
        buffer.rows@.len() == screen_of(*emulator).rows,
        buffer.scroll_offset == scroll_offset,
        buffer.total_scrollback == total_scrollback,
        buffer.selection is None,
        // The lines are those in view, where each is as wide as the screen.
        ({
            let screen = screen_of(*emulator);
            &&& screen.grid.len() == screen.rows
            &&& screen.offset <= screen.history.len()
            &&& forall|i: int|
                0 <= i < screen.grid.len() ==> (#[trigger] screen.grid[i]).len() == screen.cols
            &&& forall|i: int|
                0 <= i < screen.history.len() ==> (#[trigger] screen.history[i]).len()
                    == screen.cols
        }) ==> forall|row: int|
            #![trigger buffer.rows@[row]]
            0 <= row < buffer.rows@.len() ==> {
                let screen = screen_of(*emulator);
                let line = screen.history.len() - screen.offset + row;
                buffer.rows@[row]@ == if line < screen.history.len() {
                    screen.history[line]
                } else {
                    screen.grid[line - screen.history.len()]
                }
            },
{
    let (rows, cols) = emulator.size();
    let mut rows_vec: Vec<Vec<vt100::Cell>> = Vec::new();
    let mut row: u16 = 0;
    while row < rows
        invariant
            row <= rows,
            cols == screen_of(*emulator).cols,
            rows_vec.len() == row,
            forall|i: int|
                0 <= i < row ==> (#[trigger] rows_vec[i])@ == captured_row(
                    screen_of(*emulator),
                    i,
                ),
        decreases rows - row,
    {
        let cells = extract_row(emulator, row, cols);
        rows_vec.push(cells);
        row = row + 1;
    }
    let (cursor_row, cursor_col) = emulator.cursor_position();
    let buffer = TerminalBuffer {
        rows: rows_vec,
        cursor_row: cursor_row as usize,
        cursor_col: cursor_col as usize,
        cols: cols as usize,
        rows_count: rows as usize,
        selection: None,
        scroll_offset,
        total_scrollback,
        cursor_visible: !emulator.hide_cursor(),
    };
    assert(buffer@.rows =~= captured(
        screen_of(*emulator),
        scroll_offset,
        total_scrollback,
    ).rows);
    buffer
}

} // verus!
