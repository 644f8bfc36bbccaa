//! The snapshot of the screen that a terminal widget draws from.
use vstd::prelude::*;

use crate::emulator::ScreenView;

verus! {

/// A range of selected text. Each end remembers how far the view was scrolled
/// back when it was set, so that it can be found again in a moved view.
#[derive(Clone, Copy, Debug, PartialEq, Eq, Structural)]
pub struct TerminalSelection {
    pub start_row: usize,
    pub start_col: usize,
    pub start_scroll: usize,
    pub end_row: usize,
    pub end_col: usize,
    pub end_scroll: usize,
}

/// The cells in view and what is drawn over them.
pub struct TerminalBuffer {
    pub rows: Vec<Vec<vt100::Cell>>,
    pub cursor_row: usize,
    pub cursor_col: usize,
    pub cols: usize,
    pub rows_count: usize,
    pub selection: Option<TerminalSelection>,
    /// How far the user has scrolled back, in lines.
    pub scroll_offset: usize,
    /// How far back one can scroll, in lines.
    pub total_scrollback: usize,
    pub cursor_visible: bool,
}

/// The contents of a [`TerminalBuffer`].
#[verifier::ext_equal]
pub struct BufferView {
    pub rows: Seq<Seq<vt100::Cell>>,
    pub cursor_row: usize,
    pub cursor_col: usize,
    pub cols: usize,
    pub rows_count: usize,
    pub selection: Option<TerminalSelection>,
    pub scroll_offset: usize,
    pub total_scrollback: usize,
    pub cursor_visible: bool,
}

impl View for TerminalBuffer {
    type V = BufferView;

    open spec fn view(&self) -> BufferView {
        BufferView {
            rows: self.rows@.map_values(|row: Vec<vt100::Cell>| row@),
            cursor_row: self.cursor_row,
            cursor_col: self.cursor_col,
            cols: self.cols,
            rows_count: self.rows_count,
            selection: self.selection,
            scroll_offset: self.scroll_offset,
            total_scrollback: self.total_scrollback,
            cursor_visible: self.cursor_visible,
        }
    }
}

/// A buffer that shows nothing yet.
pub open spec fn empty_buffer() -> BufferView {
    BufferView {
        rows: Seq::empty(),
        cursor_row: 0,
        cursor_col: 0,
        cols: 0,
        rows_count: 0,
        selection: None,
        scroll_offset: 0,
        total_scrollback: 0,
        cursor_visible: false,
    }
}

/// `a + b`, or the largest `usize` where the sum is larger.
pub open spec fn saturating_sum(a: usize, b: usize) -> usize {
    if a + b > usize::MAX {
        usize::MAX
    } else {
        (a + b) as usize
    }
}

/// The selection after `lines` more lines have scrolled into the history: both ends
/// are that much further back.
pub open spec fn shifted(selection: TerminalSelection, lines: usize) -> TerminalSelection {
    TerminalSelection {
        start_scroll: saturating_sum(selection.start_scroll, lines),
        end_scroll: saturating_sum(selection.end_scroll, lines),
        ..selection
    }
}

/// How many lines the history has gained. A history that shrank has gained none.
pub open spec fn growth(before: usize, after: usize) -> usize {
    if after > before {
        (after - before) as usize
    } else {
        0
    }
}

/// One line of a snapshot: the cells in view on that row, no more than the screen
/// has columns.
pub open spec fn captured_row(screen: ScreenView, row: int) -> Seq<vt100::Cell> {
    if row < screen.visible().len() {
        let line = screen.visible()[row];
        if line.len() <= screen.cols {
            line
        } else {
            line.take(screen.cols as int)
        }
    } else {
        Seq::empty()
    }
}

/// The snapshot of what `screen` has in view, without a selection.
pub open spec fn captured(
    screen: ScreenView,
    scroll_offset: usize,
    total_scrollback: usize,
) -> BufferView {
    BufferView {
        rows: Seq::new(screen.rows as nat, |row: int| captured_row(screen, row)),
        cursor_row: screen.cursor_row as usize,
        cursor_col: screen.cursor_col as usize,
        cols: screen.cols as usize,
        rows_count: screen.rows as usize,
        selection: None,
        scroll_offset,
        total_scrollback,
        cursor_visible: !screen.cursor_hidden,
    }
}

/// The buffer that takes the place of `buffer` when `screen` has changed: the view
/// stays scrolled back as far as the user had it, and the selection moves with the
/// lines that it covers.
pub open spec fn refreshed(screen: ScreenView, buffer: BufferView) -> BufferView {
    let total = screen.history.len() as usize;
    BufferView {
        selection: match buffer.selection {
            Some(selection) => Some(
                shifted(selection, growth(buffer.total_scrollback, total)),
            ),
            None => None,
        },
        ..captured(screen.at(buffer.scroll_offset as nat), buffer.scroll_offset, total)
    }
}

impl Default for TerminalBuffer {
    fn default() -> (buffer: TerminalBuffer)
        ensures
            buffer@ == empty_buffer(),
            buffer.rows@.len() == 0,
            buffer.cursor_row == 0,
            buffer.cursor_col == 0,
            buffer.cols == 0,
            buffer.rows_count == 0,
            buffer.selection is None,
            buffer.scroll_offset == 0,
            buffer.total_scrollback == 0,
            !buffer.cursor_visible,
    {
        TerminalBuffer {
            rows: Vec::new(),
            cursor_row: 0,
            cursor_col: 0,
            cols: 0,
            rows_count: 0,
            selection: None,
            scroll_offset: 0,
            total_scrollback: 0,
            cursor_visible: false,
        }
    }
}

impl TerminalSelection {
    /// Moves both ends `lines` lines further back.
    pub fn shift(&mut self, lines: usize)
        ensures
            *final(self) == shifted(*old(self), lines),
            final(self).start_row == old(self).start_row,
            final(self).start_col == old(self).start_col,
            final(self).end_row == old(self).end_row,
            final(self).end_col == old(self).end_col,
            old(self).start_scroll + lines <= usize::MAX ==> final(self).start_scroll == old(
                self,
            ).start_scroll + lines,
            old(self).start_scroll + lines > usize::MAX ==> final(self).start_scroll == usize::MAX,
            old(self).end_scroll + lines <= usize::MAX ==> final(self).end_scroll == old(
                self,
            ).end_scroll + lines,
            old(self).end_scroll + lines > usize::MAX ==> final(self).end_scroll == usize::MAX,
    {
        self.start_scroll = self.start_scroll.saturating_add(lines);
        self.end_scroll = self.end_scroll.saturating_add(lines);
    }
}

} // verus!
