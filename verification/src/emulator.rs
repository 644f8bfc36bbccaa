//! The screen emulator: `vt100` keeps the character grid, the lines that have
//! scrolled off it, and the cursor. This module names what the emulator holds
//! and states what each call does to it.
use vstd::prelude::*;

use crate::stream::inside_char;

verus! {

/// Rows of the screen that every terminal starts with.
pub const SCREEN_ROWS: u16 = 24;

/// Columns of the screen that every terminal starts with.
pub const SCREEN_COLS: u16 = 80;

/// The widest screen on which a tab stop past the cursor still fits in a `u16`.
pub const MAX_COLS: u16 = 65527;

/// A `vt100::Parser`: the emulated screen and the state of the byte stream that
/// draws on it. The parser is out of reach from elsewhere, so its size stays the
/// one that it was made with.
#[verifier::external_body]
pub struct Emulator {
    parser: vt100::Parser,
}

/// One character cell, carried through as `vt100` hands it out.
#[verifier::external_type_specification]
#[verifier::external_body]
pub struct ExCell(vt100::Cell);

/// What the screen in use holds.
///
/// An emulator has a main and an alternate screen. This is the one that is shown
/// at the moment; the alternate screen keeps no history.
#[verifier::ext_equal]
pub struct ScreenView {
    pub rows: u16,
    pub cols: u16,
    /// Lines that have scrolled off the top, oldest first.
    pub history: Seq<Seq<vt100::Cell>>,
    /// The lines that output is drawn on, top to bottom.
    pub grid: Seq<Seq<vt100::Cell>>,
    /// How many lines of the history are scrolled into view.
    pub offset: nat,
    pub cursor_row: u16,
    pub cursor_col: u16,
    pub cursor_hidden: bool,
}

impl ScreenView {
    /// The geometry that every screen keeps. The cursor stands one column past
    /// the last while a line that is full has not wrapped yet.
    pub open spec fn sound(self) -> bool {
        &&& 2 <= self.rows
        &&& 3 <= self.cols <= MAX_COLS
        &&& self.grid.len() == self.rows
        &&& forall|i: int| 0 <= i < self.grid.len() ==> (#[trigger] self.grid[i]).len() == self.cols
        &&& forall|i: int|
            0 <= i < self.history.len() ==> (#[trigger] self.history[i]).len() == self.cols
        &&& self.offset <= self.history.len()
        &&& self.cursor_row < self.rows
        &&& self.cursor_col <= self.cols
    }

    /// The same screen with `lines` lines of history in view, or all of them
    /// where there are fewer.
    pub open spec fn at(self, lines: nat) -> ScreenView {
        ScreenView {
            offset: if lines <= self.history.len() {
                lines
            } else {
                self.history.len()
            },
            ..self
        }
    }

    /// The lines in view, top to bottom: the last `offset` lines of the history
    /// push the bottom of the grid out of sight.
    pub open spec fn visible(self) -> Seq<Seq<vt100::Cell>> {
        let scrolled_in = self.history.skip(self.history.len() - self.offset);
        if self.offset >= self.grid.len() {
            scrolled_in.take(self.grid.len() as int)
        } else {
            scrolled_in + self.grid.take(self.grid.len() - self.offset)
        }
    }

    /// The cell in view at `row` and `col`, if there is one.
    pub open spec fn cell(self, row: u16, col: u16) -> Option<vt100::Cell> {
        if row < self.visible().len() && col < self.visible()[row as int].len() {
            Some(self.visible()[row as int][col as int])
        } else {
            None
        }
    }
}

/// What the screen of an emulator holds.
pub uninterp spec fn screen_of(emulator: Emulator) -> ScreenView;

/// How many lines an emulator keeps at most after they scroll off the main screen.
pub uninterp spec fn scrollback_limit(emulator: Emulator) -> nat;

/// The emulator that `vt100::Parser::new` makes.
pub uninterp spec fn blank(rows: u16, cols: u16, scrollback_len: usize) -> Emulator;

/// The emulator after `vt100::Parser::process` has drawn `data`.
pub uninterp spec fn processed(emulator: Emulator, data: Seq<u8>) -> Emulator;

/// The bytes that an emulator has drawn so far.
pub uninterp spec fn seen(emulator: Emulator) -> Seq<u8>;

/// The last place at or before `at` where `data`, after the bytes in `before`, can be
/// cut without cutting a character.
pub open spec fn last_cut(before: Seq<u8>, data: Seq<u8>, at: int) -> int
    decreases at,
{
    if at <= 0 {
        0
    } else if !inside_char(before + data.take(at)) {
        at
    } else {
        last_cut(before, data, at - 1)
    }
}

pub proof fn lemma_last_cut_in_range(before: Seq<u8>, data: Seq<u8>, at: int)
    requires
        0 <= at,
    ensures
        0 <= last_cut(before, data, at) <= at,
    decreases at,
{
    if at > 0 {
        lemma_last_cut_in_range(before, data, at - 1);
    }
}

/// The emulator after it has drawn `data`, after the bytes in `before`, in the
/// smallest pieces that cut no character.
pub open spec fn drawn_by_char(emulator: Emulator, before: Seq<u8>, data: Seq<u8>) -> Emulator
    decreases data.len(),
{
    if data.len() == 0 {
        emulator
    } else {
        let cut = last_cut(before, data, data.len() - 1);
        proof {
            lemma_last_cut_in_range(before, data, data.len() - 1);
        }
        processed(drawn_by_char(emulator, before, data.take(cut)), data.skip(cut))
    }
}

/// The emulator after it has drawn `data`, after the bytes in `before`. Unless these
/// stop inside a character, it comes to the same in which chunks `data` is drawn, as
/// long as none of them does.
pub open spec fn drawn(emulator: Emulator, before: Seq<u8>, data: Seq<u8>) -> Emulator {
    if inside_char(before) {
        processed(emulator, data)
    } else {
        drawn_by_char(emulator, before, data)
    }
}

/// The emulator after `vt100::Screen::set_scrollback` with `lines`.
pub uninterp spec fn scrolled(emulator: Emulator, lines: nat) -> Emulator;

impl Emulator {
    /// Calls `vt100::Parser::new`: a screen without history, the cursor visible in
    /// its top left corner, that will keep at most `scrollback_len` lines.
    ///
    /// The sizes left out are those on which `vt100` subtracts below zero (no rows
    /// here; one row, or fewer columns than a character is wide, once it draws) or
    /// adds past the end of `u16` (a tab in the last columns of a wider screen). The
    /// widest character is U+17D8, which takes three columns.
    #[verifier::external_body]
    fn new(rows: u16, cols: u16, scrollback_len: usize) -> (emulator: Emulator)
        requires
            2 <= rows,
            3 <= cols <= MAX_COLS,
        ensures
            emulator == blank(rows, cols, scrollback_len),
            seen(emulator) == Seq::<u8>::empty(),
            scrollback_limit(emulator) == scrollback_len,
            screen_of(emulator).sound(),
            screen_of(emulator).rows == rows,
            screen_of(emulator).cols == cols,
            screen_of(emulator).history.len() == 0,
            screen_of(emulator).cursor_row == 0,
            screen_of(emulator).cursor_col == 0,
            !screen_of(emulator).cursor_hidden,
    {
        Emulator { parser: vt100::Parser::new(rows, cols, scrollback_len) }
    }

    /// The emulator of a new terminal: the starting size, with room for
    /// `scrollback_size` lines of history.
    pub fn with_scrollback(scrollback_size: usize) -> (emulator: Emulator)
        ensures
            emulator == blank(SCREEN_ROWS, SCREEN_COLS, scrollback_size),
            emulator == blank(24, 80, scrollback_size),
            screen_of(emulator).rows == 24,
            screen_of(emulator).cols == 80,
            seen(emulator) == Seq::<u8>::empty(),
            scrollback_limit(emulator) == scrollback_size,
            screen_of(emulator).sound(),
            screen_of(emulator).rows == SCREEN_ROWS,
            screen_of(emulator).cols == SCREEN_COLS,
            screen_of(emulator).history.len() == 0,
            screen_of(emulator).cursor_row == 0,
            screen_of(emulator).cursor_col == 0,
            !screen_of(emulator).cursor_hidden,
    {
        Emulator::new(SCREEN_ROWS, SCREEN_COLS, scrollback_size)
    }

    /// Calls `vt100::Parser::process`: the new state follows from the old one and
    /// the bytes alone, keeps the size and the limit of the history, and has a
    /// screen of sound geometry.
    ///
    /// `vt100` hands the bytes on to `vte`, which goes on at the start of a chunk where
    /// it stopped at the end of the last one. So bytes drawn in one go or in pieces come
    /// to the same, where neither the bytes before them nor a piece stops inside a
    /// character. Nothing is said of other cuts: `vte` may drop what follows a character
    /// that was cut.
    #[verifier::external_body]
    pub(crate) fn process(&mut self, data: &[u8])
        ensures
            *final(self) == processed(*old(self), data@),
            !inside_char(seen(*old(self))) ==> *final(self) == drawn_by_char(
                *old(self),
                seen(*old(self)),
                data@,
            ),
            seen(*final(self)) == seen(*old(self)) + data@,
            screen_of(*final(self)).sound(),
            screen_of(*final(self)).rows == screen_of(*old(self)).rows,
            screen_of(*final(self)).cols == screen_of(*old(self)).cols,
            scrollback_limit(*final(self)) == scrollback_limit(*old(self)),
            screen_of(*final(self)).history.len() <= scrollback_limit(*final(self)),
    {
        self.parser.process(data)
    }

    /// Calls `vt100::Screen::scrollback`: the number of lines of history in view,
    /// at most all of them. Scrolling to where the view is already changes nothing.
    #[verifier::external_body]
    pub(crate) fn scrollback(&self) -> (offset: usize)
        ensures
            offset == screen_of(*self).offset,
            offset <= screen_of(*self).history.len(),
            scrolled(*self, offset as nat) == *self,
    {
        self.parser.screen().scrollback()
    }

    /// Calls `vt100::Screen::set_scrollback`: only the number of lines in view
    /// changes, clamped to the history there is, so a later call overrides this one.
    /// The history is a deque in memory, whose length fits in a `usize`.
    #[verifier::external_body]
    pub(crate) fn set_scrollback(&mut self, lines: usize)
        ensures
            *final(self) == scrolled(*old(self), lines as nat),
            seen(*final(self)) == seen(*old(self)),
            screen_of(*final(self)) == screen_of(*old(self)).at(lines as nat),
            screen_of(*final(self)).history.len() <= usize::MAX,
            scrollback_limit(*final(self)) == scrollback_limit(*old(self)),
            forall|n: nat| #[trigger] scrolled(*final(self), n) == scrolled(*old(self), n),
    {
        self.parser.screen_mut().set_scrollback(lines)
    }

    /// Calls `vt100::Screen::size`: the rows and the columns of the screen.
    #[verifier::external_body]
    pub(crate) fn size(&self) -> (size: (u16, u16))
        ensures
            size == (screen_of(*self).rows, screen_of(*self).cols),
    {
        self.parser.screen().size()
    }

    /// Calls `vt100::Screen::cell` and clones what it finds: the cell in view at
    /// that place.
    #[verifier::external_body]
    pub(crate) fn cell(&self, row: u16, col: u16) -> (cell: Option<vt100::Cell>)
        ensures
            cell == screen_of(*self).cell(row, col),
    {
        self.parser.screen().cell(row, col).cloned()
    }

    /// Calls `vt100::Screen::cursor_position`: the row and the column of the cursor,
    /// counted from zero.
    #[verifier::external_body]
    pub(crate) fn cursor_position(&self) -> (position: (u16, u16))
        ensures
            position == (screen_of(*self).cursor_row, screen_of(*self).cursor_col),
    {
        self.parser.screen().cursor_position()
    }

    /// Calls `vt100::Screen::hide_cursor`: whether the cursor is hidden.
    #[verifier::external_body]
    pub(crate) fn hide_cursor(&self) -> (hidden: bool)
        ensures
            hidden == screen_of(*self).cursor_hidden,
    {
        self.parser.screen().hide_cursor()
    }
}

} // verus!
