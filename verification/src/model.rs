//! The mathematical model of a text that is being edited: its lines, cursor, selection, yanked
//! text and history, and what each editing operation makes of them.
//!
//! Places count rows and characters from zero. A place may lie behind the last character of its
//! line.

use crate::chars::{kind_of, InnerWordKind};
use crate::find::{first_where, last_where, least};
use crate::key::{Input, Key};
use vstd::prelude::*;

verus! {

/// How the cursor moves.
#[derive(Clone, Copy, Debug, PartialEq, Eq, Structural)]
pub enum Motion {
    Forward,
    Back,
    Up,
    Down,
    Head,
    End,
    Top,
    Bottom,
    WordForward,
    WordEnd,
    WordBack,
    /// To a row and a column, or as near to them as the text allows.
    Jump(u16, u16),
}

/// How the view scrolls.
#[derive(Clone, Copy, Debug, PartialEq, Eq, Structural)]
pub enum Scroll {
    /// By rows, down where positive.
    Rows(i16),
    PageDown,
    PageUp,
    HalfPageDown,
    HalfPageUp,
}

/// How long lines are broken on the screen.
pub enum Wrap {
    Off,
    Word,
    Glyph,
    WordOrGlyph,
}

/// What decides, beside the text itself, at which column of the screen a character is shown.
pub struct Layout {
    pub wrap: Wrap,
    pub tab_len: int,
    pub hard_tab: bool,
    pub mask: Option<char>,
    /// The width of the area that the text was last drawn in.
    pub width: int,
    pub line_numbers: bool,
}

/// The part of the text that is on the screen, as it was last drawn or scrolled to.
pub struct Viewport {
    pub row: int,
    pub col: int,
    pub width: int,
    pub height: int,
}

/// The text that was cut or copied last: a piece of a line, or the pieces of several lines.
pub enum Yank {
    Piece(Seq<char>),
    Chunk(Seq<Seq<char>>),
}

/// A change of the text, with the places that undoing it and redoing it put the cursor at.
pub struct Change {
    pub before: Seq<Seq<char>>,
    pub from: (int, int),
    pub after: Seq<Seq<char>>,
    pub to: (int, int),
}

/// The changes that are remembered, at most `limit` of them. The first `done` of them have been
/// made, the others have been undone.
pub struct History {
    pub changes: Seq<Change>,
    pub done: int,
    pub limit: int,
}

/// A text that is being edited.
pub struct TextState {
    pub lines: Seq<Seq<char>>,
    pub cursor: (int, int),
    /// Where the selection was started; it reaches to the cursor.
    pub anchor: Option<(int, int)>,
    pub yank: Yank,
    pub history: History,
    pub layout: Layout,
    pub viewport: Viewport,
}

/// The place is in the text.
pub open spec fn holds(lines: Seq<Seq<char>>, place: (int, int)) -> bool {
    &&& 0 <= place.0 < lines.len()
    &&& 0 <= place.1 <= lines[place.0].len()
}

/// `a` comes before `b` in the text.
pub open spec fn precedes(a: (int, int), b: (int, int)) -> bool {
    a.0 < b.0 || (a.0 == b.0 && a.1 < b.1)
}

/// The place of the text that is nearest to `place`: on the last line where there are too few,
/// at the end of the line where that is too short.
pub open spec fn nearest(lines: Seq<Seq<char>>, place: (int, int)) -> (int, int) {
    let row = least(place.0, lines.len() - 1);
    (row, least(place.1, lines[row].len() as int))
}

/// The text without what is between `start` and `end`. An `end` on the row behind the last line
/// is the end of the text.
pub open spec fn without(
    lines: Seq<Seq<char>>,
    start: (int, int),
    end: (int, int),
) -> Seq<Seq<char>> {
    let head = lines[start.0].take(start.1);
    if end.0 < lines.len() {
        lines.take(start.0).push(head + lines[end.0].skip(end.1)) + lines.skip(end.0 + 1)
    } else {
        lines.take(start.0).push(head)
    }
}

/// What is between `start` and `end`, line by line.
pub open spec fn between(
    lines: Seq<Seq<char>>,
    start: (int, int),
    end: (int, int),
) -> Seq<Seq<char>> {
    let first = lines[start.0].skip(start.1);
    if end.0 == start.0 {
        seq![lines[start.0].subrange(start.1, end.1)]
    } else if end.0 < lines.len() {
        (seq![first] + lines.subrange(start.0 + 1, end.0)).push(lines[end.0].take(end.1))
    } else {
        seq![first] + lines.skip(start.0 + 1)
    }
}

/// The text with `pieces` put in at `place`, a line break between one piece and the next.
pub open spec fn with(
    lines: Seq<Seq<char>>,
    place: (int, int),
    pieces: Seq<Seq<char>>,
) -> Seq<Seq<char>> {
    let head = lines[place.0].take(place.1);
    let tail = lines[place.0].skip(place.1);
    if pieces.len() == 1 {
        lines.update(place.0, head + pieces[0] + tail)
    } else {
        lines.take(place.0).push(head + pieces[0]) + pieces.subrange(1, pieces.len() - 1).push(
            pieces.last() + tail,
        ) + lines.skip(place.0 + 1)
    }
}

/// The place behind `pieces` that were put in at `place`.
pub open spec fn behind(place: (int, int), pieces: Seq<Seq<char>>) -> (int, int) {
    if pieces.len() == 1 {
        (place.0, place.1 + pieces[0].len())
    } else {
        (place.0 + pieces.len() - 1, pieces.last().len() as int)
    }
}

/// The place `count` characters behind `place`, where a line break counts as one. The row behind
/// the last line where the text ends before that.
pub open spec fn advanced(lines: Seq<Seq<char>>, place: (int, int), count: int) -> (int, int)
    decreases lines.len() - place.0,
{
    if place.0 >= lines.len() {
        (lines.len() as int, 0)
    } else {
        let left = lines[place.0].len() - place.1;
        if count <= left {
            (place.0, place.1 + count)
        } else {
            advanced(lines, (place.0 + 1, 0), count - left - 1)
        }
    }
}

/// A line without the carriage return at its end, where it has one.
pub open spec fn chomped(line: Seq<char>) -> Seq<char> {
    if line.len() > 0 && line.last() == '\r' {
        line.drop_last()
    } else {
        line
    }
}

/// A text, split at its line feeds.
pub open spec fn split(text: Seq<char>) -> Seq<Seq<char>>
    decreases text.len(),
{
    if text.len() == 0 {
        seq![Seq::empty()]
    } else {
        let lines = split(text.drop_last());
        if text.last() == '\n' {
            lines.push(Seq::empty())
        } else {
            lines.drop_last().push(lines.last().push(text.last()))
        }
    }
}

/// The lines of a text, which a line feed ends, with or without a carriage return before it.
pub open spec fn lines_of(text: Seq<char>) -> Seq<Seq<char>> {
    split(text).map_values(|line: Seq<char>| chomped(line))
}

/// Lines as one text, a line feed between one line and the next.
pub open spec fn joined(lines: Seq<Seq<char>>) -> Seq<char>
    decreases lines.len(),
{
    if lines.len() == 0 {
        Seq::empty()
    } else if lines.len() == 1 {
        lines[0]
    } else {
        joined(lines.drop_last()) + seq!['\n'] + lines.last()
    }
}

impl Yank {
    /// What the lines `pieces` are yanked as.
    pub open spec fn of(pieces: Seq<Seq<char>>) -> Yank {
        if pieces.len() == 1 {
            Yank::Piece(pieces[0])
        } else {
            Yank::Chunk(pieces)
        }
    }

    /// The yanked text, line by line.
    pub open spec fn pieces(self) -> Seq<Seq<char>> {
        match self {
            Yank::Piece(text) => seq![text],
            Yank::Chunk(lines) => lines,
        }
    }

    /// The yanked text.
    pub open spec fn text(self) -> Seq<char> {
        joined(self.pieces())
    }

    /// The yanked text can be pasted: a piece holds no line feed, a chunk has two lines or more.
    pub open spec fn pastes(self) -> bool {
        match self {
            Yank::Piece(text) => !text.contains('\n'),
            Yank::Chunk(lines) => lines.len() > 1,
        }
    }
}

impl History {
    /// The history after one more change. What had been undone is forgotten, and so is the oldest
    /// change where there is no room.
    pub open spec fn recorded(self, change: Change) -> History {
        if self.limit == 0 {
            self
        } else {
            let full = self.changes.len() == self.limit;
            let kept = if full {
                self.changes.skip(1)
            } else {
                self.changes
            };
            let done = if full && self.done > 0 {
                self.done - 1
            } else {
                self.done
            };
            History { changes: kept.take(done).push(change), done: done + 1, limit: self.limit }
        }
    }

    /// The changes can be undone and redone: each left a text.
    pub open spec fn wf(self) -> bool {
        &&& 0 <= self.done <= self.changes.len() <= self.limit
        &&& forall|i: int|
            0 <= i < self.changes.len() ==> {
                &&& (#[trigger] self.changes[i]).before.len() > 0
                &&& self.changes[i].after.len() > 0
                &&& 0 <= self.changes[i].from.0 && 0 <= self.changes[i].from.1
                &&& 0 <= self.changes[i].to.0 && 0 <= self.changes[i].to.1
            }
    }
}

impl Layout {
    /// Each line of the text is one line of the screen.
    pub open spec fn unwrapped(self) -> bool {
        self.wrap is Off || self.width == 0
    }

    /// The character takes a column of the screen or more. Where a mask is shown in place of each
    /// character, the mask counts.
    pub open spec fn shows(self, c: char) -> bool {
        match self.mask {
            Some(mask) => columns(mask) > 0,
            None => c == '\t' || columns(c) > 0,
        }
    }

    /// How many columns of the screen the character takes from column `at` of the screen on. A tab
    /// reaches to the next multiple of the tab length.
    pub open spec fn width_at(self, c: char, at: int) -> int {
        match self.mask {
            Some(mask) => columns(mask),
            None => if c == '\t' {
                if self.tab_len > 1 {
                    self.tab_len - at % self.tab_len
                } else {
                    1
                }
            } else {
                columns(c)
            },
        }
    }

    /// The column of the screen at which column `col` of an unbroken line is shown.
    pub open spec fn screen_col(self, line: Seq<char>, col: int) -> int
        decreases col,
    {
        if col <= 0 {
            0
        } else {
            let at = self.screen_col(line, col - 1);
            at + self.width_at(line[col - 1], at)
        }
    }

    /// Column `col` of an unbroken line is shown at column `at` of the screen or behind it, or its
    /// character reaches beyond that, or the line ends there.
    pub open spec fn covers(self, line: Seq<char>, at: int, col: int) -> bool {
        ||| col == line.len()
        ||| self.screen_col(line, col) >= at
        ||| self.screen_col(line, col + 1) > at
    }

    /// The first column of an unbroken line that covers column `at` of the screen.
    pub open spec fn column_at(self, line: Seq<char>, at: int) -> int {
        first_where(|col: int| self.covers(line, at, col), 0, line.len() as int + 1)->0
    }

    /// The column of an unbroken line that is nearest to column `at` of the screen.
    pub open spec fn column_near(self, line: Seq<char>, at: int) -> int {
        self.column_at(line, least(at, self.screen_col(line, line.len() as int)))
    }

    /// A character from `start` up to `end` takes a column of the screen or more.
    pub open spec fn shows_between(self, line: Seq<char>, start: int, end: int) -> bool {
        exists|i: int| start <= i < end && self.shows(#[trigger] line[i])
    }

    /// A motion forward from column `col` is known to lead to the next column: the character there
    /// takes a column of the screen or, where the line is not broken, one behind it does.
    pub open spec fn steps_forward(self, line: Seq<char>, col: int) -> bool {
        &&& 0 <= col < line.len()
        &&& self.shows(line[col]) || (self.unwrapped() && self.shows_between(
            line,
            col,
            line.len() as int,
        ))
    }

    /// A motion back from column `col` is known to lead to the column before it: the two characters
    /// before it take a column of the screen or, where the line is not broken, one before it does.
    pub open spec fn steps_back(self, line: Seq<char>, col: int) -> bool {
        &&& 0 < col <= line.len()
        &&& (self.shows(line[col - 1]) && (col == 1 || self.shows(line[col - 2]))) || (
        self.unwrapped() && self.shows_between(line, 0, col))
    }
}

/// The printable ASCII characters.
pub open spec fn is_printable(c: char) -> bool {
    ' ' <= c <= '~'
}

/// Every character is printable ASCII.
pub open spec fn all_printable(line: Seq<char>) -> bool {
    forall|i: int| 0 <= i < line.len() ==> is_printable(#[trigger] line[i])
}

/// How many columns of the screen `ratatui_textarea` gives to a character other than a tab: those
/// that `ratatui` draws it in, none for a control character.
pub uninterp spec fn cell_width(c: char) -> nat;

/// How many columns of the screen a character other than a tab takes: one where it is printable
/// ASCII.
pub open spec fn columns(c: char) -> int {
    if is_printable(c) {
        1
    } else {
        cell_width(c) as int
    }
}

/// How many columns the characters of a text take together.
pub open spec fn columns_of(text: Seq<char>) -> int
    decreases text.len(),
{
    if text.len() == 0 {
        0
    } else {
        columns_of(text.drop_last()) + columns(text.last())
    }
}

/// A paragraph begins at row `row`, behind an empty line.
pub open spec fn paragraph_begins(lines: Seq<Seq<char>>, row: int) -> bool {
    0 < row < lines.len() && lines[row - 1].len() == 0 && lines[row].len() > 0
}

/// A number of sixteen bits, with its highest bit taken as the sign.
pub open spec fn signed(n: int) -> int {
    if n < 0x8000 {
        n
    } else {
        n - 0x1_0000
    }
}

/// Half of `n`, rounded towards zero.
pub open spec fn halved(n: int) -> int {
    if n >= 0 {
        n / 2
    } else {
        -((-n) / 2)
    }
}

/// `n`, moved into the range from `low` to `high`.
pub open spec fn clamped(n: int, low: int, high: int) -> int {
    if n < low {
        low
    } else if n > high {
        high
    } else {
        n
    }
}

impl Viewport {
    /// By how many rows the view is to move, down where positive.
    pub open spec fn rows(self, scroll: Scroll) -> int {
        match scroll {
            Scroll::Rows(rows) => rows as int,
            Scroll::PageDown => signed(self.height),
            Scroll::PageUp => -signed(self.height),
            Scroll::HalfPageDown => halved(signed(self.height)),
            Scroll::HalfPageUp => halved(-signed(self.height)),
        }
    }

    /// The distance is a number of sixteen bits with a sign, and so is its negative.
    pub open spec fn scrolls(self, scroll: Scroll) -> bool {
        match scroll {
            Scroll::Rows(rows) => rows != i16::MIN,
            Scroll::HalfPageDown => true,
            _ => self.height != 0x8000,
        }
    }

    /// The view, scrolled.
    pub open spec fn scrolled(self, scroll: Scroll) -> Viewport {
        Viewport { row: clamped(self.row + self.rows(scroll), 0, 0xffff), ..self }
    }

    /// The position between `top` and the end of the `size` positions from there that is nearest
    /// to `n`.
    pub open spec fn within(n: int, top: int, size: int) -> int {
        let end = least(top + size, 0xffff) - 1;
        clamped(
            n,
            top,
            if end > top {
                end
            } else {
                top
            },
        )
    }
}

/// A word begins at `i`, behind a character of another kind.
pub open spec fn word_begins(line: Seq<char>, i: int) -> bool {
    &&& 0 <= i < line.len()
    &&& kind_of(line[i]) != InnerWordKind::Space
    &&& i == 0 || kind_of(line[i - 1]) != kind_of(line[i])
}

/// A word has its last character at `i`.
pub open spec fn word_ends(line: Seq<char>, i: int) -> bool {
    &&& 0 <= i < line.len()
    &&& kind_of(line[i]) != InnerWordKind::Space
    &&& i + 1 == line.len() || kind_of(line[i + 1]) != kind_of(line[i])
}

/// The first end of a word at column `col` of row `row` or behind it, in the rows below too. The
/// end of the text where there is none.
pub open spec fn next_word_end(lines: Seq<Seq<char>>, row: int, col: int) -> (int, int)
    decreases lines.len() - row,
{
    match first_where(|i: int| word_ends(lines[row], i), col, lines[row].len() as int) {
        Some(end) => (row, end),
        None => if row + 1 < lines.len() {
            next_word_end(lines, row + 1, 0)
        } else {
            (row, lines[row].len() as int)
        },
    }
}

/// Where `TextArea::move_cursor` of `ratatui_textarea` puts the cursor when it moves by one column
/// or one line of the screen, where the breaks of the lines decide. `None` where it stays.
pub uninterp spec fn screen_move(
    lines: Seq<Seq<char>>,
    cursor: (int, int),
    layout: Layout,
    motion: Motion,
) -> Option<(int, int)>;

/// Where `TextArea::scroll` of `ratatui_textarea` puts the cursor to keep it in the view, where the
/// breaks of the lines decide.
pub uninterp spec fn kept_in_view(
    lines: Seq<Seq<char>>,
    cursor: (int, int),
    layout: Layout,
    viewport: Viewport,
) -> (int, int);

impl TextState {
    /// A text that nothing has been done to: the cursor at its start, no wrapping, and up to fifty
    /// changes to be remembered. A text without lines has one that is empty.
    pub open spec fn fresh(lines: Seq<Seq<char>>) -> TextState {
        TextState {
            lines: if lines.len() == 0 {
                seq![Seq::empty()]
            } else {
                lines
            },
            cursor: (0, 0),
            anchor: None,
            yank: Yank::Piece(Seq::empty()),
            history: History { changes: Seq::empty(), done: 0, limit: 50 },
            layout: Layout {
                wrap: Wrap::Off,
                tab_len: 4,
                hard_tab: false,
                mask: None,
                width: 0,
                line_numbers: false,
            },
            viewport: Viewport { row: 0, col: 0, width: 0, height: 0 },
        }
    }

    /// The cursor and the selection are in the text, and the history can be walked.
    pub open spec fn wf(self) -> bool {
        &&& holds(self.lines, self.cursor)
        &&& self.anchor is Some ==> holds(self.lines, self.anchor->0)
        &&& self.history.wf()
    }

    /// The line that the cursor is on.
    pub open spec fn line(self) -> Seq<char> {
        self.lines[self.cursor.0]
    }

    /// The end of the line that the cursor is on.
    pub open spec fn line_end(self) -> (int, int) {
        (self.cursor.0, self.line().len() as int)
    }

    /// What is selected, from its start to its end. `None` where nothing is, or no character.
    pub open spec fn selection(self) -> Option<((int, int), (int, int))> {
        match self.anchor {
            Some(anchor) => if precedes(anchor, self.cursor) {
                Some((anchor, self.cursor))
            } else if precedes(self.cursor, anchor) {
                Some((self.cursor, anchor))
            } else {
                None
            },
            None => None,
        }
    }

    /// With the selection started anew at the cursor.
    pub open spec fn anchored(self) -> TextState {
        TextState { anchor: Some(self.cursor), ..self }
    }

    /// With nothing selected.
    pub open spec fn unanchored(self) -> TextState {
        TextState { anchor: None, ..self }
    }

    /// With `lines` as the text and the cursor at `to`, recorded as one change.
    pub open spec fn changed(
        self,
        lines: Seq<Seq<char>>,
        from: (int, int),
        to: (int, int),
    ) -> TextState {
        let change = Change { before: self.lines, from, after: lines, to };
        TextState { lines, cursor: to, history: self.history.recorded(change), ..self }
    }

    /// Without what is selected, and with nothing selected.
    pub open spec fn erased(self) -> TextState {
        match self.selection() {
            Some((start, end)) => self.unanchored().changed(
                without(self.lines, start, end),
                end,
                start,
            ),
            None => self.unanchored(),
        }
    }

    /// With what is selected yanked, and with nothing selected.
    pub open spec fn copied(self) -> TextState {
        match self.selection() {
            Some((start, end)) => TextState {
                anchor: None,
                yank: Yank::of(between(self.lines, start, end)),
                ..self
            },
            None => self.unanchored(),
        }
    }

    /// With what is selected yanked and taken out of the text.
    pub open spec fn cut(self) -> TextState {
        TextState { yank: self.copied().yank, ..self.erased() }
    }

    /// With `pieces` put in at the cursor.
    pub open spec fn inserted(self, pieces: Seq<Seq<char>>) -> TextState {
        if pieces.len() == 1 && pieces[0].len() == 0 {
            self
        } else {
            self.changed(
                with(self.lines, self.cursor, pieces),
                self.cursor,
                behind(self.cursor, pieces),
            )
        }
    }

    /// With the yanked text in place of what is selected.
    pub open spec fn pasted(self) -> TextState {
        self.erased().inserted(self.yank.pieces())
    }

    /// With `text` in place of what is selected.
    pub open spec fn typed(self, text: Seq<char>) -> TextState {
        self.erased().inserted(lines_of(text))
    }

    /// With `text` as the yanked text.
    pub open spec fn yanking(self, text: Seq<char>) -> TextState {
        TextState { yank: Yank::of(lines_of(text)), ..self }
    }

    /// With a line break in place of what is selected.
    pub open spec fn broken(self) -> TextState {
        self.erased().inserted(seq![Seq::empty(), Seq::empty()])
    }

    /// Without what is selected or, where nothing is, without the next `count` characters, which
    /// are yanked.
    pub open spec fn deleted(self, count: int) -> TextState {
        let end = advanced(self.lines, self.cursor, count);
        if self.selection() is Some || count == 0 {
            self.erased()
        } else {
            let pieces = between(self.lines, self.cursor, end);
            let yank = if end.0 == self.cursor.0 {
                Yank::Piece(pieces[0])
            } else {
                Yank::Chunk(pieces)
            };
            TextState {
                yank,
                ..self.unanchored().changed(
                    without(self.lines, self.cursor, end),
                    end,
                    self.cursor,
                )
            }
        }
    }

    /// Without what is selected or, where nothing is, without the rest of the line, which is
    /// yanked. At the end of a line without the line break, which is not.
    pub open spec fn deleted_to_end(self) -> TextState {
        if self.selection() is Some {
            self.erased()
        } else if self.cursor.1 < self.line().len() {
            TextState {
                yank: Yank::Piece(self.line().skip(self.cursor.1)),
                ..self.unanchored().changed(
                    without(self.lines, self.cursor, self.line_end()),
                    self.line_end(),
                    self.cursor,
                )
            }
        } else if self.cursor.0 + 1 < self.lines.len() {
            let next = (self.cursor.0 + 1, 0);
            self.unanchored().changed(without(self.lines, self.cursor, next), next, self.cursor)
        } else {
            self.unanchored()
        }
    }

    /// Without what is selected or, where nothing is, without the character or the line break
    /// before the cursor.
    pub open spec fn backspaced(self) -> TextState {
        let (row, col) = self.cursor;
        if self.selection() is Some {
            self.erased()
        } else if col > 0 {
            let before = (row, col - 1);
            self.unanchored().changed(
                without(self.lines, before, self.cursor),
                self.cursor,
                before,
            )
        } else if row > 0 {
            let before = (row - 1, self.lines[row - 1].len() as int);
            self.unanchored().changed(
                without(self.lines, before, self.cursor),
                self.cursor,
                before,
            )
        } else {
            self.unanchored()
        }
    }

    /// As it was before the last change that has not been undone.
    pub open spec fn undone(self) -> TextState {
        if self.history.done == 0 {
            self
        } else {
            let done = self.history.done - 1;
            let change = self.history.changes[done];
            TextState {
                lines: change.before,
                cursor: nearest(change.before, change.from),
                anchor: None,
                history: History { done, ..self.history },
                ..self
            }
        }
    }

    /// As the change that was undone last had left it.
    pub open spec fn redone(self) -> TextState {
        if self.history.done == self.history.changes.len() {
            self
        } else {
            let change = self.history.changes[self.history.done];
            TextState {
                lines: change.after,
                cursor: nearest(change.after, change.to),
                anchor: None,
                history: History { done: self.history.done + 1, ..self.history },
                ..self
            }
        }
    }

    /// Where `motion` puts the cursor, `None` where it stays. `by_screen` is where a motion by one
    /// column or one line of the screen does so, where the breaks of the lines decide.
    pub open spec fn target(
        self,
        motion: Motion,
        by_screen: Option<(int, int)>,
    ) -> Option<(int, int)> {
        let (row, col) = self.cursor;
        let line = self.line();
        let last = self.lines.len() - 1;
        let unwrapped = self.layout.unwrapped();
        match motion {
            Motion::Forward => if self.layout.steps_forward(line, col) {
                Some((row, col + 1))
            } else if col < line.len() && !unwrapped {
                by_screen
            } else if row < last {
                Some((row + 1, 0))
            } else {
                None
            },
            Motion::Back => if self.layout.steps_back(line, col) {
                Some((row, col - 1))
            } else if col > 0 && !unwrapped {
                by_screen
            } else if row > 0 {
                let above = self.lines[row - 1];
                if above.len() == 0 || self.layout.shows(above.last()) {
                    Some((row - 1, above.len() as int))
                } else if unwrapped {
                    let end = self.layout.screen_col(above, above.len() as int);
                    Some((row - 1, self.layout.column_at(above, end)))
                } else {
                    by_screen
                }
            } else {
                None
            },
            Motion::Up => if !unwrapped {
                by_screen
            } else if row > 0 {
                let at = self.layout.screen_col(line, col);
                Some((row - 1, self.layout.column_near(self.lines[row - 1], at)))
            } else {
                None
            },
            Motion::Down => if !unwrapped {
                by_screen
            } else if row < last {
                let at = self.layout.screen_col(line, col);
                Some((row + 1, self.layout.column_near(self.lines[row + 1], at)))
            } else {
                None
            },
            Motion::Head => Some((row, 0)),
            Motion::End => Some(self.line_end()),
            Motion::Top => Some(nearest(self.lines, (0, col))),
            Motion::Bottom => Some(nearest(self.lines, (last, col))),
            Motion::Jump(to_row, to_col) => Some(
                nearest(self.lines, (to_row as int, to_col as int)),
            ),
            Motion::WordForward => match first_where(
                |i: int| word_begins(line, i),
                col + 1,
                self.line().len() as int,
            ) {
                Some(begin) => Some((row, begin)),
                None => if row < last {
                    Some((row + 1, 0))
                } else {
                    Some(self.line_end())
                },
            },
            Motion::WordBack => match last_where(|i: int| word_begins(line, i), 0, col) {
                Some(begin) => Some((row, begin)),
                None => if row > 0 {
                    Some((row - 1, self.lines[row - 1].len() as int))
                } else {
                    Some((row, 0))
                },
            },
            Motion::WordEnd => Some(next_word_end(self.lines, row, col + 1)),
        }
    }

    /// With the cursor moved. A selection reaches to where it has moved to.
    pub open spec fn moved(self, motion: Motion) -> TextState {
        let by_screen = screen_move(self.lines, self.cursor, self.layout, motion);
        self.moved_to(self.target(motion, by_screen))
    }

    /// With the cursor at `place`, where there is one.
    pub open spec fn moved_to(self, place: Option<(int, int)>) -> TextState {
        match place {
            Some(place) => TextState { cursor: place, ..self },
            None => self,
        }
    }

    /// Where scrolling to `viewport` puts the cursor. `by_screen` is where it does so where the
    /// breaks of the lines decide.
    pub open spec fn seen(self, viewport: Viewport, by_screen: (int, int)) -> (int, int) {
        let row = least(
            Viewport::within(self.cursor.0, viewport.row, viewport.height),
            self.lines.len() - 1,
        );
        let at = Viewport::within(
            self.layout.screen_col(self.line(), self.cursor.1),
            viewport.col,
            viewport.width,
        );
        if self.layout.unwrapped() {
            (row, self.layout.column_near(self.lines[row], at))
        } else {
            by_screen
        }
    }

    /// With the view scrolled, and the cursor moved where it would leave the view.
    pub open spec fn scrolled(self, scroll: Scroll) -> TextState {
        let viewport = self.viewport.scrolled(scroll);
        let by_screen = kept_in_view(self.lines, self.cursor, self.layout, viewport);
        self.scrolled_to(viewport, by_screen)
    }

    /// With the view at `viewport`, and the cursor moved where it would leave the view.
    pub open spec fn scrolled_to(self, viewport: Viewport, by_screen: (int, int)) -> TextState {
        TextState { viewport, cursor: self.seen(viewport, by_screen), ..self }
    }

    /// Without what is selected or, where nothing is, without the character or the line break that
    /// a motion forward passes over.
    pub open spec fn deleted_ahead(self) -> TextState {
        let ahead = self.unanchored().moved(Motion::Forward);
        if self.selection() is Some {
            self.erased()
        } else if ahead.cursor == self.cursor {
            self.unanchored()
        } else {
            ahead.backspaced()
        }
    }

    /// With the cursor moved.
    pub open spec fn stepped(self, motion: Motion, shift: bool) -> TextState {
        let by_screen = screen_move(self.lines, self.cursor, self.layout, motion);
        self.stepped_to(self.target(motion, by_screen), shift)
    }

    /// With the cursor at `place`, where there is one. With Shift a selection reaches to there, one
    /// that is started where there is none; without Shift a selection is ended.
    pub open spec fn stepped_to(self, place: Option<(int, int)>, shift: bool) -> TextState {
        match place {
            Some(place) => TextState {
                cursor: place,
                anchor: if !shift {
                    None
                } else if self.anchor is None {
                    Some(self.cursor)
                } else {
                    self.anchor
                },
                ..self
            },
            None => self,
        }
    }

    /// Where the next paragraph begins, in the cursor's column. The last line where there is none.
    pub open spec fn paragraph_ahead(self) -> Option<(int, int)> {
        let lines = self.lines;
        let row = match first_where(
            |row: int| paragraph_begins(lines, row),
            self.cursor.0 + 1,
            lines.len() as int,
        ) {
            Some(row) => row,
            None => lines.len() - 1,
        };
        Some(nearest(lines, (row, self.cursor.1)))
    }

    /// Where the last paragraph above begins, in the cursor's column. The first line where there is
    /// none, and nowhere on the first line.
    pub open spec fn paragraph_behind(self) -> Option<(int, int)> {
        let lines = self.lines;
        if self.cursor.0 == 0 {
            None
        } else {
            let row = match last_where(|row: int| paragraph_begins(lines, row), 0, self.cursor.0) {
                Some(row) => row,
                None => 0,
            };
            Some(nearest(lines, (row, self.cursor.1)))
        }
    }

    /// With a tab in place of what is selected, or with blanks up to the next multiple of the tab
    /// length. With nothing where the tab length is zero.
    pub open spec fn indented(self) -> TextState {
        let free = self.erased();
        let tab_len = self.layout.tab_len;
        let before = columns_of(free.line().take(free.cursor.1));
        if tab_len == 0 {
            free
        } else if self.layout.hard_tab {
            free.inserted(seq![seq!['\t']])
        } else {
            let blanks = Seq::new((tab_len - before % tab_len) as nat, |i: int| ' ');
            free.inserted(seq![blanks])
        }
    }

    /// With the view scrolled, and the cursor moved where it would leave the view. With Shift a
    /// selection reaches to the cursor, one that is started where there is none; without Shift a
    /// selection is ended.
    pub open spec fn panned(self, scroll: Scroll, shift: bool) -> TextState {
        TextState {
            anchor: if !shift {
                None
            } else if self.anchor is None {
                Some(self.cursor)
            } else {
                self.anchor
            },
            ..self.scrolled(scroll)
        }
    }

    /// Without the part of the line from `start` up to `end`, which is yanked, and with nothing
    /// selected.
    pub open spec fn deleted_part(self, start: int, end: int) -> TextState {
        let row = self.cursor.0;
        TextState {
            yank: Yank::Piece(self.line().subrange(start, end)),
            ..self.unanchored().changed(
                without(self.lines, (row, start), (row, end)),
                (row, end),
                (row, start),
            )
        }
    }

    /// Without what is selected or, where nothing is, without the part of the line before the
    /// cursor, which is yanked. At the start of a line without the line break before it.
    pub open spec fn deleted_to_head(self) -> TextState {
        if self.selection() is Some || self.cursor.1 == 0 {
            self.backspaced()
        } else {
            self.deleted_part(0, self.cursor.1)
        }
    }

    /// Without what is selected or, where nothing is, without the part of the line from the start
    /// of a word to the cursor, which is yanked. At the start of a line without the line break
    /// before it.
    pub open spec fn deleted_word_back(self) -> TextState {
        let line = self.line();
        if self.selection() is Some || self.cursor.1 == 0 {
            self.backspaced()
        } else {
            match last_where(|i: int| word_begins(line, i), 0, self.cursor.1) {
                Some(begin) => self.deleted_part(begin, self.cursor.1),
                None => self.deleted_part(0, self.cursor.1),
            }
        }
    }

    /// Without what is selected or, where nothing is, without the part of the line from the cursor
    /// to the end of a word, which is yanked. At the end of a line without the line break.
    pub open spec fn deleted_word_ahead(self) -> TextState {
        let line = self.line();
        let col = self.cursor.1;
        if self.selection() is Some || col == line.len() {
            self.deleted_to_end()
        } else {
            match first_where(|i: int| word_ends(line, i), col, line.len() as int) {
                Some(last) => self.deleted_part(col, last + 1),
                None => self.deleted_part(col, line.len() as int),
            }
        }
    }

    /// With a key press handled by the default key mappings. To be revealed where it matters what a
    /// key does.
    #[verifier::opaque]
    pub open spec fn keyed(self, input: Input) -> TextState {
        let shift = input.shift;
        match input.key {
            Key::Enter => self.broken(),
            Key::Home => self.stepped(Motion::Head, shift),
            Key::End => self.stepped(Motion::End, shift),
            Key::PageDown => self.panned(Scroll::PageDown, shift),
            Key::PageUp => self.panned(Scroll::PageUp, shift),
            Key::MouseScrollDown => self.panned(Scroll::Rows(1), shift),
            Key::MouseScrollUp => self.panned(Scroll::Rows((-1) as i16), shift),
            Key::Copy => self.copied(),
            Key::Cut => self.cut(),
            Key::Paste => self.pasted(),
            _ => match (input.ctrl, input.alt) {
                (false, false) => self.bare_keyed(input.key, shift),
                (true, false) => self.ctrl_keyed(input.key, shift),
                (false, true) => self.alt_keyed(input.key, shift),
                (true, true) => self.ctrl_alt_keyed(input.key, shift),
            },
        }
    }

    /// With a key, pressed without Ctrl and Alt, handled by the default key mappings.
    pub open spec fn bare_keyed(self, key: Key, shift: bool) -> TextState {
        match key {
            Key::Char(c) => if c == '\n' || c == '\r' {
                self.broken()
            } else {
                self.erased().inserted(seq![seq![c]])
            },
            Key::Tab => self.indented(),
            Key::Backspace => self.backspaced(),
            Key::Delete => self.deleted_ahead(),
            Key::Left => self.stepped(Motion::Back, shift),
            Key::Right => self.stepped(Motion::Forward, shift),
            Key::Up => self.stepped(Motion::Up, shift),
            Key::Down => self.stepped(Motion::Down, shift),
            _ => self,
        }
    }

    /// With a key, pressed with Ctrl and without Alt, handled by the default key mappings.
    pub open spec fn ctrl_keyed(self, key: Key, shift: bool) -> TextState {
        match key {
            Key::Char('m') => self.broken(),
            Key::Char('h') => self.backspaced(),
            Key::Char('d') => self.deleted_ahead(),
            Key::Char('k') => self.deleted_to_end(),
            Key::Char('j') => self.deleted_to_head(),
            Key::Char('w') => self.deleted_word_back(),
            Key::Char('n') => self.stepped(Motion::Down, shift),
            Key::Char('p') => self.stepped(Motion::Up, shift),
            Key::Char('f') => self.stepped(Motion::Forward, shift),
            Key::Char('b') => self.stepped(Motion::Back, shift),
            Key::Char('a') => self.stepped(Motion::Head, shift),
            Key::Char('e') => self.stepped(Motion::End, shift),
            Key::Char('u') => self.undone(),
            Key::Char('r') => self.redone(),
            Key::Char('y') => self.pasted(),
            Key::Char('x') => self.cut(),
            Key::Char('c') => self.copied(),
            Key::Char('v') => self.panned(Scroll::PageDown, shift),
            Key::Left => self.stepped(Motion::WordBack, shift),
            Key::Right => self.stepped(Motion::WordForward, shift),
            Key::Up => self.stepped_to(self.paragraph_behind(), shift),
            Key::Down => self.stepped_to(self.paragraph_ahead(), shift),
            _ => self,
        }
    }

    /// With a key, pressed with Alt and without Ctrl, handled by the default key mappings.
    pub open spec fn alt_keyed(self, key: Key, shift: bool) -> TextState {
        match key {
            Key::Char('h') | Key::Backspace => self.deleted_word_back(),
            Key::Char('d') | Key::Delete => self.deleted_word_ahead(),
            Key::Char('<') => self.stepped(Motion::Top, shift),
            Key::Char('>') => self.stepped(Motion::Bottom, shift),
            Key::Char('f') => self.stepped(Motion::WordForward, shift),
            Key::Char('b') => self.stepped(Motion::WordBack, shift),
            Key::Char('v') => self.panned(Scroll::PageUp, shift),
            Key::Char('[') | Key::Char('p') => self.stepped_to(self.paragraph_behind(), shift),
            Key::Char(']') | Key::Char('n') => self.stepped_to(self.paragraph_ahead(), shift),
            _ => self,
        }
    }

    /// With a key, pressed with Ctrl and Alt, handled by the default key mappings.
    pub open spec fn ctrl_alt_keyed(self, key: Key, shift: bool) -> TextState {
        match key {
            Key::Left | Key::Char('b') => self.stepped(Motion::Head, shift),
            Key::Right | Key::Char('f') => self.stepped(Motion::End, shift),
            Key::Up | Key::Char('p') => self.stepped(Motion::Top, shift),
            Key::Down | Key::Char('n') => self.stepped(Motion::Bottom, shift),
            _ => self,
        }
    }

    /// The default key mappings can handle the key press: the yanked text can be pasted where
    /// that is what it asks for, and the view scrolled.
    pub open spec fn takes_key(self, input: Input) -> bool {
        let ctrl = input.ctrl && !input.alt;
        let alt = input.alt && !input.ctrl;
        &&& input.key == Key::Paste || (input.key == Key::Char('y') && ctrl) ==> self.yank.pastes()
        &&& input.key == Key::PageDown || (input.key == Key::Char('v') && ctrl)
            ==> self.viewport.scrolls(Scroll::PageDown)
        &&& input.key == Key::PageUp || (input.key == Key::Char('v') && alt)
            ==> self.viewport.scrolls(Scroll::PageUp)
    }
}

} // verus!
