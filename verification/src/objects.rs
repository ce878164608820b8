//! What the emulation does with a text beyond the operations of the text area itself: text
//! objects, WORD motions, numbers, and selections that include the character under the cursor.

use crate::chars::chars_of;
use crate::editor::Editor;
use crate::find::{
    find_big_word_start_backward, find_big_word_start_forward, find_number_span, find_quote_pair,
    find_run_around, least, next_big_word, number_span, previous_big_word, quote_pair, run_around,
};
use crate::model::{holds, precedes, Motion, TextState};
use crate::number::{bump_number, bumped, is_number};
use crate::wf::group_wf;
use vstd::prelude::*;
use vstd::slice::slice_subrange;
use vstd::string::*;

verus! {

/// On which side of a selection the cursor is.
#[derive(Clone, Copy, Debug, PartialEq, Eq, Structural)]
pub enum SelectionDirection {
    /// The cursor is at the end of the selection.
    Forward,
    /// The cursor is at the start of the selection.
    Backward,
    /// The selection is empty.
    Neutral,
}

/// Tells on which side of the selection from `range.0` to `range.1` the cursor is.
pub fn get_selection_direction(
    range: ((usize, usize), (usize, usize)),
    cursor: (usize, usize),
) -> (direction: SelectionDirection)
    ensures
        direction == (if cursor == range.0 && cursor == range.1 {
            SelectionDirection::Neutral
        } else if cursor == range.1 {
            SelectionDirection::Forward
        } else {
            SelectionDirection::Backward
        }),
{
    let (start, end) = range;
    let at_start: bool = cursor.0 == start.0 && cursor.1 == start.1;
    let at_end: bool = cursor.0 == end.0 && cursor.1 == end.1;
    if at_start && at_end {
        SelectionDirection::Neutral
    } else if at_end {
        SelectionDirection::Forward
    } else {
        SelectionDirection::Backward
    }
}

/// The last column of the row of `place` that a jump leads to. Rows behind row 65535 have none, and
/// are entered at their start.
pub open spec fn jump_end(place: (int, int)) -> int {
    if place.0 > 0xffff {
        0
    } else {
        0xffff
    }
}

impl TextState {
    /// With the cursor at `place`.
    pub open spec fn with_cursor(self, place: (int, int)) -> TextState {
        TextState { cursor: place, ..self }
    }

    /// The place can be moved to for certain: it is one that a jump leads to, or the end of its
    /// line, or it is on an unbroken line that shows a character at all, or each step from where a
    /// jump leads is over a character that is shown.
    pub open spec fn reaches(self, place: (int, int)) -> bool {
        let line = self.lines[place.0];
        ||| place.0 <= 0xffff && place.1 <= 0xffff
        ||| place.1 == line.len()
        ||| self.layout.unwrapped() && self.layout.shows_between(line, 0, line.len() as int)
        ||| forall|i: int| jump_end(place) <= i < place.1 ==> self.layout.steps_forward(line, i)
    }

    /// With the cursor at `place`. Where that is not certain to be reached, where steps lead to.
    pub open spec fn jumped(self, place: (int, int)) -> TextState {
        if self.reaches(place) {
            self.with_cursor(place)
        } else {
            self.walked(place)
        }
    }

    /// With the cursor moved to `place` by steps forward from where a jump leads or, where these do
    /// not lead there, by steps back from the end of the line. It stays on the line: where the
    /// steps back leave it, the cursor is at its end.
    pub open spec fn walked(self, place: (int, int)) -> TextState {
        let end = self.with_cursor((place.0, self.lines[place.0].len() as int));
        let ahead = self.with_cursor((place.0, jump_end(place))).approached(place);
        let back = end.receded(place);
        if ahead.cursor == place {
            ahead
        } else if back.cursor.0 == place.0 {
            back
        } else {
            end
        }
    }

    /// With the cursor moved forward until it is at `place`, or has passed it, or has left its row,
    /// or does not get on.
    pub open spec fn approached(self, place: (int, int)) -> TextState
        decreases place.1 - self.cursor.1,
    {
        let next = self.moved(Motion::Forward);
        if self.cursor.0 != place.0 || self.cursor.1 >= place.1 {
            self
        } else if next.cursor.0 != place.0 || !(self.cursor.1 < next.cursor.1 < place.1) {
            next
        } else {
            next.approached(place)
        }
    }

    /// With the cursor moved back until it is at `place`, or has passed it, or has left its row, or
    /// does not get on.
    pub open spec fn receded(self, place: (int, int)) -> TextState
        decreases self.cursor.1 - place.1,
    {
        let next = self.moved(Motion::Back);
        if self.cursor.0 != place.0 || self.cursor.1 <= place.1 {
            self
        } else if next.cursor.0 != place.0 || !(place.1 < next.cursor.1 < self.cursor.1) {
            next
        } else {
            next.receded(place)
        }
    }

    /// With the part of the cursor's line from `start` up to `end` selected.
    pub open spec fn spanned(self, start: int, end: int) -> TextState {
        let row = self.cursor.0;
        self.unanchored().jumped((row, start)).anchored().jumped((row, end))
    }

    /// The column of the character under the cursor, or of the last one where the cursor is behind
    /// it.
    pub open spec fn under(self) -> int {
        least(self.cursor.1, self.line().len() - 1)
    }

    /// With the word, the WORD (where `big`) or the white space under the cursor selected. The
    /// cursor is behind it, or on its last character where the selection is `visual`.
    pub open spec fn inner_run(self, big: bool, visual: bool) -> TextState {
        if self.line().len() == 0 {
            self
        } else {
            let (start, last) = run_around(self.line(), self.under(), big);
            self.spanned(
                start,
                if visual {
                    last
                } else {
                    last + 1
                },
            )
        }
    }

    /// With the text between the quotes at the cursor, or the first ones behind it, selected. The
    /// cursor is behind it, or on its last character where the selection is `visual`.
    pub open spec fn inner_quoted(self, quote: char, visual: bool) -> TextState {
        match quote_pair(self.line(), quote, self.cursor.1) {
            Some((open, close)) => if close <= open + 1 {
                self
            } else {
                self.spanned(
                    open + 1,
                    if visual {
                        close - 1
                    } else {
                        close
                    },
                )
            },
            None => self,
        }
    }

    /// With `delta` added to the number at the cursor, or the first one behind it, and the cursor
    /// on its last digit. To be revealed where it matters how.
    #[verifier::opaque]
    pub open spec fn incremented(self, delta: int) -> TextState {
        match number_span(self.line(), self.cursor.1) {
            Some((start, end)) => match bumped(self.line().subrange(start, end), delta) {
                Some(new) => self.unanchored().jumped((self.cursor.0, start)).deleted(
                    end - start,
                ).typed(new).moved(Motion::Back),
                None => self,
            },
            None => self,
        }
    }

    /// Where the next WORD begins: on this line, or else the next line, or else the end.
    pub open spec fn big_word_ahead(self) -> (int, int) {
        match next_big_word(self.line(), self.cursor.1) {
            Some(col) => (self.cursor.0, col),
            None => if self.cursor.0 + 1 < self.lines.len() {
                (self.cursor.0 + 1, 0)
            } else {
                self.line_end()
            },
        }
    }

    /// Where the last WORD begins: on this line, or else the end of the line before it, or else
    /// the start.
    pub open spec fn big_word_behind(self) -> (int, int) {
        match previous_big_word(self.line(), self.cursor.1) {
            Some(col) => (self.cursor.0, col),
            None => if self.cursor.0 > 0 {
                (self.cursor.0 - 1, self.lines[self.cursor.0 - 1].len() as int)
            } else {
                (self.cursor.0, 0)
            },
        }
    }

    /// With the character under the cursor in the selection, unless the cursor is at its start.
    pub open spec fn included(self) -> TextState {
        match self.anchor {
            Some(anchor) => if precedes(self.cursor, anchor) {
                self
            } else {
                self.moved(Motion::Forward)
            },
            None => self,
        }
    }
}

/// Steps forward that are certain lead to the place.
proof fn lemma_approached(text: TextState, place: (int, int))
    requires
        text.cursor.0 == place.0,
        text.cursor.1 <= place.1,
        forall|i: int|
            text.cursor.1 <= i < place.1 ==> text.layout.steps_forward(text.lines[place.0], i),
    ensures
        text.approached(place) == text.with_cursor(place),
    decreases place.1 - text.cursor.1,
{
    if text.cursor.1 < place.1 {
        assert(text.layout.steps_forward(text.lines[place.0], text.cursor.1));
        let next = text.moved(Motion::Forward);
        assert(next == text.with_cursor((place.0, text.cursor.1 + 1)));
        lemma_approached(next, place);
    }
}

/// Steps back that are certain lead to the place.
proof fn lemma_receded(text: TextState, place: (int, int))
    requires
        text.cursor.0 == place.0,
        place.1 <= text.cursor.1,
        forall|i: int|
            place.1 < i <= text.cursor.1 ==> text.layout.steps_back(text.lines[place.0], i),
    ensures
        text.receded(place) == text.with_cursor(place),
    decreases text.cursor.1 - place.1,
{
    if place.1 < text.cursor.1 {
        assert(text.layout.steps_back(text.lines[place.0], text.cursor.1));
        let next = text.moved(Motion::Back);
        assert(next == text.with_cursor((place.0, text.cursor.1 - 1)));
        lemma_receded(next, place);
    }
}

/// Steps lead to every place of an unbroken line that shows a character, and to every place that
/// certain steps forward lead to.
proof fn lemma_walked(text: TextState, place: (int, int))
    requires
        holds(text.lines, place),
        jump_end(place) <= place.1 < text.lines[place.0].len(),
        text.reaches(place),
        !(place.0 <= 0xffff && place.1 <= 0xffff),
    ensures
        text.walked(place) == text.with_cursor(place),
{
    let line = text.lines[place.0];
    let len = line.len() as int;
    let layout = text.layout;
    let entered = text.with_cursor((place.0, jump_end(place)));
    lemma_approached_lines(entered, place);
    if forall|i: int| jump_end(place) <= i < place.1 ==> layout.steps_forward(line, i) {
        lemma_approached(entered, place);
    } else {
        let shown = choose|i: int| 0 <= i < len && layout.shows(#[trigger] line[i]);
        if shown >= place.1 {
            assert forall|i: int| jump_end(place) <= i < place.1 implies layout.steps_forward(
                line,
                i,
            ) by {
                assert(layout.shows(line[shown]));
            }
        } else {
            assert forall|i: int| place.1 < i <= len implies layout.steps_back(line, i) by {
                assert(layout.shows(line[shown]));
            }
            lemma_receded(text.with_cursor((place.0, len)), place);
        }
    }
}

/// Moves the cursor to a place of the text: by a jump as far as a jump leads, then from line to
/// line and from character to character.
fn jump(textarea: &mut Editor<'_>, row: usize, col: usize)
    requires
        holds(old(textarea)@.lines, (row as int, col as int)),
    ensures
        final(textarea)@ == old(textarea)@.jumped((row as int, col as int)),
        old(textarea)@.wf() ==> final(textarea)@.wf(),
{
    if row <= 0xffff && col <= 0xffff {
        textarea.move_cursor(Motion::Jump(row as u16, col as u16));
        return;
    }
    let ghost text = textarea@;
    let ghost place = (row as int, col as int);
    let len: usize = textarea.lines()[row].as_str().unicode_len();
    if col == len {
        enter_end(textarea, row);
        return;
    }
    proof {
        lemma_approached_lines(text.with_cursor((row as int, jump_end(place))), place);
        lemma_receded_lines(text.with_cursor((row as int, len as int)), place);
        if text.reaches(place) {
            lemma_walked(text, place);
        }
    }
    enter(textarea, row);
    approach(textarea, row, col);
    let ahead = textarea.cursor();
    if ahead.0 == row && ahead.1 == col {
        return;
    }
    enter_end(textarea, row);
    recede(textarea, row, col);
    if textarea.cursor().0 != row {
        enter_end(textarea, row);
    }
}

/// Moves the cursor to the last column of the row that a jump leads to, or to its start. The row
/// has more columns than a jump leads to.
fn enter(textarea: &mut Editor<'_>, row: usize)
    requires
        row < old(textarea)@.lines.len(),
        row <= 0xffff ==> 0xffff <= old(textarea)@.lines[row as int].len(),
    ensures
        final(textarea)@ == old(textarea)@.with_cursor((row as int, jump_end((row as int, 0)))),
        old(textarea)@.wf() ==> final(textarea)@.wf(),
{
    if row <= 0xffff {
        textarea.move_cursor(Motion::Jump(row as u16, 0xffff));
    } else {
        enter_row(textarea, row);
    }
}

/// Moves the cursor to the end of the row.
fn enter_end(textarea: &mut Editor<'_>, row: usize)
    requires
        row < old(textarea)@.lines.len(),
    ensures
        final(textarea)@ == old(textarea)@.with_cursor(
            (row as int, old(textarea)@.lines[row as int].len() as int),
        ),
        old(textarea)@.wf() ==> final(textarea)@.wf(),
{
    if row <= 0xffff {
        textarea.move_cursor(Motion::Jump(row as u16, 0));
    } else {
        enter_row(textarea, row);
    }
    textarea.move_cursor(Motion::End);
}

/// Moves the cursor to the start of a row behind those that a jump leads to.
fn enter_row(textarea: &mut Editor<'_>, row: usize)
    requires
        0xffff < row < old(textarea)@.lines.len(),
    ensures
        final(textarea)@ == old(textarea)@.with_cursor((row as int, 0)),
        old(textarea)@.wf() ==> final(textarea)@.wf(),
{
    if textarea.cursor().0 != row {
        textarea.move_cursor(Motion::Jump(0xffff, 0));
        let mut at: usize = 0xffff;
        while at < row
            invariant
                at <= row < old(textarea)@.lines.len(),
                textarea@ == old(textarea)@.with_cursor((at as int, 0)),
                old(textarea)@.wf() ==> textarea@.wf(),
            decreases row - at,
        {
            textarea.move_cursor(Motion::End);
            textarea.move_cursor(Motion::Forward);
            at += 1;
        }
    }
    textarea.move_cursor(Motion::Head);
}

/// Moves the cursor forward until it is at the place, or has passed it, or has left its row, or
/// does not get on.
fn approach(textarea: &mut Editor<'_>, row: usize, col: usize)
    ensures
        final(textarea)@ == old(textarea)@.approached((row as int, col as int)),
        old(textarea)@.wf() ==> final(textarea)@.wf(),
{
    let ghost place = (row as int, col as int);
    let mut at: (usize, usize) = textarea.cursor();
    let mut stopped: bool = false;
    while !stopped && at.0 == row && at.1 < col
        invariant
            place == (row as int, col as int),
            (at.0 as int, at.1 as int) == textarea@.cursor,
            !stopped ==> textarea@.approached(place) == old(textarea)@.approached(place),
            stopped ==> textarea@ == old(textarea)@.approached(place),
            old(textarea)@.wf() ==> textarea@.wf(),
        decreases
            if stopped || at.1 >= col {
                0
            } else {
                col - at.1
            },
    {
        textarea.move_cursor(Motion::Forward);
        let next: (usize, usize) = textarea.cursor();
        stopped = next.0 != row || next.1 <= at.1;
        at = next;
    }
}

/// Moves the cursor back until it is at the place, or has passed it, or has left its row, or does
/// not get on.
fn recede(textarea: &mut Editor<'_>, row: usize, col: usize)
    ensures
        final(textarea)@ == old(textarea)@.receded((row as int, col as int)),
        old(textarea)@.wf() ==> final(textarea)@.wf(),
{
    let ghost place = (row as int, col as int);
    let mut at: (usize, usize) = textarea.cursor();
    let mut stopped: bool = false;
    while !stopped && at.0 == row && col < at.1
        invariant
            place == (row as int, col as int),
            (at.0 as int, at.1 as int) == textarea@.cursor,
            !stopped ==> textarea@.receded(place) == old(textarea)@.receded(place),
            stopped ==> textarea@ == old(textarea)@.receded(place),
            old(textarea)@.wf() ==> textarea@.wf(),
        decreases
            if stopped || at.1 <= col {
                0
            } else {
                at.1 - col
            },
    {
        textarea.move_cursor(Motion::Back);
        let next: (usize, usize) = textarea.cursor();
        stopped = next.0 != row || next.1 >= at.1;
        at = next;
    }
}

/// Selects the part of the line `row`, which the cursor is on, from `start` up to `end`.
fn select_span(textarea: &mut Editor<'_>, row: usize, start: usize, end: usize)
    requires
        row == old(textarea)@.cursor.0,
        holds(old(textarea)@.lines, (row as int, start as int)),
        holds(old(textarea)@.lines, (row as int, end as int)),
    ensures
        final(textarea)@ == old(textarea)@.spanned(start as int, end as int),
        old(textarea)@.wf() ==> final(textarea)@.wf(),
{
    broadcast use group_wf;

    textarea.cancel_selection();
    jump(textarea, row, start);
    proof {
        lemma_jumped_lines(old(textarea)@.unanchored(), (row as int, start as int));
    }
    textarea.start_selection();
    jump(textarea, row, end);
}

/// A jump moves the cursor alone, and to the row that it should.
pub proof fn lemma_jumped_lines(text: TextState, place: (int, int))
    ensures
        text.jumped(place) == text.with_cursor(text.jumped(place).cursor),
        text.jumped(place).cursor.0 == place.0,
{
    lemma_approached_lines(text.with_cursor((place.0, jump_end(place))), place);
    lemma_receded_lines(
        text.with_cursor((place.0, text.lines[place.0].len() as int)),
        place,
    );
}

/// Steps back move the cursor alone.
proof fn lemma_receded_lines(text: TextState, place: (int, int))
    ensures
        text.receded(place) == text.with_cursor(text.receded(place).cursor),
    decreases text.cursor.1 - place.1,
{
    let next = text.moved(Motion::Back);
    if text.cursor.0 != place.0 || text.cursor.1 <= place.1 {
    } else if next.cursor.0 != place.0 || !(place.1 < next.cursor.1 < text.cursor.1) {
    } else {
        lemma_receded_lines(next, place);
    }
}

/// Steps forward move the cursor alone.
proof fn lemma_approached_lines(text: TextState, place: (int, int))
    ensures
        text.approached(place) == text.with_cursor(text.approached(place).cursor),
    decreases place.1 - text.cursor.1,
{
    let next = text.moved(Motion::Forward);
    if text.cursor.0 != place.0 || text.cursor.1 >= place.1 {
    } else if next.cursor.0 != place.0 || !(text.cursor.1 < next.cursor.1 < place.1) {
    } else {
        lemma_approached_lines(next, place);
    }
}

/// The characters of the line that the cursor is on.
fn cursor_line(textarea: &Editor<'_>, row: usize) -> (chars: Vec<char>)
    requires
        row < textarea@.lines.len(),
    ensures
        chars@ == textarea@.lines[row as int],
{
    chars_of(textarea.lines()[row].as_str())
}

/// Adds `delta` to the number at the cursor or the next one on the line, keeping the width of a
/// number with leading zeros. Does nothing where there is none, or where it is too large.
pub fn increment_number_under_cursor(textarea: &mut Editor<'_>, delta: i64)
    ensures
        final(textarea)@ == old(textarea)@.incremented(delta as int),
        old(textarea)@.wf() ==> final(textarea)@.wf(),
{
    broadcast use group_wf;

    proof {
        reveal(TextState::incremented);
    }
    let cursor = textarea.cursor();
    let chars: Vec<char> = cursor_line(textarea, cursor.0);
    let (start, end) = match find_number_span(chars.as_slice(), cursor.1) {
        Some(span) => span,
        None => return,
    };
    let text: &[char] = slice_subrange(chars.as_slice(), start, end);
    assert(is_number(text@));
    let new_text: String = match bump_number(text, delta) {
        Some(new_text) => new_text,
        None => return,
    };
    textarea.cancel_selection();
    jump(textarea, cursor.0, start);
    textarea.delete_str(end - start);
    textarea.insert_str(new_text.as_str());
    textarea.move_cursor(Motion::Back);
}

/// Selects the word or the WORD under the cursor, without leaving the line.
fn select_inner_run(textarea: &mut Editor<'_>, big: bool, visual: bool)
    ensures
        final(textarea)@ == old(textarea)@.inner_run(big, visual),
        old(textarea)@.wf() ==> final(textarea)@.wf(),
{
    let cursor = textarea.cursor();
    let chars: Vec<char> = cursor_line(textarea, cursor.0);
    if chars.len() == 0 {
        return;
    }
    let col: usize = if cursor.1 < chars.len() - 1 {
        cursor.1
    } else {
        chars.len() - 1
    };
    let (start, end) = find_run_around(chars.as_slice(), col, big);
    // In visual mode the character under the cursor is added when the selection is used.
    let target: usize = if visual {
        end
    } else {
        end + 1
    };
    select_span(textarea, cursor.0, start, target);
}

/// Selects the `iw` text object: the run of characters of one kind (word, punctuation or white
/// space) under the cursor.
pub fn select_inner_word(textarea: &mut Editor<'_>, visual: bool)
    ensures
        final(textarea)@ == old(textarea)@.inner_run(false, visual),
        old(textarea)@.wf() ==> final(textarea)@.wf(),
{
    select_inner_run(textarea, false, visual);
}

/// Selects the `iW` text object: the run of characters under the cursor that are white space, or
/// that are not.
pub fn select_inner_big_word(textarea: &mut Editor<'_>, visual: bool)
    ensures
        final(textarea)@ == old(textarea)@.inner_run(true, visual),
        old(textarea)@.wf() ==> final(textarea)@.wf(),
{
    select_inner_run(textarea, true, visual);
}

/// Selects the `i"` text object: the text between the first pair of quotes on the line that does
/// not close before the cursor. Does nothing where there is none, or where it is empty.
pub fn select_inner_quoted(textarea: &mut Editor<'_>, quote: char, visual: bool)
    ensures
        final(textarea)@ == old(textarea)@.inner_quoted(quote, visual),
        old(textarea)@.wf() ==> final(textarea)@.wf(),
{
    let cursor = textarea.cursor();
    let chars: Vec<char> = cursor_line(textarea, cursor.0);
    let (start, end) = match find_quote_pair(chars.as_slice(), quote, cursor.1) {
        Some(pair) => pair,
        None => return,
    };
    if end <= start + 1 {
        return;
    }
    let target: usize = if visual {
        end - 1
    } else {
        end
    };
    select_span(textarea, cursor.0, start + 1, target);
}

/// Moves the cursor to the next WORD.
pub fn move_cursor_big_word_forward(textarea: &mut Editor<'_>)
    ensures
        final(textarea)@ == old(textarea)@.jumped(old(textarea)@.big_word_ahead()),
        old(textarea)@.wf() ==> final(textarea)@.wf(),
{
    let cursor = textarea.cursor();
    let lines = textarea.lines();
    let target: (usize, usize) = if let Some(col) = find_big_word_start_forward(
        lines[cursor.0].as_str(),
        cursor.1,
    ) {
        (cursor.0, col)
    } else if cursor.0 + 1 < lines.len() {
        (cursor.0 + 1, 0)
    } else {
        (cursor.0, lines[cursor.0].as_str().unicode_len())
    };
    jump(textarea, target.0, target.1);
}

/// Moves the cursor back to the start of a WORD.
pub fn move_cursor_big_word_backward(textarea: &mut Editor<'_>)
    ensures
        final(textarea)@ == old(textarea)@.jumped(old(textarea)@.big_word_behind()),
        old(textarea)@.wf() ==> final(textarea)@.wf(),
{
    let cursor = textarea.cursor();
    let lines = textarea.lines();
    let target: (usize, usize) = if let Some(col) = find_big_word_start_backward(
        lines[cursor.0].as_str(),
        cursor.1,
    ) {
        (cursor.0, col)
    } else if cursor.0 > 0 {
        let row: usize = cursor.0 - 1;
        (row, lines[row].as_str().unicode_len())
    } else {
        (cursor.0, 0)
    };
    jump(textarea, target.0, target.1);
}

/// Adds the character under the cursor to a selection that does not reach back from it.
pub fn include_cursor(textarea: &mut Editor<'_>)
    ensures
        final(textarea)@ == old(textarea)@.included(),
        old(textarea)@.wf() ==> final(textarea)@.wf(),
{
    if let Some(selection_range) = textarea.selection_range() {
        let cursor = textarea.cursor();
        match get_selection_direction(selection_range, cursor) {
            SelectionDirection::Backward => {},
            _ => {
                textarea.move_cursor(Motion::Forward);
            },
        }
    }
}

} // verus!
