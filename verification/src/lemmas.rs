//! Facts about searches and edits that the laws of the emulation rest on.

use crate::chars::is_digit;
use crate::command::{command_of, Command};
use crate::find::{
    closes_quote, digits_begin, digits_end, is_quote, last_where, lemma_first_where,
    lemma_last_where, number_span, quote_pair, quotes_before, run_around, run_begins, run_ends,
    same_class,
};
use crate::key::{Input, Key};
use crate::mode::Mode;
use crate::model::{
    all_printable, between, holds, is_printable, with, without, Layout, TextState,
};
use crate::number::is_number;
use crate::objects::lemma_jumped_lines;
use vstd::prelude::*;

verus! {

/// The run around a position holds it, and all its characters are of one class.
pub proof fn lemma_run_around(line: Seq<char>, col: int, big: bool)
    requires
        0 <= col < line.len(),
    ensures
        ({
            let (start, last) = run_around(line, col, big);
            &&& 0 <= start <= col <= last < line.len()
            &&& run_begins(line, start, big)
            &&& run_ends(line, last, big)
            &&& forall|i: int| start <= i <= last ==> same_class(#[trigger] line[i], line[col], big)
        }),
{
    let begins = |i: int| run_begins(line, i, big);
    let ends = |i: int| run_ends(line, i, big);
    lemma_last_where(begins, 0, col + 1);
    lemma_first_where(ends, col, line.len() as int);
    assert(begins(0));
    assert(ends(line.len() - 1));
    let (start, last) = run_around(line, col, big);
    assert(begins(start));
    assert(ends(last));
    assert forall|i: int| start <= i <= col implies same_class(
        #[trigger] line[i],
        line[col],
        big,
    ) by {
        assert forall|k: int| i < k <= col implies !run_begins(line, k, big) by {
            assert(!begins(k));
        }
        lemma_no_begin(line, i, col, big);
    }
    assert forall|i: int| col <= i <= last implies same_class(
        #[trigger] line[i],
        line[col],
        big,
    ) by {
        assert forall|j: int| col < j <= i implies !run_begins(line, j, big) by {
            assert(!ends(j - 1));
        }
        lemma_no_begin(line, col, i, big);
    }
}

/// Where no run begins, the class does not change.
proof fn lemma_no_begin(line: Seq<char>, i: int, j: int, big: bool)
    requires
        0 <= i <= j < line.len(),
        forall|k: int| i < k <= j ==> !run_begins(line, k, big),
    ensures
        same_class(line[i], line[j], big),
    decreases j - i,
{
    if i < j {
        lemma_no_begin(line, i, j - 1, big);
        assert(!run_begins(line, j, big));
    }
}

/// A number that is found ends behind the position, and is a number.
pub proof fn lemma_number_span(line: Seq<char>, col: int)
    requires
        0 <= col,
    ensures
        match number_span(line, col) {
            Some((start, end)) => {
                &&& 0 <= start < end <= line.len()
                &&& col < end
                &&& digits_end(line, end)
                &&& is_number(line.subrange(start, end))
            },
            None => true,
        },
{
    let ends = |i: int| digits_end(line, i);
    lemma_first_where(ends, col + 1, line.len() as int + 1);
    if let Some((start, end)) = number_span(line, col) {
        assert(ends(end));
        let begins = |i: int| digits_begin(line, i);
        lemma_last_where(begins, 0, end);
        lemma_digits_begin(line, end - 1);
        let some = choose|b: int| #[trigger] digits_begin(line, b) && 0 <= b < end;
        assert(begins(some));
        let begin = last_where(begins, 0, end)->0;
        assert(begins(begin));
        assert forall|i: int| begin <= i < end implies is_digit(#[trigger] line[i]) by {
            assert forall|k: int| i < k < end implies !digits_begin(line, k) by {
                assert(!begins(k));
            }
            lemma_digits_back(line, i, end - 1);
        }
        let text = line.subrange(start, end);
        assert(text[0] == line[start]);
        if start < begin {
            assert(text.skip(1) =~= line.subrange(begin, end));
        }
    }
}

/// The run of digits that ends at `i` begins somewhere.
proof fn lemma_digits_begin(line: Seq<char>, i: int)
    requires
        0 <= i < line.len(),
        is_digit(line[i]),
    ensures
        exists|b: int| #[trigger] digits_begin(line, b) && 0 <= b <= i,
    decreases i,
{
    if digits_begin(line, i) {
    } else {
        lemma_digits_begin(line, i - 1);
    }
}

/// Before a digit there are digits only, up to where a run of them begins.
proof fn lemma_digits_back(line: Seq<char>, i: int, j: int)
    requires
        0 <= i <= j < line.len(),
        is_digit(line[j]),
        forall|k: int| i < k <= j ==> !digits_begin(line, k),
    ensures
        is_digit(line[i]),
    decreases j - i,
{
    if i < j {
        assert(!digits_begin(line, j));
        lemma_digits_back(line, i, j - 1);
    }
}

/// A pair of quotes that is found has no quote in it, and does not close before the position.
pub proof fn lemma_quote_pair(line: Seq<char>, quote: char, col: int)
    requires
        0 <= col,
    ensures
        match quote_pair(line, quote, col) {
            Some((open, close)) => {
                &&& 0 <= open < close < line.len()
                &&& col <= close
                &&& line[open] == quote && line[close] == quote
                &&& forall|i: int| open < i < close ==> #[trigger] line[i] != quote
            },
            None => true,
        },
{
    let closes = |i: int| closes_quote(line, quote, i);
    lemma_first_where(closes, col, line.len() as int);
    if let Some((open, close)) = quote_pair(line, quote, col) {
        assert(closes(close));
        let opens = |i: int| is_quote(line, quote, i);
        lemma_last_where(opens, 0, close);
        lemma_quotes_before(line, quote, close);
        let some = choose|i: int| 0 <= i < close && #[trigger] is_quote(line, quote, i);
        assert(opens(some));
        assert(opens(open));
        assert forall|i: int| open < i < close implies #[trigger] line[i] != quote by {
            assert(!opens(i));
        }
    }
}

/// Where quotes have been counted, there is one.
proof fn lemma_quotes_before(line: Seq<char>, quote: char, end: int)
    requires
        0 <= end <= line.len(),
        quotes_before(line, quote, end) != 0,
    ensures
        exists|i: int| 0 <= i < end && #[trigger] is_quote(line, quote, i),
    decreases end,
{
    if end > 0 {
        if line[end - 1] == quote {
            assert(is_quote(line, quote, end - 1));
        } else {
            lemma_quotes_before(line, quote, end - 1);
        }
    }
}

/// No character is shown before the first column of the screen.
pub proof fn lemma_screen_col(layout: Layout, line: Seq<char>, col: int)
    ensures
        layout.screen_col(line, col) >= 0,
    decreases col,
{
    if col > 0 {
        lemma_screen_col(layout, line, col - 1);
    }
}

/// The first column of the screen is the first column of the line.
pub proof fn lemma_row_start(layout: Layout, line: Seq<char>)
    ensures
        layout.column_near(line, 0) == 0,
{
    lemma_screen_col(layout, line, line.len() as int);
    let covers = |col: int| layout.covers(line, 0, col);
    assert(layout.screen_col(line, 0) == 0);
    assert(covers(0));
}

/// Where each character takes one column of the screen, the columns of the screen are those of the
/// line.
pub proof fn lemma_plain_columns(layout: Layout, line: Seq<char>, col: int)
    requires
        layout.mask is None,
        all_printable(line),
        0 <= col <= line.len(),
    ensures
        layout.screen_col(line, col) == col,
        layout.column_at(line, col) == col,
{
    lemma_plain_screen_col(layout, line, col);
    let covers = |i: int| layout.covers(line, col, i);
    assert(covers(col));
    lemma_first_where(covers, 0, line.len() as int + 1);
    let first = layout.column_at(line, col);
    assert(covers(first));
    if first < col {
        lemma_plain_screen_col(layout, line, first);
        lemma_plain_screen_col(layout, line, first + 1);
    }
}

/// Where each character takes one column of the screen, each is shown at its own column.
proof fn lemma_plain_screen_col(layout: Layout, line: Seq<char>, col: int)
    requires
        layout.mask is None,
        all_printable(line),
        0 <= col <= line.len(),
    ensures
        layout.screen_col(line, col) == col,
    decreases col,
{
    if col > 0 {
        lemma_plain_screen_col(layout, line, col - 1);
        assert(is_printable(line[col - 1]));
    }
}

/// A part of a line that is reached is selected as it should be.
pub proof fn lemma_spanned(text: TextState, start: int, end: int)
    requires
        text.wf(),
        0 <= start <= end <= text.line().len(),
        text.reaches((text.cursor.0, start)),
        text.reaches((text.cursor.0, end)),
    ensures
        text.spanned(start, end) == (TextState {
            anchor: Some((text.cursor.0, start)),
            cursor: (text.cursor.0, end),
            ..text
        }),
{
    let row = text.cursor.0;
    let free = text.unanchored();
    assert(free.reaches((row, start)));
    let started = free.with_cursor((row, start)).anchored();
    assert(started.reaches((row, end)));
}

/// Deleting a part of a line leaves the rest of it.
pub proof fn lemma_without_part(lines: Seq<Seq<char>>, row: int, start: int, end: int)
    requires
        0 <= row < lines.len(),
        0 <= start <= end <= lines[row].len(),
    ensures
        without(lines, (row, start), (row, end)) == lines.update(
            row,
            lines[row].take(start) + lines[row].skip(end),
        ),
{
    assert(without(lines, (row, start), (row, end)) =~= lines.update(
        row,
        lines[row].take(start) + lines[row].skip(end),
    ));
}

/// What is taken out of a text and put in again at the same place restores the text.
pub proof fn lemma_put_back(lines: Seq<Seq<char>>, start: (int, int), end: (int, int))
    requires
        holds(lines, start),
        holds(lines, end),
        start.0 < end.0 || (start.0 == end.0 && start.1 <= end.1),
    ensures
        with(without(lines, start, end), start, between(lines, start, end)) == lines,
{
    let rest = without(lines, start, end);
    let pieces = between(lines, start, end);
    let head = lines[start.0].take(start.1);
    let tail = lines[end.0].skip(end.1);
    assert(rest[start.0] == head + tail);
    assert(rest[start.0].take(start.1) =~= head);
    assert(rest[start.0].skip(start.1) =~= tail);
    let back = with(rest, start, pieces);
    if start.0 == end.0 {
        assert(pieces.len() == 1);
        assert(head + pieces[0] + tail =~= lines[start.0]);
        assert(back == rest.update(start.0, lines[start.0]));
        assert(back =~= lines);
    } else {
        assert(pieces.len() == end.0 - start.0 + 1);
        assert(head + pieces[0] =~= lines[start.0]);
        assert(pieces.last() + tail =~= lines[end.0]);
        assert(pieces.subrange(1, pieces.len() - 1) =~= lines.subrange(start.0 + 1, end.0));
        assert(rest.take(start.0) =~= lines.take(start.0));
        assert(rest.skip(start.0 + 1) =~= lines.skip(end.0 + 1));
        assert(back == lines.take(start.0).push(lines[start.0]) + lines.subrange(
            start.0 + 1,
            end.0,
        ).push(lines[end.0]) + lines.skip(end.0 + 1));
        assert(back =~= lines);
    }
}

/// Numbers are added to in normal mode only.
pub proof fn lemma_increments_in_normal_mode(mode: Mode, pending: Input, input: Input)
    ensures
        command_of(mode, pending, input) is Increment ==> mode is Normal,
{
}

/// What an operator builds on selects text, but for adding to a number.
pub proof fn lemma_aimed_selects(command: Command, mode: Mode, text: TextState)
    requires
        command.aims(),
        !(command is Increment),
    ensures
        ({
            let aimed = command.aimed(mode, text);
            aimed == (TextState {
                cursor: aimed.cursor,
                anchor: aimed.anchor,
                viewport: aimed.viewport,
                ..text
            })
        }),
{
    if command is Move || command is BigWordForward || command is BigWordBack || command is Scroll {
        lemma_aimed_moves(command, mode, text);
    } else {
        lemma_aimed_object(command, mode, text);
    }
}

/// A motion moves the cursor or scrolls, and does nothing else.
pub proof fn lemma_aimed_moves(command: Command, mode: Mode, text: TextState)
    requires
        command is Move || command is BigWordForward || command is BigWordBack || command is Scroll,
    ensures
        ({
            let aimed = command.aimed(mode, text);
            aimed == (TextState { cursor: aimed.cursor, viewport: aimed.viewport, ..text })
        }),
{
    lemma_jumped_lines(text, text.big_word_ahead());
    lemma_jumped_lines(text, text.big_word_behind());
    reveal(Command::aimed);
}

/// Naming a text object, and doubling an operator, select and do nothing else.
pub proof fn lemma_aimed_object(command: Command, mode: Mode, text: TextState)
    requires
        command is InnerWord || command is InnerBigWord || command is InnerQuoted
            || command is WholeLine,
    ensures
        ({
            let aimed = command.aimed(mode, text);
            aimed == (TextState { cursor: aimed.cursor, anchor: aimed.anchor, ..text })
        }),
{
    reveal(Command::aimed);
    let aimed = command.aimed(mode, text);
    if command is WholeLine {
    } else {
        assert forall|start: int, end: int| #[trigger]
            text.spanned(start, end) == (TextState {
                cursor: text.spanned(start, end).cursor,
                anchor: text.spanned(start, end).anchor,
                ..text
            }) by {
            let row = text.cursor.0;
            lemma_jumped_lines(text.unanchored(), (row, start));
            lemma_jumped_lines(
                text.unanchored().jumped((row, start)).anchored(),
                (row, end),
            );
        }
    }
}

/// A key that types a character puts it in place of what is selected.
pub proof fn lemma_typing_key(text: TextState, input: Input, c: char)
    requires
        input.types(c),
    ensures
        text.keyed(input) == if c == '\n' || c == '\r' {
            text.broken()
        } else {
            text.erased().inserted(seq![seq![c]])
        },
{
    reveal(TextState::keyed);
}

/// Backspace takes out what is selected, or the character before the cursor.
pub proof fn lemma_backspace_key(text: TextState, input: Input)
    requires
        input.key == Key::Backspace && !input.ctrl && !input.alt,
    ensures
        text.keyed(input) == text.backspaced(),
{
    reveal(TextState::keyed);
}

} // verus!
