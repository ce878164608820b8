//! Where the motions by WORDs lead, and what the text objects are, said of the characters of the
//! line.

use crate::chars::{is_punctuation, is_white, kind_of, InnerWordKind};
use crate::command::{command_of, Command, Transition};
use crate::edit_laws::lemma_cut_part;
use crate::find::{
    big_word_begins, closes_quote, first_where, is_quote, last_where, least, lemma_first_where,
    lemma_last_where, next_big_word, previous_big_word, quote_pair, quotes_before, run_around,
    same_class,
};
use crate::key::{Input, Key};
use crate::key_laws::{only_moves, presses};
use crate::lemmas::{lemma_run_around, lemma_spanned};
use crate::mode::Mode;
use crate::model::{holds, TextState, Yank};
use crate::objects::lemma_jumped_lines;
use crate::vim::{effect, Effect};
use vstd::prelude::*;

verus! {

/// White space is white space, ASCII punctuation but the underscore is punctuation, and every other
/// character is part of a word.
pub proof fn law_kinds(c: char)
    ensures
        kind_of(c) == InnerWordKind::Space <==> is_white(c),
        kind_of(c) == InnerWordKind::Punct <==> is_punctuation(c) && c != '_',
{
}

/// The motions by WORDs, the text objects and the search for numbers lead to a place where its row
/// and its column are at most 65535, or it is the end of its line. On unbroken lines they lead to
/// every place of a line that shows a character, and on broken ones where every character of the
/// line is shown. Elsewhere they stay on its row.
pub proof fn law_places_reached(text: TextState, place: (int, int))
    requires
        holds(text.lines, place),
    ensures
        ({
            let line = text.lines[place.0];
            let near = place.0 <= 65535 && place.1 <= 65535;
            let end = place.1 == line.len();
            let layout = text.layout;
            let some_shown = exists|i: int|
                0 <= i < line.len() && layout.shows(#[trigger] line[i]);
            let all_shown = forall|i: int|
                0 <= i < line.len() ==> layout.shows(#[trigger] line[i]);
            &&& near || end || (layout.unwrapped() && some_shown) || all_shown ==> text.reaches(
                place,
            )
            &&& text.reaches(place) ==> text.jumped(place) == text.with_cursor(place)
            &&& text.jumped(place) == text.with_cursor(text.jumped(place).cursor)
            &&& text.jumped(place).cursor.0 == place.0
        }),
{
    lemma_jumped_lines(text, place);
}

/// A WORD begins in column `i` of the line, behind white space.
pub open spec fn follows_white(line: Seq<char>, i: int) -> bool {
    !is_white(line[i]) && is_white(line[i - 1])
}

/// A search for the next WORD finds the first column behind `col` in which a character that is no
/// white space follows white space, and nothing where there is none.
pub proof fn law_next_big_word(line: Seq<char>, col: int, next: int)
    requires
        0 <= col,
    ensures
        col < next < line.len() && follows_white(line, next) && (forall|i: int|
            col < i < next ==> !#[trigger] follows_white(line, i)) ==> next_big_word(line, col)
            == Some(next),
        (forall|i: int| col < i < line.len() ==> !#[trigger] follows_white(line, i))
            ==> next_big_word(line, col) is None,
{
    let begins = |i: int| big_word_begins(line, i);
    let from = least(col, line.len() as int) + 1;
    lemma_first_where(begins, from, line.len() as int);
    if let Some(found) = first_where(begins, from, line.len() as int) {
        assert(begins(found));
        assert(follows_white(line, found));
    }
    if col < next < line.len() && follows_white(line, next) {
        assert(begins(next));
    }
}

/// A search for the last WORD finds the last column before `col` in which a character that is no
/// white space follows white space or starts the line, and nothing where there is white space only.
pub proof fn law_previous_big_word(line: Seq<char>, col: int, begin: int)
    requires
        0 <= col,
    ensures
        0 <= begin < col && begin < line.len() && !is_white(line[begin]) && (begin == 0 || is_white(
            line[begin - 1],
        )) && (forall|i: int|
            begin < i < col && i < line.len() ==> !#[trigger] follows_white(line, i))
            ==> previous_big_word(line, col) == Some(begin),
        (forall|i: int| 0 <= i < col && i < line.len() ==> is_white(#[trigger] line[i]))
            ==> previous_big_word(line, col) is None,
{
    let begins = |i: int| big_word_begins(line, i);
    let to = least(col, line.len() as int);
    lemma_last_where(begins, 0, to);
    if let Some(found) = last_where(begins, 0, to) {
        assert(begins(found));
        assert(found > 0 ==> follows_white(line, found));
    }
    if 0 <= begin < to && !is_white(line[begin]) && (begin == 0 || is_white(line[begin - 1])) {
        assert(begins(begin));
    }
}

/// Where a WORD begins behind the cursor on its line, `W` puts the cursor on the first character of
/// the first one that does.
pub proof fn law_big_word_on_line(
    mode: Mode,
    pending: Input,
    input: Input,
    clipboard: Option<Seq<char>>,
    text: TextState,
    next: int,
)
    requires
        mode is Normal || (mode is Visual && !pending.is_bare('i')),
        input.is_bare('W'),
        text.wf(),
        text.cursor.1 < next < text.line().len(),
        follows_white(text.line(), next),
        forall|i: int| text.cursor.1 < i < next ==> !#[trigger] follows_white(text.line(), i),
    ensures
        ({
            let after = effect(mode, pending, input, clipboard, text);
            let row = text.cursor.0;
            &&& text.reaches((row, next)) ==> only_moves(after, text.with_cursor((row, next)))
            &&& only_moves(after, text.with_cursor(after.text.cursor))
            &&& after.text.cursor.0 == row
        }),
{
    law_next_big_word(text.line(), text.cursor.1, next);
    lemma_big_word_key(mode, pending, input, clipboard, text);
}

/// Where no WORD begins behind the cursor on its line, `W` puts the cursor in column 0 of the row
/// directly below, or at the end of the line where it is the last one.
pub proof fn law_big_word_on_next_line(
    mode: Mode,
    pending: Input,
    input: Input,
    clipboard: Option<Seq<char>>,
    text: TextState,
)
    requires
        mode is Normal || (mode is Visual && !pending.is_bare('i')),
        input.is_bare('W'),
        text.wf(),
        forall|i: int|
            text.cursor.1 < i < text.line().len() ==> !#[trigger] follows_white(text.line(), i),
    ensures
        ({
            let after = effect(mode, pending, input, clipboard, text);
            let row = text.cursor.0;
            &&& row + 1 < text.lines.len() ==> only_moves(after, text.with_cursor((row + 1, 0)))
            &&& row + 1 == text.lines.len() ==> only_moves(
                after,
                text.with_cursor((row, text.lines[row].len() as int)),
            )
        }),
{
    law_next_big_word(text.line(), text.cursor.1, 0);
    lemma_big_word_key(mode, pending, input, clipboard, text);
}

/// Where a WORD begins before the cursor on its line, `B` puts the cursor on the first character of
/// the last one that does.
pub proof fn law_big_word_back_on_line(
    mode: Mode,
    pending: Input,
    input: Input,
    clipboard: Option<Seq<char>>,
    text: TextState,
    begin: int,
)
    requires
        mode is Normal || mode is Visual,
        input.is_bare('B'),
        text.wf(),
        0 <= begin < text.cursor.1,
        !is_white(text.line()[begin]),
        begin == 0 || is_white(text.line()[begin - 1]),
        forall|i: int| begin < i < text.cursor.1 ==> !#[trigger] follows_white(text.line(), i),
    ensures
        ({
            let after = effect(mode, pending, input, clipboard, text);
            let row = text.cursor.0;
            &&& text.reaches((row, begin)) ==> only_moves(after, text.with_cursor((row, begin)))
            &&& only_moves(after, text.with_cursor(after.text.cursor))
            &&& after.text.cursor.0 == row
        }),
{
    law_previous_big_word(text.line(), text.cursor.1, begin);
    lemma_big_word_key(mode, pending, input, clipboard, text);
}

/// Where there is only white space before the cursor on its line, `B` puts the cursor at the end of
/// the row directly above, or in column 0 on the first line.
pub proof fn law_big_word_back_on_line_above(
    mode: Mode,
    pending: Input,
    input: Input,
    clipboard: Option<Seq<char>>,
    text: TextState,
)
    requires
        mode is Normal || mode is Visual,
        input.is_bare('B'),
        text.wf(),
        forall|i: int| 0 <= i < text.cursor.1 ==> is_white(#[trigger] text.line()[i]),
    ensures
        ({
            let after = effect(mode, pending, input, clipboard, text);
            let row = text.cursor.0;
            &&& row > 0 ==> only_moves(
                after,
                text.with_cursor((row - 1, text.lines[row - 1].len() as int)),
            )
            &&& row == 0 ==> only_moves(after, text.with_cursor((0, 0)))
        }),
{
    law_previous_big_word(text.line(), text.cursor.1, 0);
    lemma_big_word_key(mode, pending, input, clipboard, text);
}

/// The keys `W` and `B` jump to the start of a WORD.
proof fn lemma_big_word_key(
    mode: Mode,
    pending: Input,
    input: Input,
    clipboard: Option<Seq<char>>,
    text: TextState,
)
    requires
        mode is Normal || mode is Visual,
        input.is_bare('B') || (input.is_bare('W') && !(mode is Visual && pending.is_bare('i'))),
    ensures
        ({
            let after = effect(mode, pending, input, clipboard, text);
            let place = if input.is_bare('W') {
                text.big_word_ahead()
            } else {
                text.big_word_behind()
            };
            &&& only_moves(after, text.jumped(place))
            &&& after.text == text.with_cursor(after.text.cursor)
            &&& after.text.cursor.0 == place.0
        }),
{
    let place = if input.is_bare('W') {
        text.big_word_ahead()
    } else {
        text.big_word_behind()
    };
    lemma_jumped_lines(text, place);
    assert(command_of(mode, pending, input).aimed(mode, text) == text.jumped(place)) by {
        reveal(Command::aimed);
    }
}

/// What comes of naming a text object that is on the cursor's line from column `start` up to `end`:
/// in visual mode it is selected, with the cursor on its last character; `y` yanks it, and `d` and
/// `c` cut it; any other operator selects it.
pub open spec fn object_used(
    mode: Mode,
    after: Effect,
    text: TextState,
    start: int,
    end: int,
) -> bool {
    let row = text.cursor.0;
    let line = text.lines[row];
    let part = line.subrange(start, end);
    match mode {
        Mode::Visual => after == (Effect {
            text: TextState { anchor: Some((row, start)), cursor: (row, end - 1), ..text },
            transition: Transition::Nop,
            copied: None,
        }),
        Mode::Operator('y') => after == (Effect {
            text: TextState {
                anchor: None,
                cursor: (row, end),
                yank: Yank::Piece(part),
                ..text
            },
            transition: Transition::Mode(Mode::Normal),
            copied: Some(part),
        }),
        Mode::Operator('d') | Mode::Operator('c') => {
            &&& after.text.lines == text.lines.update(row, line.take(start) + line.skip(end))
            &&& after.text.cursor == (row, start)
            &&& after.text.anchor is None
            &&& after.text.yank == Yank::Piece(part)
            &&& after.text == (TextState {
                anchor: Some((row, start)),
                cursor: (row, end),
                ..text
            }).cut()
            &&& mode == Mode::Operator('d') ==> after.transition == Transition::Mode(Mode::Normal)
                && after.copied is None
            &&& mode == Mode::Operator('c') ==> after.transition == Transition::Mode(Mode::Insert)
                && after.copied == Some(part)
        },
        _ => after == (Effect {
            text: TextState { anchor: Some((row, start)), cursor: (row, end), ..text },
            transition: Transition::Nop,
            copied: None,
        }),
    }
}

/// What comes of naming a text object that is not there: in visual mode nothing, and an operator
/// works on what is selected already.
pub open spec fn object_missing(mode: Mode, after: Effect, text: TextState) -> bool {
    match mode {
        Mode::Operator('y') => after == (Effect {
            text: text.copied(),
            transition: Transition::Mode(Mode::Normal),
            copied: Some(text.copied().yank.text()),
        }),
        Mode::Operator('d') => after == (Effect {
            text: text.cut(),
            transition: Transition::Mode(Mode::Normal),
            copied: None,
        }),
        Mode::Operator('c') => after == (Effect {
            text: text.cut(),
            transition: Transition::Mode(Mode::Insert),
            copied: Some(text.cut().yank.text()),
        }),
        _ => only_moves(after, text),
    }
}

/// An operator works on the part of the line that a text object selects.
proof fn lemma_object_used(
    mode: Mode,
    pending: Input,
    input: Input,
    clipboard: Option<Seq<char>>,
    text: TextState,
    start: int,
    end: int,
)
    requires
        mode is Visual || mode is Operator,
        text.wf(),
        0 <= start < end <= text.line().len(),
        input.key != Key::Null,
        ({
            let command = command_of(mode, pending, input);
            let last = if mode is Visual {
                end - 1
            } else {
                end
            };
            &&& command is InnerWord || command is InnerBigWord || command is InnerQuoted
            &&& command.aimed(mode, text) == (TextState {
                anchor: Some((text.cursor.0, start)),
                cursor: (text.cursor.0, last),
                ..text
            })
        }),
    ensures
        object_used(mode, effect(mode, pending, input, clipboard, text), text, start, end),
{
    let selected = command_of(mode, pending, input).aimed(mode, text);
    let part = text.line().subrange(start, end);
    if mode is Operator {
        lemma_cut_part(selected, text.cursor.0, start, end);
        assert(Yank::Piece(part).text() =~= part);
    }
}

/// Two characters are alike: both white space or both not for a WORD (`big`), of one kind for a
/// word.
pub open spec fn alike(a: char, b: char, big: bool) -> bool {
    if big {
        is_white(a) == is_white(b)
    } else {
        kind_of(a) == kind_of(b)
    }
}

/// The characters from column `start` to column `last` are those around column `at` that are like
/// the one there, as far as they go.
pub open spec fn alike_around(line: Seq<char>, start: int, at: int, last: int, big: bool) -> bool {
    &&& 0 <= start <= at <= last < line.len()
    &&& forall|i: int| start <= i <= last ==> alike(#[trigger] line[i], line[at], big)
    &&& start == 0 || !alike(line[start - 1], line[at], big)
    &&& last + 1 == line.len() || !alike(line[last + 1], line[at], big)
}

/// `iw` and `iW` name the characters around the cursor that are like the one under it or, where the
/// cursor is at the end of the line, like the last one.
pub proof fn law_inner_word(
    mode: Mode,
    pending: Input,
    input: Input,
    clipboard: Option<Seq<char>>,
    text: TextState,
    start: int,
    last: int,
)
    requires
        mode is Visual || mode is Operator,
        pending.is_bare('i'),
        input.is_bare('w') || input.is_bare('W'),
        text.wf(),
        ({
            let (row, col) = text.cursor;
            let len = text.line().len();
            &&& alike_around(
                text.line(),
                start,
                if col < len {
                    col
                } else {
                    len - 1
                },
                last,
                input.is_bare('W'),
            )
            &&& text.reaches((row, start))
            &&& text.reaches(
                (
                    row,
                    if mode is Visual {
                        last
                    } else {
                        last + 1
                    },
                ),
            )
        }),
    ensures
        object_used(mode, effect(mode, pending, input, clipboard, text), text, start, last + 1),
{
    let line = text.line();
    let big = input.is_bare('W');
    let visual = mode is Visual;
    let at = text.under();
    law_run_around(line, start, at, last, big);
    lemma_spanned(
        text,
        start,
        if visual {
            last
        } else {
            last + 1
        },
    );
    assert(command_of(mode, pending, input).aimed(mode, text) == text.inner_run(big, visual)) by {
        reveal(Command::aimed);
    }
    lemma_object_used(mode, pending, input, clipboard, text, start, last + 1);
}

/// The word, the WORD or the white space around a column is made of the characters that are like
/// the one there, as far as they go.
pub proof fn law_run_around(line: Seq<char>, start: int, at: int, last: int, big: bool)
    requires
        alike_around(line, start, at, last, big),
    ensures
        run_around(line, at, big) == (start, last),
{
    lemma_run_around(line, at, big);
    let (s, l) = run_around(line, at, big);
    assert(forall|a: char, b: char| #[trigger] same_class(a, b, big) == alike(a, b, big));
    if s < start {
        assert(same_class(line[start - 1], line[at], big));
    } else if s > start {
        assert(alike(line[s - 1], line[at], big));
        assert(alike(line[s], line[at], big));
    }
    if l > last {
        assert(same_class(line[last + 1], line[at], big));
    } else if l < last {
        assert(alike(line[l + 1], line[at], big));
        assert(alike(line[l], line[at], big));
    }
}

/// On an empty line `iw` and `iW` name nothing.
pub proof fn law_inner_word_on_empty_line(
    mode: Mode,
    pending: Input,
    input: Input,
    clipboard: Option<Seq<char>>,
    text: TextState,
)
    requires
        mode is Visual || mode is Operator,
        pending.is_bare('i'),
        input.is_bare('w') || input.is_bare('W'),
        text.line().len() == 0,
    ensures
        object_missing(mode, effect(mode, pending, input, clipboard, text), text),
{
    assert(command_of(mode, pending, input).aimed(mode, text) == text) by {
        reveal(Command::aimed);
    }
}

/// How many quotes there are before column `end` of the line.
pub open spec fn quotes_up_to(line: Seq<char>, quote: char, end: int) -> nat {
    line.take(end).filter(|c: char| c == quote).len()
}

/// The quotes in the columns `open` and `close` are a pair, no quote is between them, and it is the
/// first pair of the line that does not close before column `col`: as many quotes are before it as
/// make whole pairs, and they are all before `col`.
pub open spec fn first_pair(
    line: Seq<char>,
    quote: char,
    open: int,
    close: int,
    col: int,
) -> bool {
    &&& 0 <= open < close < line.len()
    &&& col <= close
    &&& line[open] == quote && line[close] == quote
    &&& forall|i: int| open < i < close ==> #[trigger] line[i] != quote
    &&& quotes_up_to(line, quote, open) % 2 == 0
    &&& forall|i: int| 0 <= i < open && #[trigger] line[i] == quote ==> i < col
}

/// No quote in column `col` or behind it closes a pair.
pub open spec fn no_pair(line: Seq<char>, quote: char, col: int) -> bool {
    forall|i: int|
        col <= i < line.len() && #[trigger] line[i] == quote ==> quotes_up_to(line, quote, i) % 2
            == 0
}

/// A search for quotes finds the first pair that does not close before the position, where there is
/// one, and nothing where there is none.
pub proof fn law_quote_pair(line: Seq<char>, quote: char, open: int, close: int, col: int)
    requires
        0 <= col,
    ensures
        first_pair(line, quote, open, close, col) ==> quote_pair(line, quote, col) == Some(
            (open, close),
        ),
        no_pair(line, quote, col) ==> quote_pair(line, quote, col) is None,
{
    let closes = |i: int| closes_quote(line, quote, i);
    let quotes = |i: int| is_quote(line, quote, i);
    lemma_first_where(closes, col, line.len() as int);
    let found = first_where(closes, col, line.len() as int);
    if found is Some {
        assert(closes(found->0));
        assert(line[found->0] == quote);
        lemma_quotes_up_to(line, quote, found->0);
    }
    if first_pair(line, quote, open, close, col) {
        lemma_quotes_up_to(line, quote, open);
        lemma_no_quotes(line, quote, open + 1, close);
        assert(closes(close));
        lemma_last_where(quotes, 0, close);
        assert(quotes(open));
        let last = last_where(quotes, 0, close)->0;
        assert(quotes(last));
        assert(line[last] == quote);
    }
}

/// Quoted text is selected from behind the first quote to the second or, where the character under
/// the cursor counts, to the character before it. Where there is no pair of quotes, or nothing
/// between them, nothing changes.
pub proof fn law_quoted_text(text: TextState, quote: char, visual: bool, open: int, close: int)
    requires
        text.wf(),
    ensures
        ({
            let row = text.cursor.0;
            let last = if visual {
                close - 1
            } else {
                close
            };
            let first = first_pair(text.line(), quote, open, close, text.cursor.1);
            &&& first && close > open + 1 && text.reaches((row, open + 1)) && text.reaches(
                (row, last),
            ) ==> text.inner_quoted(quote, visual) == (TextState {
                anchor: Some((row, open + 1)),
                cursor: (row, last),
                ..text
            })
            &&& first && close == open + 1 ==> text.inner_quoted(quote, visual) == text
            &&& no_pair(text.line(), quote, text.cursor.1) ==> text.inner_quoted(quote, visual)
                == text
        }),
{
    let row = text.cursor.0;
    let last = if visual {
        close - 1
    } else {
        close
    };
    law_quote_pair(text.line(), quote, open, close, text.cursor.1);
    if first_pair(text.line(), quote, open, close, text.cursor.1) && close > open + 1
        && text.reaches((row, open + 1)) && text.reaches((row, last)) {
        lemma_spanned(text, open + 1, last);
    }
}

/// `i"` names what is between the two quotes of the first pair that does not close before the
/// cursor. Where there is no such pair, or nothing between its quotes, it names nothing.
pub proof fn law_inner_quoted(
    mode: Mode,
    pending: Input,
    input: Input,
    clipboard: Option<Seq<char>>,
    text: TextState,
    open: int,
    close: int,
)
    requires
        mode is Visual || mode is Operator,
        pending.is_bare('i'),
        presses(input, '"'),
        text.wf(),
    ensures
        ({
            let after = effect(mode, pending, input, clipboard, text);
            let row = text.cursor.0;
            let last = if mode is Visual {
                close - 1
            } else {
                close
            };
            let first = first_pair(text.line(), '"', open, close, text.cursor.1);
            &&& first && close > open + 1 && text.reaches((row, open + 1)) && text.reaches(
                (row, last),
            ) ==> object_used(mode, after, text, open + 1, close)
            &&& first && close == open + 1 ==> object_missing(mode, after, text)
            &&& no_pair(text.line(), '"', text.cursor.1) ==> object_missing(mode, after, text)
        }),
{
    let row = text.cursor.0;
    let visual = mode is Visual;
    let last = if visual {
        close - 1
    } else {
        close
    };
    law_quoted_text(text, '"', visual, open, close);
    let quoted = text.inner_quoted('"', visual);
    assert(command_of(mode, pending, input).aimed(mode, text) == quoted) by {
        reveal(Command::aimed);
    }
    if first_pair(text.line(), '"', open, close, text.cursor.1) && close > open + 1
        && text.reaches((row, open + 1)) && text.reaches((row, last)) {
        lemma_object_used(mode, pending, input, clipboard, text, open + 1, close);
    }
}

/// The number of quotes, counted from the start of the line.
proof fn lemma_quotes_up_to(line: Seq<char>, quote: char, end: int)
    requires
        0 <= end <= line.len(),
    ensures
        quotes_up_to(line, quote, end) == quotes_before(line, quote, end),
    decreases end,
{
    reveal(Seq::filter);
    if end > 0 {
        lemma_quotes_up_to(line, quote, end - 1);
        assert(line.take(end).drop_last() =~= line.take(end - 1));
    }
}

/// Where no quote follows, none is counted.
proof fn lemma_no_quotes(line: Seq<char>, quote: char, from: int, to: int)
    requires
        0 <= from <= to <= line.len(),
        forall|i: int| from <= i < to ==> #[trigger] line[i] != quote,
    ensures
        quotes_before(line, quote, to) == quotes_before(line, quote, from),
    decreases to - from,
{
    if from < to {
        lemma_no_quotes(line, quote, from, to - 1);
        assert(line[to - 1] != quote);
    }
}

} // verus!
