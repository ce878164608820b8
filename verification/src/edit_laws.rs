//! What the editing commands do to a text, and how they fit together.

use crate::command::{command_of, operated, Command, Transition};
use crate::find::{
    big_word_begins, least, lemma_first_where, lemma_last_where, quote_pair, run_around,
};
use crate::key::{Input, Key};
use crate::lemmas::{
    lemma_aimed_selects, lemma_increments_in_normal_mode, lemma_put_back, lemma_quote_pair,
    lemma_row_start, lemma_run_around, lemma_spanned, lemma_typing_key, lemma_without_part,
};
use crate::mode::Mode;
use crate::model::{
    behind, between, joined, lines_of, precedes, screen_move, with, without, Change, Motion,
    TextState, Yank,
};
use crate::objects::{jump_end, lemma_jumped_lines};
use crate::vim::{effect, takes_commands, Effect};
use vstd::prelude::*;

verus! {

/// An operator and a motion work on what is between the place where the operator was pressed and
/// the place that the motion leads to, whichever comes first: `y` yanks it, `d` and `c` cut it.
pub proof fn law_operator_and_motion(
    operator: char,
    pending: Input,
    first: Input,
    other: Input,
    second: Input,
    clipboard: Option<Seq<char>>,
    text: TextState,
)
    requires
        operator == 'y' || operator == 'd' || operator == 'c',
        first.is_bare(operator),
        second.key != Key::Null,
        ({
            let command = command_of(Mode::Operator(operator), other, second);
            command is Move || command is BigWordForward || command is BigWordBack
        }),
    ensures
        ({
            let mode = Mode::Operator(operator);
            let started = effect(Mode::Normal, pending, first, clipboard, text);
            let after = effect(mode, other, second, clipboard, started.text);
            let place = command_of(mode, other, second).aimed(mode, text).cursor;
            &&& started.transition == Transition::Mode(mode)
            &&& started.text == text.anchored()
            &&& after.transition == Transition::Mode(
                if operator == 'c' {
                    Mode::Insert
                } else {
                    Mode::Normal
                },
            )
            &&& after.text.anchor is None
            &&& place != text.cursor ==> {
                let (start, end) = if precedes(place, text.cursor) {
                    (place, text.cursor)
                } else {
                    (text.cursor, place)
                };
                &&& after.text.yank == Yank::of(between(text.lines, start, end))
                &&& after.text.lines == if operator == 'y' {
                    text.lines
                } else {
                    without(text.lines, start, end)
                }
            }
            &&& place == text.cursor ==> after.text.lines == text.lines && after.text.yank
                == text.yank
        }),
{
    let mode = Mode::Operator(operator);
    let anchored = text.anchored();
    assert(Command::Operate(operator).executed(Mode::Normal, clipboard, text) == anchored) by {
        reveal(Command::executed);
    }
    let command = command_of(mode, other, second);
    let place = command.aimed(mode, text).cursor;
    lemma_moves_with_anchor(command, mode, text);
    lemma_operated(operator, text, place);
}

/// A selection does not change where a motion moves the cursor.
proof fn lemma_moves_with_anchor(command: Command, mode: Mode, text: TextState)
    requires
        command is Move || command is BigWordForward || command is BigWordBack,
    ensures
        command.aimed(mode, text.anchored()) == (TextState {
            cursor: command.aimed(mode, text).cursor,
            ..text.anchored()
        }),
{
    let anchored = text.anchored();
    match command {
        Command::Move(motion) => {
            assert(command.aimed(mode, text) == text.moved(motion) && command.aimed(mode, anchored)
                == anchored.moved(motion)) by {
                reveal(Command::aimed);
            }
            lemma_moved_with_anchor(text, Some(text.cursor), motion);
        },
        Command::BigWordForward => {
            let place = text.big_word_ahead();
            assert(command.aimed(mode, text) == text.jumped(place) && command.aimed(mode, anchored)
                == anchored.jumped(place)) by {
                reveal(Command::aimed);
            }
            lemma_jumped_with_anchor(text, text.cursor, place);
            lemma_jumped_lines(text, place);
        },
        _ => {
            let place = text.big_word_behind();
            assert(command.aimed(mode, text) == text.jumped(place) && command.aimed(mode, anchored)
                == anchored.jumped(place)) by {
                reveal(Command::aimed);
            }
            lemma_jumped_with_anchor(text, text.cursor, place);
            lemma_jumped_lines(text, place);
        },
    }
}

/// A selection does not change where a motion leads to.
proof fn lemma_target_with_anchor(
    text: TextState,
    anchor: Option<(int, int)>,
    motion: Motion,
    by_screen: Option<(int, int)>,
)
    ensures
        (TextState { anchor, ..text }).target(motion, by_screen) == text.target(motion, by_screen),
{
}

/// A selection does not change where a motion moves the cursor.
pub proof fn lemma_moved_with_anchor(text: TextState, anchor: Option<(int, int)>, motion: Motion)
    ensures
        (TextState { anchor, ..text }).moved(motion) == (TextState {
            anchor,
            ..text.moved(motion)
        }),
        text.moved(motion) == text.with_cursor(text.moved(motion).cursor),
{
    let by_screen = screen_move(text.lines, text.cursor, text.layout, motion);
    lemma_target_with_anchor(text, anchor, motion, by_screen);
    let selecting = TextState { anchor, ..text };
    assert(selecting.moved(motion) == selecting.moved_to(text.target(motion, by_screen)));
}

/// A selection does not change where a jump leads to.
proof fn lemma_jumped_with_anchor(text: TextState, anchor: (int, int), place: (int, int))
    ensures
        (TextState { anchor: Some(anchor), ..text }).jumped(place) == (TextState {
            anchor: Some(anchor),
            ..text.jumped(place)
        }),
{
    let selecting = TextState { anchor: Some(anchor), ..text };
    let end = text.with_cursor((place.0, text.lines[place.0].len() as int));
    assert(selecting.reaches(place) == text.reaches(place));
    lemma_approached_with_anchor(text.with_cursor((place.0, jump_end(place))), anchor, place);
    lemma_receded_with_anchor(end, anchor, place);
    lemma_jumped_lines(text, place);
}

/// A selection does not change where steps forward lead to.
proof fn lemma_approached_with_anchor(text: TextState, anchor: (int, int), place: (int, int))
    ensures
        (TextState { anchor: Some(anchor), ..text }).approached(place) == (TextState {
            anchor: Some(anchor),
            ..text.approached(place)
        }),
    decreases place.1 - text.cursor.1,
{
    lemma_moved_with_anchor(text, Some(anchor), Motion::Forward);
    let next = text.moved(Motion::Forward);
    if text.cursor.0 == place.0 && next.cursor.0 == place.0 && text.cursor.1 < next.cursor.1
        < place.1 {
        lemma_approached_with_anchor(next, anchor, place);
    }
}

/// A selection does not change where steps back lead to.
proof fn lemma_receded_with_anchor(text: TextState, anchor: (int, int), place: (int, int))
    ensures
        (TextState { anchor: Some(anchor), ..text }).receded(place) == (TextState {
            anchor: Some(anchor),
            ..text.receded(place)
        }),
    decreases text.cursor.1 - place.1,
{
    lemma_moved_with_anchor(text, Some(anchor), Motion::Back);
    let next = text.moved(Motion::Back);
    if text.cursor.0 == place.0 && next.cursor.0 == place.0 && place.1 < next.cursor.1
        < text.cursor.1 {
        lemma_receded_with_anchor(next, anchor, place);
    }
}

/// An operator works on what is between the cursor and the place where the selection was started.
proof fn lemma_operated(operator: char, text: TextState, place: (int, int))
    requires
        operator == 'y' || operator == 'd' || operator == 'c',
    ensures
        ({
            let after = operated(
                Mode::Operator(operator),
                TextState { cursor: place, ..text.anchored() },
            );
            let (start, end) = if precedes(place, text.cursor) {
                (place, text.cursor)
            } else {
                (text.cursor, place)
            };
            &&& after.anchor is None
            &&& after.yank == if place == text.cursor {
                text.yank
            } else {
                Yank::of(between(text.lines, start, end))
            }
            &&& after.lines == if operator == 'y' || place == text.cursor {
                text.lines
            } else {
                without(text.lines, start, end)
            }
        }),
{
}

/// `V` selects the cursor's line.
pub proof fn law_visual_line(
    pending: Input,
    input: Input,
    clipboard: Option<Seq<char>>,
    text: TextState,
)
    requires
        input.is_bare('V'),
    ensures
        effect(Mode::Normal, pending, input, clipboard, text) == (Effect {
            text: TextState {
                anchor: Some((text.cursor.0, 0)),
                cursor: text.line_end(),
                ..text
            },
            transition: Transition::Mode(Mode::Visual),
            copied: None,
        }),
{
    let selected = text.moved(Motion::Head).anchored().moved(Motion::End);
    assert(Command::StartVisualLine.executed(Mode::Normal, clipboard, text) == selected) by {
        reveal(Command::executed);
    }
}

/// Cutting a selection inside a line leaves the rest of the line.
pub proof fn lemma_cut_part(text: TextState, row: int, start: int, end: int)
    requires
        text.anchor is Some,
        text.selection() == Some(((row, start), (row, end))),
        0 <= row < text.lines.len(),
        0 <= start <= end <= text.lines[row].len(),
    ensures
        ({
            let after = text.cut();
            let line = text.lines[row];
            &&& after.lines == text.lines.update(row, line.take(start) + line.skip(end))
            &&& after.cursor == (row, start)
            &&& after.yank == Yank::Piece(line.subrange(start, end))
            &&& after.anchor is None
        }),
{
    lemma_without_part(text.lines, row, start, end);
}

/// `x` cuts the character under the cursor where nothing is selected.
pub proof fn law_cut_character(
    mode: Mode,
    pending: Input,
    input: Input,
    clipboard: Option<Seq<char>>,
    text: TextState,
)
    requires
        takes_commands(mode),
        input.is_bare('x'),
        text.wf(),
        text.anchor is None,
        text.cursor.1 < text.line().len(),
        text.moved(Motion::Forward).cursor == (text.cursor.0, text.cursor.1 + 1),
    ensures
        ({
            let after = effect(mode, pending, input, clipboard, text);
            let (row, col) = text.cursor;
            let line = text.line();
            &&& after.text.lines == text.lines.update(row, line.remove(col))
            &&& after.text.cursor == text.cursor
            &&& after.text.yank == Yank::Piece(seq![line[col]])
            &&& after.copied == Some(seq![line[col]])
            &&& after.transition == Transition::Mode(Mode::Normal)
        }),
{
    let (row, col) = text.cursor;
    let line = text.line();
    let selected = text.anchored().included();
    assert(Command::Cut.executed(mode, clipboard, text) == selected.cut()) by {
        reveal(Command::executed);
    }
    lemma_moved_with_anchor(text, Some(text.cursor), Motion::Forward);
    lemma_cut_part(selected, row, col, col + 1);
    assert(line.take(col) + line.skip(col + 1) =~= line.remove(col));
    assert(line.subrange(col, col + 1) =~= seq![line[col]]);
    assert(Yank::Piece(seq![line[col]]).text() =~= seq![line[col]]);
}

/// In visual mode a selection that reaches forward takes in the character under the cursor, and
/// one that reaches back does not take in the character that it was started at.
pub proof fn law_visual_inclusive(
    pending: Input,
    input: Input,
    clipboard: Option<Seq<char>>,
    text: TextState,
)
    requires
        input.is_bare('y') || input.is_bare('d') || input.is_bare('c') || input.is_bare('x'),
        text.wf(),
        text.anchor is Some,
        !precedes(text.cursor, text.anchor->0) ==> text.moved(Motion::Forward).cursor == (
            text.cursor.0,
            text.cursor.1 + 1,
        ),
    ensures
        ({
            let after = effect(Mode::Visual, pending, input, clipboard, text);
            let anchor = text.anchor->0;
            let (start, end) = if precedes(text.cursor, anchor) {
                (text.cursor, anchor)
            } else {
                (anchor, (text.cursor.0, text.cursor.1 + 1))
            };
            &&& after.text.yank == Yank::of(between(text.lines, start, end))
            &&& after.text.lines == if input.is_bare('y') {
                text.lines
            } else {
                without(text.lines, start, end)
            }
            &&& after.text.anchor is None
            &&& after.transition == Transition::Mode(
                if input.is_bare('c') {
                    Mode::Insert
                } else {
                    Mode::Normal
                },
            )
        }),
{
    let selected = text.included();
    lemma_moved_with_anchor(text, text.anchor, Motion::Forward);
    assert(Command::YankSelection.executed(Mode::Visual, clipboard, text) == selected.copied()) by {
        reveal(Command::executed);
    }
    assert(Command::DeleteSelection.executed(Mode::Visual, clipboard, text) == selected.cut()) by {
        reveal(Command::executed);
    }
    assert(Command::ChangeSelection.executed(Mode::Visual, clipboard, text) == selected.cut()) by {
        reveal(Command::executed);
    }
    assert(Command::Cut.executed(Mode::Visual, clipboard, text) == selected.cut()) by {
        reveal(Command::executed);
    }
}

/// The word, the WORD or the white space under the cursor is selected from its first character to
/// behind its last, or to its last in visual mode.
proof fn lemma_inner_run(text: TextState, big: bool, visual: bool)
    requires
        text.wf(),
        text.line().len() > 0,
        ({
            let (start, last) = run_around(text.line(), text.under(), big);
            &&& text.reaches((text.cursor.0, start))
            &&& text.reaches(
                (
                    text.cursor.0,
                    if visual {
                        last
                    } else {
                        last + 1
                    },
                ),
            )
        }),
    ensures
        ({
            let row = text.cursor.0;
            let at = text.under();
            let (start, last) = run_around(text.line(), at, big);
            &&& 0 <= start <= at <= last < text.line().len()
            &&& text.inner_run(big, visual) == (TextState {
                anchor: Some((row, start)),
                cursor: (
                    row,
                    if visual {
                        last
                    } else {
                        last + 1
                    },
                ),
                ..text
            })
        }),
{
    let at = text.under();
    lemma_run_around(text.line(), at, big);
    let (start, last) = run_around(text.line(), at, big);
    lemma_spanned(
        text,
        start,
        if visual {
            last
        } else {
            last + 1
        },
    );
}

/// `diw` and `diW` take the word, the WORD or the white space under the cursor out of its line,
/// and nothing else.
pub proof fn law_delete_inner_word(
    pending: Input,
    input: Input,
    big: bool,
    clipboard: Option<Seq<char>>,
    text: TextState,
)
    requires
        pending.is_bare('i'),
        input.is_bare(
            if big {
                'W'
            } else {
                'w'
            },
        ),
        text.wf(),
        text.line().len() > 0,
        ({
            let (start, last) = run_around(text.line(), text.under(), big);
            text.reaches((text.cursor.0, start)) && text.reaches((text.cursor.0, last + 1))
        }),
    ensures
        ({
            let after = effect(Mode::Operator('d'), pending, input, clipboard, text).text;
            let row = text.cursor.0;
            let line = text.line();
            let (start, last) = run_around(line, text.under(), big);
            &&& 0 <= start <= text.under() <= last < line.len()
            &&& after.lines == text.lines.update(row, line.take(start) + line.skip(last + 1))
            &&& after.yank == Yank::Piece(line.subrange(start, last + 1))
            &&& after.cursor == (row, start)
        }),
{
    let row = text.cursor.0;
    let mode = Mode::Operator('d');
    lemma_inner_run(text, big, false);
    let (start, last) = run_around(text.line(), text.under(), big);
    let selected = text.inner_run(big, false);
    assert(command_of(mode, pending, input).aimed(mode, text) == selected) by {
        reveal(Command::aimed);
    }
    lemma_cut_part(selected, row, start, last + 1);
}

/// `di"` takes out what is between the first two quotes that do not close before the cursor,
/// and leaves the quotes.
pub proof fn law_delete_inner_quoted(
    pending: Input,
    input: Input,
    clipboard: Option<Seq<char>>,
    text: TextState,
)
    requires
        pending.is_bare('i'),
        input.is_bare('"'),
        text.wf(),
        quote_pair(text.line(), '"', text.cursor.1) is Some,
        ({
            let (open, close) = quote_pair(text.line(), '"', text.cursor.1)->0;
            &&& close > open + 1
            &&& text.reaches((text.cursor.0, open + 1))
            &&& text.reaches((text.cursor.0, close))
        }),
    ensures
        ({
            let after = effect(Mode::Operator('d'), pending, input, clipboard, text).text;
            let row = text.cursor.0;
            let line = text.line();
            let (open, close) = quote_pair(line, '"', text.cursor.1)->0;
            &&& 0 <= open < close < line.len() && text.cursor.1 <= close
            &&& after.lines == text.lines.update(row, line.take(open + 1) + line.skip(close))
            &&& after.yank == Yank::Piece(line.subrange(open + 1, close))
            &&& !line.subrange(open + 1, close).contains('"')
            &&& after.cursor == (row, open + 1)
        }),
{
    let mode = Mode::Operator('d');
    let row = text.cursor.0;
    let line = text.line();
    lemma_quote_pair(line, '"', text.cursor.1);
    let (open, close) = quote_pair(line, '"', text.cursor.1)->0;
    let selected = text.inner_quoted('"', false);
    lemma_spanned(text, open + 1, close);
    assert(command_of(mode, pending, input).aimed(mode, text) == selected) by {
        reveal(Command::aimed);
    }
    lemma_cut_part(selected, row, open + 1, close);
    let inner = line.subrange(open + 1, close);
    assert forall|i: int| 0 <= i < inner.len() implies inner[i] != '"' by {
        assert(inner[i] == line[open + 1 + i]);
    }
}

/// The selection of a text object in visual mode, with the character under the cursor taken in, is
/// the one that an operator works on.
proof fn lemma_object_inclusive(command: Command, mode: Mode, text: TextState)
    requires
        mode is Operator,
        text.wf(),
        selects_object(command, text),
    ensures
        ({
            let visual = command.aimed(Mode::Visual, text);
            &&& visual.included() == command.aimed(mode, text)
            &&& visual.anchor is Some
        }),
{
    let line = text.line();
    if command is InnerQuoted {
        lemma_quote_pair(line, '"', text.cursor.1);
        let (open, close) = quote_pair(line, '"', text.cursor.1)->0;
        lemma_spanned(text, open + 1, close);
        lemma_spanned(text, open + 1, close - 1);
        let visual = text.inner_quoted('"', true);
        let last = text.with_cursor((text.cursor.0, close - 1));
        lemma_moved_with_anchor(last, visual.anchor, Motion::Forward);
        assert(command.aimed(Mode::Visual, text) == visual && command.aimed(mode, text)
            == text.inner_quoted('"', false)) by {
            reveal(Command::aimed);
        }
    } else {
        let big = command is InnerBigWord;
        lemma_inner_run(text, big, false);
        lemma_inner_run(text, big, true);
        let visual = text.inner_run(big, true);
        let last = text.with_cursor(visual.cursor);
        lemma_moved_with_anchor(last, visual.anchor, Motion::Forward);
        assert(command.aimed(Mode::Visual, text) == visual && command.aimed(mode, text)
            == text.inner_run(big, false)) by {
            reveal(Command::aimed);
        }
    }
}

/// The command finds a text object on the cursor's line that is not empty. Its start, its last
/// character and the place behind it are reached for certain, and a motion forward leads from its
/// last character to behind it.
pub open spec fn selects_object(command: Command, text: TextState) -> bool {
    let row = text.cursor.0;
    let line = text.line();
    match command {
        Command::InnerWord | Command::InnerBigWord => {
            let (start, last) = run_around(line, text.under(), command is InnerBigWord);
            &&& line.len() > 0
            &&& text.reaches((row, start)) && text.reaches((row, last))
            &&& text.reaches((row, last + 1))
            &&& text.with_cursor((row, last)).moved(Motion::Forward).cursor == (row, last + 1)
        },
        Command::InnerQuoted => match quote_pair(line, '"', text.cursor.1) {
            Some((open, close)) => {
                &&& close > open + 1
                &&& text.reaches((row, open + 1)) && text.reaches((row, close - 1))
                &&& text.reaches((row, close))
                &&& text.with_cursor((row, close - 1)).moved(Motion::Forward).cursor == (row, close)
            },
            None => false,
        },
        _ => false,
    }
}

/// Selecting a text object in visual mode and then yanking, deleting or changing it is the same as
/// naming it behind the operator: `viwd` is `diw`. No character is counted twice.
pub proof fn law_visual_object_is_operator_object(
    pending: Input,
    object: Input,
    other: Input,
    operator: char,
    key: Input,
    clipboard: Option<Seq<char>>,
    text: TextState,
)
    requires
        pending.is_bare('i'),
        operator == 'y' || operator == 'd' || operator == 'c',
        key.is_bare(operator),
        text.wf(),
        selects_object(command_of(Mode::Visual, pending, object), text),
    ensures
        effect(
            Mode::Visual,
            other,
            key,
            clipboard,
            effect(Mode::Visual, pending, object, clipboard, text).text,
        ) == effect(Mode::Operator(operator), pending, object, clipboard, text),
{
    let mode = Mode::Operator(operator);
    let command = command_of(Mode::Visual, pending, object);
    let visual = command.aimed(Mode::Visual, text);
    lemma_object_commands(mode, pending, object);
    lemma_object_inclusive(command, mode, text);
    lemma_visual_operator(other, key, operator, clipboard, visual);
}

/// Text objects have the same names in visual mode and behind an operator.
proof fn lemma_object_commands(mode: Mode, pending: Input, input: Input)
    requires
        mode is Operator,
        pending.is_bare('i'),
        ({
            let command = command_of(Mode::Visual, pending, input);
            command is InnerWord || command is InnerBigWord || command is InnerQuoted
        }),
    ensures
        command_of(mode, pending, input) == command_of(Mode::Visual, pending, input),
{
}

/// In visual mode the keys of the operators work on the selection, with the character under the
/// cursor taken in.
proof fn lemma_visual_operator(
    pending: Input,
    key: Input,
    operator: char,
    clipboard: Option<Seq<char>>,
    text: TextState,
)
    requires
        operator == 'y' || operator == 'd' || operator == 'c',
        key.is_bare(operator),
    ensures
        ({
            let after = operated(Mode::Operator(operator), text.included());
            effect(Mode::Visual, pending, key, clipboard, text) == (Effect {
                text: after,
                transition: Transition::Mode(
                    if operator == 'c' {
                        Mode::Insert
                    } else {
                        Mode::Normal
                    },
                ),
                copied: if operator == 'd' {
                    None
                } else {
                    Some(after.yank.text())
                },
            })
        }),
{
    let command = command_of(Mode::Visual, pending, key);
    assert(command.executed(Mode::Visual, clipboard, text) == operated(
        Mode::Operator(operator),
        text.included(),
    )) by {
        reveal(Command::executed);
    }
}

/// A key that doubles the operator selects the cursor's line: up to the start of the next one, or
/// to its own end on the last one.
proof fn lemma_whole_line(text: TextState)
    requires
        text.wf(),
        text.layout.unwrapped(),
    ensures
        text.whole_line() == (TextState {
            anchor: Some((text.cursor.0, 0)),
            cursor: if text.cursor.0 + 1 < text.lines.len() {
                (text.cursor.0 + 1, 0)
            } else {
                text.line_end()
            },
            ..text
        }),
{
    if text.cursor.0 + 1 < text.lines.len() {
        lemma_row_start(text.layout, text.lines[text.cursor.0 + 1]);
    }
}

/// `dd` and `cc` take out the line of the cursor, with its line break where a line follows. On the
/// last line an empty line is left.
pub proof fn law_delete_line(
    operator: char,
    pending: Input,
    input: Input,
    clipboard: Option<Seq<char>>,
    text: TextState,
)
    requires
        operator == 'd' || operator == 'c',
        input.is_bare(operator),
        text.wf(),
        text.layout.unwrapped(),
    ensures
        ({
            let after = effect(Mode::Operator(operator), pending, input, clipboard, text);
            let row = text.cursor.0;
            &&& after.text.cursor == (row, 0int)
            &&& after.transition == Transition::Mode(
                if operator == 'c' {
                    Mode::Insert
                } else {
                    Mode::Normal
                },
            )
            &&& row + 1 < text.lines.len() ==> {
                &&& after.text.lines == text.lines.remove(row)
                &&& after.text.yank == Yank::Chunk(seq![text.line(), Seq::empty()])
            }
            &&& row + 1 == text.lines.len() ==> {
                &&& after.text.lines == text.lines.update(row, Seq::empty())
                &&& text.line().len() > 0 ==> after.text.yank == Yank::Piece(text.line())
            }
        }),
{
    let mode = Mode::Operator(operator);
    let row = text.cursor.0;
    let line = text.line();
    let selected = text.whole_line();
    lemma_whole_line(text);
    assert(command_of(mode, pending, input).aimed(mode, text) == selected) by {
        reveal(Command::aimed);
    }
    let after = selected.cut();
    if row + 1 < text.lines.len() {
        assert(selected.selection() == Some(((row, 0int), (row + 1, 0int))));
        let next = text.lines[row + 1];
        assert(line.take(0) + next.skip(0) =~= next);
        assert(after.lines =~= text.lines.remove(row));
        assert(line.skip(0) =~= line);
        assert(next.take(0) =~= Seq::<char>::empty());
        assert(between(text.lines, (row, 0), (row + 1, 0)) =~= seq![line, Seq::empty()]);
    } else if line.len() > 0 {
        lemma_cut_part(selected, row, 0, line.len() as int);
        assert(line.take(0) + line.skip(line.len() as int) =~= Seq::<char>::empty());
        assert(line.subrange(0, line.len() as int) =~= line);
    } else {
        assert(line =~= Seq::empty());
        assert(text.lines.update(row, Seq::empty()) =~= text.lines);
    }
}

/// `yy` yanks the line of the cursor, with its line break where a line follows, and hands it on.
pub proof fn law_yank_line(
    pending: Input,
    input: Input,
    clipboard: Option<Seq<char>>,
    text: TextState,
)
    requires
        input.is_bare('y'),
        text.wf(),
        text.layout.unwrapped(),
    ensures
        ({
            let after = effect(Mode::Operator('y'), pending, input, clipboard, text);
            let row = text.cursor.0;
            &&& after.text.lines == text.lines
            &&& row + 1 < text.lines.len() ==> {
                &&& after.text.yank == Yank::Chunk(seq![text.line(), Seq::empty()])
                &&& after.copied == Some(text.line().push('\n'))
            }
            &&& row + 1 == text.lines.len() && text.line().len() > 0 ==> {
                &&& after.text.yank == Yank::Piece(text.line())
                &&& after.copied == Some(text.line())
            }
        }),
{
    let mode = Mode::Operator('y');
    let row = text.cursor.0;
    let line = text.line();
    let selected = text.whole_line();
    lemma_whole_line(text);
    assert(command_of(mode, pending, input).aimed(mode, text) == selected) by {
        reveal(Command::aimed);
    }
    if row + 1 < text.lines.len() {
        let next = text.lines[row + 1];
        let pieces = seq![line, Seq::<char>::empty()];
        assert(line.skip(0) =~= line);
        assert(next.take(0) =~= Seq::<char>::empty());
        assert(between(text.lines, (row, 0), (row + 1, 0)) =~= pieces);
        assert(pieces.drop_last() =~= seq![line]);
        assert(joined(pieces) =~= line.push('\n')) by {
            reveal_with_fuel(joined, 2);
        }
    } else if line.len() > 0 {
        assert(line.subrange(0, line.len() as int) =~= line);
    }
}

/// What was cut is put back by pasting it.
proof fn lemma_cut_pasted(text: TextState)
    requires
        text.wf(),
        text.selection() is Some,
    ensures
        text.cut().pasted().lines == text.lines,
{
    let (start, end) = text.selection()->0;
    let pieces = between(text.lines, start, end);
    let cut = text.cut();
    lemma_put_back(text.lines, start, end);
    assert(pieces.len() > 0);
    assert(Yank::of(pieces).pieces() =~= pieces);
    assert(cut.erased() == cut);
    assert(cut.inserted(pieces).lines == text.lines);
}

/// `p` puts back what `d` has taken out, where it was: no text is lost.
pub proof fn law_delete_then_paste(
    pending: Input,
    input: Input,
    other: Input,
    paste: Input,
    clipboard: Option<Seq<char>>,
    text: TextState,
)
    requires
        ({
            let command = command_of(Mode::Operator('d'), pending, input);
            let selected = command.aimed(Mode::Operator('d'), text);
            &&& command.aims()
            &&& selected.wf()
            &&& selected.selection() is Some
        }),
        input.key != Key::Null,
        paste.is_bare('p'),
    ensures
        effect(
            Mode::Normal,
            other,
            paste,
            None,
            effect(Mode::Operator('d'), pending, input, clipboard, text).text,
        ).text.lines == text.lines,
{
    let mode = Mode::Operator('d');
    let selected = command_of(mode, pending, input).aimed(mode, text);
    lemma_increments_in_normal_mode(mode, pending, input);
    lemma_aimed_selects(command_of(mode, pending, input), mode, text);
    lemma_cut_pasted(selected);
    assert(Command::Paste.executed(Mode::Normal, None, selected.cut()) == selected.cut().pasted())
        by {
        reveal(Command::executed);
    }
}

/// Undoing a change that was recorded gives the text before it, and redoing it the text after it.
proof fn lemma_undo_redo(text: TextState, lines: Seq<Seq<char>>, from: (int, int), to: (int, int))
    requires
        text.history.wf(),
        text.history.limit > 0,
    ensures
        ({
            let after = text.changed(lines, from, to);
            &&& after.undone().lines == text.lines
            &&& after.undone().redone().lines == lines
        }),
{
    let change = Change { before: text.lines, from, after: lines, to };
    let history = text.history.recorded(change);
    assert(history.changes[history.done - 1] == change);
}

/// Where the text is changed, `u` gives the text before the change, and Ctrl-R then the text after
/// it, as long as changes are remembered at all.
pub proof fn law_undo_redo(
    mode: Mode,
    pending: Input,
    undo: Input,
    other: Input,
    redo: Input,
    clipboard: Option<Seq<char>>,
    text: TextState,
    lines: Seq<Seq<char>>,
    from: (int, int),
    to: (int, int),
)
    requires
        takes_commands(mode),
        undo.is_bare('u'),
        redo.key == Key::Char('r') && redo.ctrl,
        text.history.wf(),
        text.history.limit > 0,
    ensures
        ({
            let after = text.changed(lines, from, to);
            let undone = effect(mode, pending, undo, clipboard, after);
            let redone = effect(Mode::Normal, other, redo, clipboard, undone.text);
            &&& undone.text.lines == text.lines
            &&& undone.transition == Transition::Mode(Mode::Normal)
            &&& redone.text.lines == lines
            &&& redone.transition == Transition::Mode(Mode::Normal)
        }),
{
    let after = text.changed(lines, from, to);
    lemma_undo_redo(text, lines, from, to);
    assert(Command::Undo.executed(mode, clipboard, after) == after.undone()) by {
        reveal(Command::executed);
    }
    assert(Command::Redo.executed(Mode::Normal, clipboard, after.undone())
        == after.undone().redone()) by {
        reveal(Command::executed);
    }
}

/// `u` undoes what `d` and `c` have taken out with a motion or a text object, or as a line.
pub proof fn law_undo_delete(
    operator: char,
    pending: Input,
    input: Input,
    other: Input,
    undo: Input,
    clipboard: Option<Seq<char>>,
    text: TextState,
)
    requires
        operator == 'd' || operator == 'c',
        ({
            let command = command_of(Mode::Operator(operator), pending, input);
            let selected = command.aimed(Mode::Operator(operator), text);
            command.aims() && selected.selection() is Some
        }),
        input.key != Key::Null,
        undo.is_bare('u'),
        text.history.wf(),
        text.history.limit > 0,
    ensures
        effect(
            Mode::Normal,
            other,
            undo,
            clipboard,
            effect(Mode::Operator(operator), pending, input, clipboard, text).text,
        ).text.lines == text.lines,
{
    let mode = Mode::Operator(operator);
    let selected = command_of(mode, pending, input).aimed(mode, text);
    let (start, end) = selected.selection()->0;
    let cut = selected.cut();
    lemma_increments_in_normal_mode(mode, pending, input);
    lemma_aimed_selects(command_of(mode, pending, input), mode, text);
    lemma_undo_redo(selected.unanchored(), without(selected.lines, start, end), end, start);
    assert(cut.undone().lines == text.lines);
    assert(Command::Undo.executed(Mode::Normal, clipboard, cut) == cut.undone()) by {
        reveal(Command::executed);
    }
}

/// `u` undoes what was typed last in insert mode.
pub proof fn law_undo_typing(
    pending: Input,
    input: Input,
    c: char,
    other: Input,
    undo: Input,
    clipboard: Option<Seq<char>>,
    text: TextState,
)
    requires
        input.types(c),
        text.selection() is None,
        text.history.wf(),
        text.history.limit > 0,
        undo.is_bare('u'),
    ensures
        effect(
            Mode::Normal,
            other,
            undo,
            clipboard,
            effect(Mode::Insert, pending, input, clipboard, text).text,
        ).text.lines == text.lines,
{
    let typed = text.keyed(input);
    let pieces = if c == '\n' || c == '\r' {
        seq![Seq::empty(), Seq::empty()]
    } else {
        seq![seq![c]]
    };
    lemma_typing_key(text, input, c);
    assert(typed == text.unanchored().inserted(pieces));
    lemma_undo_redo(
        text.unanchored(),
        with(text.lines, text.cursor, pieces),
        text.cursor,
        behind(text.cursor, pieces),
    );
    assert(Command::Undo.executed(Mode::Normal, clipboard, typed) == typed.undone()) by {
        reveal(Command::executed);
    }
}

/// `i`, `a`, `A` and `I` move the cursor at most, end the selection, and lead to insert mode.
pub proof fn law_insert_commands(
    mode: Mode,
    pending: Input,
    input: Input,
    clipboard: Option<Seq<char>>,
    text: TextState,
)
    requires
        takes_commands(mode),
        input.key != Key::Null,
        ({
            let command = command_of(mode, pending, input);
            command is Insert || command is Append || command is AppendAtEnd
                || command is InsertAtHead
        }),
    ensures
        ({
            let after = effect(mode, pending, input, clipboard, text);
            let command = command_of(mode, pending, input);
            &&& after.text == (TextState { cursor: after.text.cursor, anchor: None, ..text })
            &&& command is Insert ==> after.text.cursor == text.cursor
            &&& command is InsertAtHead ==> after.text.cursor == (text.cursor.0, 0int)
            &&& command is AppendAtEnd ==> after.text.cursor == text.line_end()
            &&& command is Append ==> after.text.cursor == text.moved(Motion::Forward).cursor
            &&& after.transition == Transition::Mode(Mode::Insert)
            &&& after.copied is None
        }),
{
    let command = command_of(mode, pending, input);
    let place = match command {
        Command::Insert => text.cursor,
        Command::InsertAtHead => (text.cursor.0, 0),
        Command::AppendAtEnd => text.line_end(),
        _ => text.unanchored().moved(Motion::Forward).cursor,
    };
    assert(command.executed(mode, clipboard, text) == (TextState {
        cursor: place,
        anchor: None,
        ..text
    })) by {
        reveal(Command::executed);
    }
    lemma_moved_with_anchor(text, None, Motion::Forward);
}

/// `o` opens an empty line below the cursor's line, with the cursor on it, for inserting.
pub proof fn law_open_below(
    mode: Mode,
    pending: Input,
    input: Input,
    clipboard: Option<Seq<char>>,
    text: TextState,
)
    requires
        takes_commands(mode),
        input.is_bare('o'),
        text.wf(),
        text.anchor is None,
    ensures
        ({
            let after = effect(mode, pending, input, clipboard, text);
            let row = text.cursor.0;
            &&& after.text.lines == text.lines.insert(row + 1, Seq::empty())
            &&& after.text.cursor == (row + 1, 0int)
            &&& after.transition == Transition::Mode(Mode::Insert)
        }),
{
    let row = text.cursor.0;
    let line = text.line();
    let after = text.moved(Motion::End).broken();
    assert(Command::OpenBelow.executed(mode, clipboard, text) == after) by {
        reveal(Command::executed);
    }
    assert(line.take(line.len() as int) + Seq::<char>::empty() =~= line);
    assert(Seq::<char>::empty() + line.skip(line.len() as int) =~= Seq::<char>::empty());
    let pieces = seq![Seq::<char>::empty(), Seq::<char>::empty()];
    assert(pieces.subrange(1, 1) =~= Seq::empty());
    assert(after.lines == with(text.lines, text.line_end(), pieces));
    assert(after.lines =~= text.lines.insert(row + 1, Seq::empty()));
}

/// `O` opens an empty line above the cursor's line, with the cursor on it, for inserting.
pub proof fn law_open_above(
    mode: Mode,
    pending: Input,
    input: Input,
    clipboard: Option<Seq<char>>,
    text: TextState,
)
    requires
        takes_commands(mode),
        input.is_bare('O'),
        text.wf(),
        text.anchor is None,
        text.layout.unwrapped(),
    ensures
        ({
            let after = effect(mode, pending, input, clipboard, text);
            let row = text.cursor.0;
            &&& after.text.lines == text.lines.insert(row, Seq::empty())
            &&& after.text.cursor == (row, 0int)
            &&& after.transition == Transition::Mode(Mode::Insert)
        }),
{
    let row = text.cursor.0;
    let line = text.line();
    let opened = text.moved(Motion::Head).broken();
    let after = opened.moved(Motion::Up);
    assert(Command::OpenAbove.executed(mode, clipboard, text) == after) by {
        reveal(Command::executed);
    }
    assert(line.take(0) + Seq::<char>::empty() =~= Seq::<char>::empty());
    assert(Seq::<char>::empty() + line.skip(0) =~= line);
    let pieces = seq![Seq::<char>::empty(), Seq::<char>::empty()];
    assert(pieces.subrange(1, 1) =~= Seq::empty());
    assert(opened.lines == with(text.lines, (row, 0), pieces));
    assert(opened.lines =~= text.lines.insert(row, Seq::empty()));
    assert(opened.cursor == (row + 1, 0int));
    lemma_row_start(text.layout, opened.lines[row]);
}

/// `D` and `C` take out the rest of the line from the cursor on, and yank it.
pub proof fn law_delete_to_end(
    mode: Mode,
    pending: Input,
    input: Input,
    clipboard: Option<Seq<char>>,
    text: TextState,
)
    requires
        takes_commands(mode),
        input.is_bare('D') || input.is_bare('C'),
        text.wf(),
        text.selection() is None,
        text.cursor.1 < text.line().len(),
    ensures
        ({
            let after = effect(mode, pending, input, clipboard, text);
            let (row, col) = text.cursor;
            &&& after.text.lines == text.lines.update(row, text.line().take(col))
            &&& after.text.cursor == text.cursor
            &&& after.text.yank == Yank::Piece(text.line().skip(col))
            &&& after.text.anchor is None
            &&& after.transition == Transition::Mode(
                if input.is_bare('C') {
                    Mode::Insert
                } else {
                    Mode::Normal
                },
            )
        }),
{
    let (row, col) = text.cursor;
    let line = text.line();
    let after = text.deleted_to_end();
    assert(Command::DeleteToEnd.executed(mode, clipboard, text) == after) by {
        reveal(Command::executed);
    }
    assert(Command::ChangeToEnd.executed(mode, clipboard, text) == after.unanchored()) by {
        reveal(Command::executed);
    }
    lemma_without_part(text.lines, row, col, line.len() as int);
    assert(line.take(col) + line.skip(line.len() as int) =~= line.take(col));
}

/// `S` empties the cursor's line for inserting, and yanks what was on it.
pub proof fn law_substitute_line(
    mode: Mode,
    pending: Input,
    input: Input,
    clipboard: Option<Seq<char>>,
    text: TextState,
)
    requires
        takes_commands(mode),
        mode != Mode::Operator('S'),
        input.is_bare('S'),
        text.wf(),
        text.line().len() > 0,
    ensures
        ({
            let after = effect(mode, pending, input, clipboard, text);
            let row = text.cursor.0;
            &&& after.text.lines == text.lines.update(row, Seq::empty())
            &&& after.text.cursor == (row, 0int)
            &&& after.text.yank == Yank::Piece(text.line())
            &&& after.copied == Some(text.line())
            &&& after.transition == Transition::Mode(Mode::Insert)
        }),
{
    let row = text.cursor.0;
    let line = text.line();
    let selected = text.moved(Motion::Head).anchored().moved(Motion::End);
    assert(Command::Substitute.executed(mode, clipboard, text) == selected.cut()) by {
        reveal(Command::executed);
    }
    lemma_cut_part(selected, row, 0, line.len() as int);
    assert(line.take(0) + line.skip(line.len() as int) =~= Seq::<char>::empty());
    assert(line.subrange(0, line.len() as int) =~= line);
}

/// `X` cuts the character before the cursor, but in visual mode.
pub proof fn law_cut_before(
    mode: Mode,
    pending: Input,
    input: Input,
    clipboard: Option<Seq<char>>,
    text: TextState,
)
    requires
        mode is Normal || mode is Operator,
        input.is_bare('X'),
        text.wf(),
        text.cursor.1 > 0,
        text.moved(Motion::Back).cursor == (text.cursor.0, text.cursor.1 - 1),
    ensures
        ({
            let after = effect(mode, pending, input, clipboard, text);
            let (row, col) = text.cursor;
            let line = text.line();
            &&& after.text.lines == text.lines.update(row, line.remove(col - 1))
            &&& after.text.cursor == (row, col - 1)
            &&& after.text.yank == Yank::Piece(seq![line[col - 1]])
            &&& after.copied == Some(seq![line[col - 1]])
            &&& after.transition == Transition::Mode(Mode::Normal)
        }),
{
    let (row, col) = text.cursor;
    let line = text.line();
    let selected = text.anchored().moved(Motion::Back);
    lemma_moved_with_anchor(text, Some(text.cursor), Motion::Back);
    assert(Command::CutBefore.executed(mode, clipboard, text) == selected.cut()) by {
        reveal(Command::executed);
    }
    lemma_cut_part(selected, row, col - 1, col);
    assert(line.take(col - 1) + line.skip(col) =~= line.remove(col - 1));
    assert(line.subrange(col - 1, col) =~= seq![line[col - 1]]);
    assert(Yank::Piece(seq![line[col - 1]]).text() =~= seq![line[col - 1]]);
}

/// `p` puts the text of the clipboard, or else the yanked text, in at the cursor, line by line. The
/// text of the clipboard counts as yanked then.
pub proof fn law_paste(
    mode: Mode,
    pending: Input,
    input: Input,
    clipboard: Option<Seq<char>>,
    text: TextState,
)
    requires
        takes_commands(mode),
        input.is_bare('p'),
        text.selection() is None,
    ensures
        ({
            let after = effect(mode, pending, input, clipboard, text);
            let pieces = match clipboard {
                Some(copied) => lines_of(copied),
                None => text.yank.pieces(),
            };
            &&& after.text.yank == match clipboard {
                Some(copied) => Yank::of(lines_of(copied)),
                None => text.yank,
            }
            &&& pieces != seq![Seq::<char>::empty()] ==> {
                &&& after.text.lines == with(text.lines, text.cursor, pieces)
                &&& after.text.cursor == behind(text.cursor, pieces)
            }
            &&& pieces == seq![Seq::<char>::empty()] ==> {
                &&& after.text.lines == text.lines
                &&& after.text.cursor == text.cursor
            }
            &&& after.transition == Transition::Mode(Mode::Normal)
        }),
{
    let yanking = match clipboard {
        Some(copied) => text.yanking(copied),
        None => text,
    };
    assert(Command::Paste.executed(mode, clipboard, text) == yanking.pasted()) by {
        reveal(Command::executed);
    }
    let pieces = yanking.yank.pieces();
    if let Some(copied) = clipboard {
        assert(Yank::of(lines_of(copied)).pieces() =~= lines_of(copied));
    }
    if pieces.len() == 1 && pieces[0].len() == 0 {
        assert(pieces[0] =~= Seq::empty());
        assert(pieces =~= seq![Seq::<char>::empty()]);
    }
}

/// `W` never leads back, and `B` never forward. `W` stands still at the end of the text only, and
/// `B` at its start only.
pub proof fn law_big_words(
    mode: Mode,
    pending: Input,
    input: Input,
    clipboard: Option<Seq<char>>,
    text: TextState,
)
    requires
        mode is Normal || mode is Visual,
        input.is_bare('W') || input.is_bare('B'),
        !pending.is_bare('i'),
        text.wf(),
        input.is_bare('W') ==> text.reaches(text.big_word_ahead()),
        input.is_bare('B') ==> text.reaches(text.big_word_behind()),
    ensures
        ({
            let after = effect(mode, pending, input, clipboard, text).text;
            &&& input.is_bare('W') ==> {
                &&& after.cursor == text.big_word_ahead()
                &&& precedes(text.cursor, after.cursor) || (after.cursor == text.cursor
                    && text.cursor == text.line_end() && text.cursor.0 == text.lines.len() - 1)
            }
            &&& input.is_bare('B') ==> {
                &&& after.cursor == text.big_word_behind()
                &&& precedes(after.cursor, text.cursor) || (after.cursor == text.cursor
                    && text.cursor == (0int, 0int))
            }
        }),
{
    let (row, col) = text.cursor;
    let line = text.line();
    let begins = |i: int| big_word_begins(line, i);
    lemma_first_where(begins, least(col, line.len() as int) + 1, line.len() as int);
    lemma_last_where(begins, 0, least(col, line.len() as int));
    let place = if input.is_bare('W') {
        text.big_word_ahead()
    } else {
        text.big_word_behind()
    };
    assert(command_of(mode, pending, input).aimed(mode, text) == text.jumped(place)) by {
        reveal(Command::aimed);
    }
}

} // verus!
