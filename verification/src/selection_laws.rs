//! What the commands do that start a selection or work on one.

use crate::chars::{kind_of, InnerWordKind};
use crate::command::{command_of, Command, Transition};
use crate::edit_laws::lemma_moved_with_anchor;
use crate::find::{last_where, lemma_first_where, lemma_last_where};
use crate::key::Input;
use crate::key_laws::{
    law_character_keys, law_motion_behind_operator, law_word_and_line_keys, presses,
};
use crate::mode::Mode;
use crate::model::{
    behind, between, lines_of, precedes, with, without, word_begins, Motion, TextState, Yank,
};
use crate::vim::{effect, takes_commands, Effect};
use vstd::prelude::*;

verus! {

/// The word that the character in column `col` of the line belongs to begins in column `begin`: it
/// is no white space, all characters from there on are of its kind, and the one before them is not.
pub open spec fn word_from(line: Seq<char>, begin: int, col: int) -> bool {
    &&& 0 <= begin <= col < line.len()
    &&& kind_of(line[col]) != InnerWordKind::Space
    &&& forall|i: int| begin <= i <= col ==> kind_of(#[trigger] line[i]) == kind_of(line[col])
    &&& begin == 0 || kind_of(line[begin - 1]) != kind_of(line[col])
}

/// Behind `d` and `y`, where the cursor is on a character of a word, `a` puts the cursor and the
/// start of the selection at the first character of that word, also where the cursor is on it
/// already. The operator waits on, and nothing else changes.
pub proof fn law_select_word(
    operator: char,
    pending: Input,
    input: Input,
    clipboard: Option<Seq<char>>,
    text: TextState,
    begin: int,
)
    requires
        operator == 'd' || operator == 'y',
        input.is_bare('a'),
        text.wf(),
        word_from(text.line(), begin, text.cursor.1),
        text.moved(Motion::Forward).cursor == (text.cursor.0, text.cursor.1 + 1),
    ensures
        effect(Mode::Operator(operator), pending, input, clipboard, text) == (Effect {
            text: TextState {
                cursor: (text.cursor.0, begin),
                anchor: Some((text.cursor.0, begin)),
                ..text
            },
            transition: Transition::Nop,
            copied: None,
        }),
{
    let (row, col) = text.cursor;
    let line = text.line();
    let mode = Mode::Operator(operator);
    let free = text.unanchored();
    let stepped = free.moved(Motion::Forward);
    lemma_moved_with_anchor(text, None, Motion::Forward);
    assert(stepped == free.with_cursor((row, col + 1)));
    let begins = |i: int| word_begins(line, i);
    lemma_last_where(begins, 0, col + 1);
    assert(word_begins(line, begin));
    assert(begins(begin));
    let found = last_where(begins, 0, col + 1)->0;
    assert(begins(found));
    if found > begin {
        assert(kind_of(line[found - 1]) == kind_of(line[col]));
        assert(kind_of(line[found]) == kind_of(line[col]));
    }
    let back = stepped.moved(Motion::WordBack);
    assert(back == free.with_cursor((row, begin)));
    assert(Command::SelectWord.executed(mode, clipboard, text) == back.anchored()) by {
        reveal(Command::executed);
    }
}

/// `daw` and `yaw` work on what is between the first character of the word that the cursor is on
/// and the place that `w` leads to from there.
pub proof fn law_a_word(
    operator: char,
    pending: Input,
    a: Input,
    other: Input,
    w: Input,
    clipboard: Option<Seq<char>>,
    text: TextState,
    begin: int,
)
    requires
        operator == 'd' || operator == 'y',
        a.is_bare('a'),
        w.is_bare('w'),
        !other.is_bare('i'),
        text.wf(),
        word_from(text.line(), begin, text.cursor.1),
        text.moved(Motion::Forward).cursor == (text.cursor.0, text.cursor.1 + 1),
    ensures
        ({
            let mode = Mode::Operator(operator);
            let started = effect(mode, pending, a, clipboard, text);
            let after = effect(mode, other, w, clipboard, started.text);
            let start = (text.cursor.0, begin);
            let end = text.with_cursor(start).moved(Motion::WordForward).cursor;
            &&& precedes(start, end)
            &&& after.text.lines == if operator == 'd' {
                without(text.lines, start, end)
            } else {
                text.lines
            }
            &&& after.text.yank == Yank::of(between(text.lines, start, end))
            &&& after.text.anchor is None
            &&& after.transition == Transition::Mode(Mode::Normal)
        }),
{
    let mode = Mode::Operator(operator);
    law_select_word(operator, pending, a, clipboard, text, begin);
    let started = effect(mode, pending, a, clipboard, text).text;
    law_motion_behind_operator(operator, other, w, clipboard, started);
    law_word_and_line_keys(Mode::Normal, other, w, clipboard, started);
    let start = (text.cursor.0, begin);
    let line = text.line();
    let begins = |i: int| word_begins(line, i);
    lemma_first_where(begins, begin + 1, line.len() as int);
    lemma_moved_with_anchor(text.with_cursor(start), Some(start), Motion::WordForward);
}

/// Wherever the cursor is, `a` behind `d` and `y` puts it and the start of the selection where `b`
/// leads to from the place that `l` leads to.
pub proof fn law_select_word_from_anywhere(
    operator: char,
    pending: Input,
    input: Input,
    clipboard: Option<Seq<char>>,
    text: TextState,
)
    requires
        operator == 'd' || operator == 'y',
        input.is_bare('a'),
    ensures
        ({
            let after = effect(Mode::Operator(operator), pending, input, clipboard, text);
            let place = text.moved(Motion::Forward).moved(Motion::WordBack).cursor;
            after == (Effect {
                text: TextState { cursor: place, anchor: Some(place), ..text },
                transition: Transition::Nop,
                copied: None,
            })
        }),
{
    let mode = Mode::Operator(operator);
    lemma_moved_with_anchor(text, None, Motion::Forward);
    let ahead = text.moved(Motion::Forward);
    lemma_moved_with_anchor(ahead, None, Motion::WordBack);
    let back = text.unanchored().moved(Motion::Forward).moved(Motion::WordBack);
    assert(Command::SelectWord.executed(mode, clipboard, text) == back.anchored()) by {
        reveal(Command::executed);
    }
}

/// Where text is selected, `p` takes what is between the start and the end of the selection out of
/// the lines, and puts the text of the clipboard, or else the yanked text, in at its start.
pub proof fn law_paste_over_selection(
    mode: Mode,
    pending: Input,
    input: Input,
    clipboard: Option<Seq<char>>,
    text: TextState,
)
    requires
        takes_commands(mode),
        presses(input, 'p'),
        text.anchor is Some,
        text.anchor->0 != text.cursor,
    ensures
        ({
            let after = effect(mode, pending, input, clipboard, text);
            let anchor = text.anchor->0;
            let (start, end) = if precedes(anchor, text.cursor) {
                (anchor, text.cursor)
            } else {
                (text.cursor, anchor)
            };
            let rest = without(text.lines, start, end);
            let pieces = match clipboard {
                Some(copied) => lines_of(copied),
                None => text.yank.pieces(),
            };
            let empty = pieces == seq![Seq::<char>::empty()];
            &&& after.text.lines == if empty {
                rest
            } else {
                with(rest, start, pieces)
            }
            &&& after.text.cursor == if empty {
                start
            } else {
                behind(start, pieces)
            }
            &&& after.text.anchor is None
            &&& after.text.yank == match clipboard {
                Some(copied) => Yank::of(lines_of(copied)),
                None => text.yank,
            }
            &&& after.transition == Transition::Mode(Mode::Normal)
            &&& after.copied is None
            &&& after.text == (TextState { yank: after.text.yank, ..text }).pasted()
        }),
{
    let yanking = match clipboard {
        Some(copied) => text.yanking(copied),
        None => text,
    };
    assert(Command::Paste.executed(mode, clipboard, text) == yanking.pasted()) by {
        reveal(Command::executed);
    }
    lemma_pieces(clipboard, text);
}

/// What is pasted, line by line, is empty where its one line is.
proof fn lemma_pieces(clipboard: Option<Seq<char>>, text: TextState)
    ensures
        ({
            let pieces = match clipboard {
                Some(copied) => lines_of(copied),
                None => text.yank.pieces(),
            };
            &&& clipboard matches Some(copied) ==> text.yanking(copied).yank.pieces() == pieces
            &&& pieces.len() == 1 && pieces[0].len() == 0 <==> pieces == seq![Seq::<char>::empty()]
        }),
{
    let pieces = match clipboard {
        Some(copied) => lines_of(copied),
        None => text.yank.pieces(),
    };
    if let Some(copied) = clipboard {
        assert(Yank::of(lines_of(copied)).pieces() =~= lines_of(copied));
    }
    if pieces.len() == 1 && pieces[0].len() == 0 {
        assert(pieces[0] =~= Seq::empty());
        assert(pieces =~= seq![Seq::<char>::empty()]);
    }
}

/// Where nothing is selected, `p` puts the text of the clipboard, or else the yanked text, in at
/// the cursor.
pub proof fn law_paste_at_cursor(
    mode: Mode,
    pending: Input,
    input: Input,
    clipboard: Option<Seq<char>>,
    text: TextState,
)
    requires
        takes_commands(mode),
        presses(input, 'p'),
        text.anchor is None || text.anchor == Some(text.cursor),
    ensures
        ({
            let after = effect(mode, pending, input, clipboard, text);
            let pieces = match clipboard {
                Some(copied) => lines_of(copied),
                None => text.yank.pieces(),
            };
            let empty = pieces == seq![Seq::<char>::empty()];
            &&& after.text.lines == if empty {
                text.lines
            } else {
                with(text.lines, text.cursor, pieces)
            }
            &&& after.text.cursor == if empty {
                text.cursor
            } else {
                behind(text.cursor, pieces)
            }
            &&& after.text.anchor is None
            &&& after.text.yank == match clipboard {
                Some(copied) => Yank::of(lines_of(copied)),
                None => text.yank,
            }
            &&& after.transition == Transition::Mode(Mode::Normal)
            &&& after.copied is None
            &&& after.text == (TextState { yank: after.text.yank, ..text }).pasted()
        }),
{
    let yanking = match clipboard {
        Some(copied) => text.yanking(copied),
        None => text,
    };
    assert(Command::Paste.executed(mode, clipboard, text) == yanking.pasted()) by {
        reveal(Command::executed);
    }
    lemma_pieces(clipboard, text);
}

/// The key works on a selection as far as the character under the cursor: `y`, `d` and `c` in
/// visual mode, and `x` in every mode, but with Ctrl in normal mode.
pub open spec fn works_on_selection(mode: Mode, input: Input) -> bool {
    ||| mode is Visual && (input.is_bare('y') || input.is_bare('d') || input.is_bare('c'))
    ||| takes_commands(mode) && input.is_bare('x')
    ||| (mode is Visual || mode is Operator) && presses(input, 'x')
}

/// What comes of a key that works on the text from `start` to `end`: `y` yanks it, the other keys
/// cut it; all but `d` hand it on; `c` leads to insert mode, the others to normal mode.
pub open spec fn worked_on(
    input: Input,
    after: Effect,
    text: TextState,
    start: (int, int),
    end: (int, int),
) -> bool {
    let yanks = presses(input, 'y');
    &&& after.text.lines == if yanks || start == end {
        text.lines
    } else {
        without(text.lines, start, end)
    }
    &&& after.text.yank == if start == end {
        text.yank
    } else {
        Yank::of(between(text.lines, start, end))
    }
    &&& !yanks ==> after.text.cursor == start
    &&& after.text.anchor is None
    &&& after.transition == Transition::Mode(
        if presses(input, 'c') {
            Mode::Insert
        } else {
            Mode::Normal
        },
    )
    &&& after.copied == if presses(input, 'd') {
        None
    } else {
        Some(after.text.yank.text())
    }
}

/// A selection that reaches back is worked on as it is.
pub proof fn law_selection_back(
    mode: Mode,
    pending: Input,
    input: Input,
    clipboard: Option<Seq<char>>,
    text: TextState,
)
    requires
        works_on_selection(mode, input),
        text.anchor is Some,
        precedes(text.cursor, text.anchor->0),
    ensures
        worked_on(
            input,
            effect(mode, pending, input, clipboard, text),
            text,
            text.cursor,
            text.anchor->0,
        ),
        effect(mode, pending, input, clipboard, text).text == if presses(input, 'y') {
            text.copied()
        } else {
            text.cut()
        },
{
    lemma_worked_on(mode, pending, input, clipboard, text);
}

/// A selection that reaches forward is worked on up to the place that `l` leads to from the cursor:
/// the character under the cursor is part of it.
pub proof fn law_selection_forward(
    mode: Mode,
    pending: Input,
    input: Input,
    clipboard: Option<Seq<char>>,
    text: TextState,
    l: Input,
)
    requires
        works_on_selection(mode, input),
        l.is_bare('l'),
        text.anchor is Some,
        !precedes(text.cursor, text.anchor->0),
    ensures
        ({
            let ahead = effect(Mode::Normal, pending, l, clipboard, text).text.cursor;
            let after = effect(mode, pending, input, clipboard, text);
            &&& !precedes(ahead, text.anchor->0) ==> worked_on(
                input,
                after,
                text,
                text.anchor->0,
                ahead,
            )
            &&& after.text == if presses(input, 'y') {
                text.with_cursor(ahead).copied()
            } else {
                text.with_cursor(ahead).cut()
            }
        }),
{
    lemma_worked_on(mode, pending, input, clipboard, text);
    law_character_keys(Mode::Normal, pending, l, clipboard, text);
    lemma_moved_with_anchor(text, text.anchor, Motion::Forward);
}

/// A selection that reaches forward to the end of a line that another line follows is worked on up
/// to the start of that next line, on however many lines it is. At the end of the last line it is
/// worked on up to there.
pub proof fn law_selection_to_line_end(
    mode: Mode,
    pending: Input,
    input: Input,
    clipboard: Option<Seq<char>>,
    text: TextState,
)
    requires
        works_on_selection(mode, input),
        text.wf(),
        text.anchor is Some,
        !precedes(text.cursor, text.anchor->0),
        text.cursor.1 == text.line().len(),
    ensures
        ({
            let after = effect(mode, pending, input, clipboard, text);
            let row = text.cursor.0;
            worked_on(
                input,
                after,
                text,
                text.anchor->0,
                if row + 1 < text.lines.len() {
                    (row + 1, 0)
                } else {
                    text.cursor
                },
            )
        }),
{
    lemma_worked_on(mode, pending, input, clipboard, text);
}

/// A selection that reaches forward to a character that a step forward passes over is worked on up
/// to behind that character.
pub proof fn law_selection_to_character(
    mode: Mode,
    pending: Input,
    input: Input,
    clipboard: Option<Seq<char>>,
    text: TextState,
)
    requires
        works_on_selection(mode, input),
        text.wf(),
        text.anchor is Some,
        !precedes(text.cursor, text.anchor->0),
        text.layout.steps_forward(text.line(), text.cursor.1),
    ensures
        worked_on(
            input,
            effect(mode, pending, input, clipboard, text),
            text,
            text.anchor->0,
            (text.cursor.0, text.cursor.1 + 1),
        ),
{
    lemma_worked_on(mode, pending, input, clipboard, text);
}

/// Keys that work on a selection take in the character under the cursor, unless it reaches back.
proof fn lemma_worked_on(
    mode: Mode,
    pending: Input,
    input: Input,
    clipboard: Option<Seq<char>>,
    text: TextState,
)
    requires
        works_on_selection(mode, input),
        text.anchor is Some,
    ensures
        ({
            let after = effect(mode, pending, input, clipboard, text);
            let ahead = text.moved(Motion::Forward).cursor;
            let selected = if precedes(text.cursor, text.anchor->0) {
                text
            } else {
                text.with_cursor(ahead)
            };
            &&& after.text == if presses(input, 'y') {
                selected.copied()
            } else {
                selected.cut()
            }
            &&& after.transition == Transition::Mode(
                if presses(input, 'c') {
                    Mode::Insert
                } else {
                    Mode::Normal
                },
            )
            &&& after.copied == if presses(input, 'd') {
                None
            } else {
                Some(after.text.yank.text())
            }
        }),
{
    let selected = text.included();
    lemma_moved_with_anchor(text, text.anchor, Motion::Forward);
    let command = command_of(mode, pending, input);
    assert(command.executed(mode, clipboard, text) == if presses(input, 'y') {
        selected.copied()
    } else {
        selected.cut()
    }) by {
        reveal(Command::executed);
    }
}

/// In visual mode without a selection `y`, `d` and `c` leave the text and what is yanked as they
/// are.
pub proof fn law_visual_without_selection(
    pending: Input,
    input: Input,
    clipboard: Option<Seq<char>>,
    text: TextState,
)
    requires
        input.is_bare('y') || input.is_bare('d') || input.is_bare('c'),
        text.anchor is None,
    ensures
        effect(Mode::Visual, pending, input, clipboard, text) == (Effect {
            text,
            transition: Transition::Mode(
                if input.is_bare('c') {
                    Mode::Insert
                } else {
                    Mode::Normal
                },
            ),
            copied: if input.is_bare('d') {
                None
            } else {
                Some(text.yank.text())
            },
        }),
{
    let command = command_of(Mode::Visual, pending, input);
    assert(command.executed(Mode::Visual, clipboard, text) == text) by {
        reveal(Command::executed);
    }
}

/// Without a selection `x` cuts what is between the cursor and the place that `l` leads to: the
/// character under the cursor or, at the end of a line, its line break.
pub proof fn law_cut_under_cursor(
    mode: Mode,
    pending: Input,
    input: Input,
    clipboard: Option<Seq<char>>,
    text: TextState,
)
    requires
        takes_commands(mode),
        input.is_bare('x') || (!(mode is Normal) && presses(input, 'x')),
        text.wf(),
        text.anchor is None,
    ensures
        ({
            let after = effect(mode, pending, input, clipboard, text);
            let ahead = text.moved(Motion::Forward).cursor;
            &&& !precedes(ahead, text.cursor) ==> worked_on(
                input,
                after,
                text,
                text.cursor,
                ahead,
            )
            &&& text.cursor.1 == text.line().len() && text.cursor.0 + 1 < text.lines.len()
                ==> worked_on(input, after, text, text.cursor, (text.cursor.0 + 1, 0))
            &&& after.text == (TextState {
                anchor: Some(text.cursor),
                cursor: ahead,
                ..text
            }).cut()
        }),
{
    let selected = text.anchored().included();
    lemma_moved_with_anchor(text, Some(text.cursor), Motion::Forward);
    assert(Command::Cut.executed(mode, clipboard, text) == selected.cut()) by {
        reveal(Command::executed);
    }
}

} // verus!
