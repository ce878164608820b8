//! What each key does where keys are commands, in every mode: where it leads, what it takes out of
//! the text, what it yanks and hands on, and which mode follows.

use crate::command::{command_of, Command, Transition};
use crate::find::least;
use crate::key::{Input, Key};
use crate::lemmas::{lemma_aimed_moves, lemma_plain_columns};
use crate::mode::Mode;
use crate::model::{
    all_printable, between, precedes, without, Motion, Scroll, TextState, Yank,
};
use crate::vim::{effect, takes_commands, Effect};
use vstd::prelude::*;

verus! {

/// The press of the key `c`, with or without Ctrl.
pub open spec fn presses(input: Input, c: char) -> bool {
    input.key == Key::Char(c)
}

/// The press of the key `c` with Ctrl.
pub open spec fn presses_ctrl(input: Input, c: char) -> bool {
    input.key == Key::Char(c) && input.ctrl
}

/// The text comes out as `after`, the mode stays, and nothing is handed on.
pub open spec fn only_moves(effect: Effect, after: TextState) -> bool {
    effect == (Effect { text: after, transition: Transition::Nop, copied: None })
}

/// In normal and visual mode `h`, `j`, `k`, `l` and the arrow keys move by one character or line,
/// with and without Ctrl.
pub proof fn law_character_keys(
    mode: Mode,
    pending: Input,
    input: Input,
    clipboard: Option<Seq<char>>,
    text: TextState,
)
    requires
        mode is Normal || mode is Visual,
    ensures
        ({
            let after = effect(mode, pending, input, clipboard, text);
            &&& presses(input, 'h') || input.key == Key::Left ==> only_moves(
                after,
                text.moved(Motion::Back),
            )
            &&& presses(input, 'j') || input.key == Key::Down ==> only_moves(
                after,
                text.moved(Motion::Down),
            )
            &&& presses(input, 'k') || input.key == Key::Up ==> only_moves(
                after,
                text.moved(Motion::Up),
            )
            &&& presses(input, 'l') || input.key == Key::Right ==> only_moves(
                after,
                text.moved(Motion::Forward),
            )
        }),
{
    lemma_moves(mode, pending, input, clipboard, text);
}

/// In normal and visual mode `w`, `e` and `b` move by words, `^`, `0` and `$` within the line, `gg`
/// and `G` to the first and the last line.
pub proof fn law_word_and_line_keys(
    mode: Mode,
    pending: Input,
    input: Input,
    clipboard: Option<Seq<char>>,
    text: TextState,
)
    requires
        mode is Normal || mode is Visual,
    ensures
        ({
            let after = effect(mode, pending, input, clipboard, text);
            let (row, col) = text.cursor;
            &&& presses_ctrl(input, 'w') || (input.is_bare('w') && (mode is Normal
                || !pending.is_bare('i'))) ==> only_moves(after, text.moved(Motion::WordForward))
            &&& input.is_bare('e') ==> only_moves(after, text.moved(Motion::WordEnd))
            &&& input.is_bare('b') ==> only_moves(after, text.moved(Motion::WordBack))
            &&& presses(input, '^') || presses(input, '0') ==> only_moves(
                after,
                text.with_cursor((row, 0)),
            )
            &&& presses(input, '$') ==> only_moves(
                after,
                text.with_cursor((row, text.lines[row].len() as int)),
            )
            &&& input.is_bare('g') && pending.is_bare('g') ==> only_moves(
                after,
                text.moved(Motion::Top),
            )
            &&& input.is_bare('G') ==> only_moves(after, text.moved(Motion::Bottom))
        }),
{
    lemma_moves(mode, pending, input, clipboard, text);
}

/// In normal and visual mode the keys that scroll do so: Ctrl with `e` and `y` by a line, with `d`
/// and `u` by half a page, with `f` and `b`, and the page keys, by a page.
pub proof fn law_scroll_keys(
    mode: Mode,
    pending: Input,
    input: Input,
    clipboard: Option<Seq<char>>,
    text: TextState,
)
    requires
        mode is Normal || mode is Visual,
    ensures
        ({
            let after = effect(mode, pending, input, clipboard, text);
            &&& presses_ctrl(input, 'e') ==> only_moves(after, text.scrolled(Scroll::Rows(1)))
            &&& presses_ctrl(input, 'y') ==> only_moves(
                after,
                text.scrolled(Scroll::Rows((-1) as i16)),
            )
            &&& presses_ctrl(input, 'd') ==> only_moves(after, text.scrolled(Scroll::HalfPageDown))
            &&& presses_ctrl(input, 'u') ==> only_moves(after, text.scrolled(Scroll::HalfPageUp))
            &&& presses_ctrl(input, 'f') || input.key == Key::PageDown ==> only_moves(
                after,
                text.scrolled(Scroll::PageDown),
            )
            &&& presses_ctrl(input, 'b') || input.key == Key::PageUp ==> only_moves(
                after,
                text.scrolled(Scroll::PageUp),
            )
        }),
{
    lemma_moves(mode, pending, input, clipboard, text);
}

/// A motion without an operator does what it is for, and nothing else.
proof fn lemma_moves(
    mode: Mode,
    pending: Input,
    input: Input,
    clipboard: Option<Seq<char>>,
    text: TextState,
)
    requires
        mode is Normal || mode is Visual,
    ensures
        match command_of(mode, pending, input) {
            Command::Move(motion) => only_moves(
                effect(mode, pending, input, clipboard, text),
                text.moved(motion),
            ),
            Command::Scroll(scroll) => only_moves(
                effect(mode, pending, input, clipboard, text),
                text.scrolled(scroll),
            ),
            _ => true,
        },
{
    let command = command_of(mode, pending, input);
    if command is Move || command is Scroll {
        assert(input.key != Key::Null);
        assert(command.aimed(mode, text) == match command {
            Command::Move(motion) => text.moved(motion),
            Command::Scroll(scroll) => text.scrolled(scroll),
            _ => text,
        }) by {
            reveal(Command::aimed);
        }
    }
}

/// The key moves the cursor or scrolls, in normal mode as behind an operator.
pub open spec fn is_motion_key(pending: Input, input: Input) -> bool {
    let bare = !input.ctrl;
    match input.key {
        Key::Left | Key::Right | Key::Up | Key::Down | Key::PageUp | Key::PageDown => true,
        Key::Char('h') | Key::Char('j') | Key::Char('k') | Key::Char('l') => true,
        Key::Char('^') | Key::Char('0') | Key::Char('$') => true,
        Key::Char('w') => input.ctrl || !pending.is_bare('i'),
        Key::Char('W') => bare && !pending.is_bare('i'),
        Key::Char('B') | Key::Char('G') => bare,
        Key::Char('b') => true,
        Key::Char('g') => bare && pending.is_bare('g'),
        Key::Char('e') | Key::Char('y') | Key::Char('d') | Key::Char('u') | Key::Char('f') =>
            input.ctrl,
        _ => false,
    }
}

/// Behind an operator a motion leads to where it leads in normal mode. Then `y` copies what is
/// selected and `d` and `c` cut it; `y` and `c` hand it on; `c` leads to insert mode, `y` and `d`
/// to normal mode. Any other operator does nothing.
pub proof fn law_motion_behind_operator(
    operator: char,
    pending: Input,
    input: Input,
    clipboard: Option<Seq<char>>,
    text: TextState,
)
    requires
        is_motion_key(pending, input),
    ensures
        ({
            let moved = effect(Mode::Normal, pending, input, clipboard, text).text;
            let after = effect(Mode::Operator(operator), pending, input, clipboard, text);
            &&& operator == 'y' ==> after == (Effect {
                text: moved.copied(),
                transition: Transition::Mode(Mode::Normal),
                copied: Some(moved.copied().yank.text()),
            })
            &&& operator == 'd' ==> after == (Effect {
                text: moved.cut(),
                transition: Transition::Mode(Mode::Normal),
                copied: None,
            })
            &&& operator == 'c' ==> after == (Effect {
                text: moved.cut(),
                transition: Transition::Mode(Mode::Insert),
                copied: Some(moved.cut().yank.text()),
            })
            &&& operator != 'y' && operator != 'd' && operator != 'c' ==> only_moves(after, moved)
        }),
{
    let mode = Mode::Operator(operator);
    let command = command_of(Mode::Normal, pending, input);
    lemma_motion_key(mode, pending, input);
    assert(command.aimed(mode, text) == command.aimed(Mode::Normal, text)) by {
        reveal(Command::aimed);
    }
}

/// A key that moves gives the same command in every mode.
proof fn lemma_motion_key(mode: Mode, pending: Input, input: Input)
    requires
        takes_commands(mode),
        is_motion_key(pending, input),
    ensures
        command_of(mode, pending, input) == command_of(Mode::Normal, pending, input),
        ({
            let command = command_of(mode, pending, input);
            command is Move || command is Scroll || command is BigWordForward
                || command is BigWordBack
        }),
{
}

/// What is cut or yanked by an operator and a motion key is what is between the place where the
/// operator was pressed and the place that the key leads to in normal mode.
pub proof fn law_operator_and_motion_key(
    operator: char,
    pending: Input,
    first: Input,
    other: Input,
    second: Input,
    clipboard: Option<Seq<char>>,
    text: TextState,
)
    requires
        operator == 'y' || operator == 'd' || operator == 'c',
        first.is_bare(operator),
        is_motion_key(other, second),
    ensures
        ({
            let mode = Mode::Operator(operator);
            let started = effect(Mode::Normal, pending, first, clipboard, text);
            let place = effect(
                Mode::Normal,
                other,
                second,
                clipboard,
                started.text,
            ).text.cursor;
            let after = effect(mode, other, second, clipboard, started.text);
            let (start, end) = if precedes(place, text.cursor) {
                (place, text.cursor)
            } else {
                (text.cursor, place)
            };
            &&& started == (Effect {
                text: text.anchored(),
                transition: Transition::Mode(mode),
                copied: None,
            })
            &&& after.text.anchor is None
            &&& place != text.cursor ==> {
                &&& after.text.yank == Yank::of(between(text.lines, start, end))
                &&& after.text.lines == if operator == 'y' {
                    text.lines
                } else {
                    without(text.lines, start, end)
                }
                &&& after.text.cursor == if operator == 'y' {
                    place
                } else {
                    start
                }
            }
            &&& place == text.cursor ==> after.text.lines == text.lines && after.text.yank
                == text.yank
        }),
{
    let anchored = text.anchored();
    assert(Command::Operate(operator).executed(Mode::Normal, clipboard, text) == anchored) by {
        reveal(Command::executed);
    }
    law_motion_behind_operator(operator, other, second, clipboard, anchored);
    let moved = effect(Mode::Normal, other, second, clipboard, anchored).text;
    lemma_motion_key(Mode::Normal, other, second);
    let command = command_of(Mode::Normal, other, second);
    lemma_aimed_moves(command, Mode::Normal, anchored);
    assert(moved == command.aimed(Mode::Normal, anchored));
}

/// The key leads to the row above.
pub open spec fn leads_up(input: Input) -> bool {
    presses(input, 'k') || input.key == Key::Up
}

/// The key leads to the row below.
pub open spec fn leads_down(input: Input) -> bool {
    presses(input, 'j') || input.key == Key::Down
}

/// The place in the given row that has the cursor's column or, where the row is shorter, its end.
pub open spec fn same_column(text: TextState, row: int) -> (int, int) {
    (row, least(text.cursor.1, text.lines[row].len() as int))
}

/// The cursor's line and the given row are unbroken and of printable ASCII, shown as it is.
pub open spec fn plain_rows(text: TextState, row: int) -> bool {
    &&& text.layout.unwrapped()
    &&& text.layout.mask is None
    &&& 0 <= row < text.lines.len()
    &&& all_printable(text.line())
    &&& all_printable(text.lines[row])
}

/// Between unbroken lines of printable ASCII a key up leads to the row above and a key down to the
/// row below, to the same column or to the end of that line. On the first line a key up does
/// nothing, and on the last line a key down.
pub proof fn law_rows_up_and_down(
    mode: Mode,
    pending: Input,
    input: Input,
    clipboard: Option<Seq<char>>,
    text: TextState,
)
    requires
        mode is Normal || mode is Visual,
        leads_up(input) || leads_down(input),
        text.wf(),
    ensures
        ({
            let after = effect(mode, pending, input, clipboard, text);
            let row = text.cursor.0;
            &&& leads_up(input) && plain_rows(text, row - 1) ==> only_moves(
                after,
                text.with_cursor(same_column(text, row - 1)),
            )
            &&& leads_down(input) && plain_rows(text, row + 1) ==> only_moves(
                after,
                text.with_cursor(same_column(text, row + 1)),
            )
            &&& leads_up(input) && text.layout.unwrapped() && row == 0 ==> only_moves(after, text)
            &&& leads_down(input) && text.layout.unwrapped() && row + 1 == text.lines.len()
                ==> only_moves(after, text)
        }),
{
    law_character_keys(mode, pending, input, clipboard, text);
    let (row, col) = text.cursor;
    if plain_rows(text, row - 1) {
        lemma_same_column(text, row - 1);
    }
    if plain_rows(text, row + 1) {
        lemma_same_column(text, row + 1);
    }
}

/// In lines of printable ASCII the column of the screen is the column of the line.
proof fn lemma_same_column(text: TextState, row: int)
    requires
        text.wf(),
        plain_rows(text, row),
    ensures
        (row, text.layout.column_near(
            text.lines[row],
            text.layout.screen_col(text.line(), text.cursor.1),
        )) == same_column(text, row),
{
    let line = text.lines[row];
    lemma_plain_columns(text.layout, text.line(), text.cursor.1);
    lemma_plain_columns(text.layout, line, line.len() as int);
    lemma_plain_columns(text.layout, line, least(text.cursor.1, line.len() as int));
}

/// Between unbroken lines of printable ASCII an operator and a key up work on what is between the
/// same column of the row above, or its end, and the cursor; an operator and a key down on what is
/// between the cursor and the same column of the row below, or its end.
pub proof fn law_operator_up_and_down(
    operator: char,
    pending: Input,
    first: Input,
    other: Input,
    second: Input,
    clipboard: Option<Seq<char>>,
    text: TextState,
)
    requires
        operator == 'y' || operator == 'd' || operator == 'c',
        first.is_bare(operator),
        leads_up(second) || leads_down(second),
        text.wf(),
        plain_rows(
            text,
            if leads_up(second) {
                text.cursor.0 - 1
            } else {
                text.cursor.0 + 1
            },
        ),
    ensures
        ({
            let started = effect(Mode::Normal, pending, first, clipboard, text);
            let after = effect(Mode::Operator(operator), other, second, clipboard, started.text);
            let row = text.cursor.0;
            let (start, end) = if leads_up(second) {
                (same_column(text, row - 1), text.cursor)
            } else {
                (text.cursor, same_column(text, row + 1))
            };
            &&& started.transition == Transition::Mode(Mode::Operator(operator))
            &&& after.text.yank == Yank::of(between(text.lines, start, end))
            &&& after.text.lines == if operator == 'y' {
                text.lines
            } else {
                without(text.lines, start, end)
            }
            &&& after.transition == Transition::Mode(
                if operator == 'c' {
                    Mode::Insert
                } else {
                    Mode::Normal
                },
            )
            &&& after.copied == if operator == 'd' {
                None
            } else {
                Some(after.text.yank.text())
            }
        }),
{
    let anchored = text.anchored();
    law_operator_and_motion_key(operator, pending, first, other, second, clipboard, text);
    law_rows_up_and_down(Mode::Normal, other, second, clipboard, anchored);
    law_motion_behind_operator(operator, other, second, clipboard, anchored);
}

} // verus!
