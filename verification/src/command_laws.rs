//! What the keys do that edit, insert, select and wait, where keys are commands.

use crate::command::{command_of, Command, Transition};
use crate::edit_laws::{lemma_cut_part, lemma_moved_with_anchor};
use crate::key::{Input, Key};
use crate::key_laws::{is_motion_key, only_moves, presses, presses_ctrl};
use crate::lemmas::lemma_without_part;
use crate::mode::Mode;
use crate::model::{between, precedes, without, Motion, Scroll, TextState, Yank};
use crate::vim::{accepts, effect, takes_commands, Effect};
use vstd::prelude::*;

verus! {

/// `D` and `C` take out what is selected. Where nothing is, they take out and yank the rest of the
/// line and, at the end of a line, the line break, which is not yanked. At the end of the text
/// there is nothing to take out. `C` leads to insert mode, `D` to normal mode.
pub proof fn law_rest_of_line(
    mode: Mode,
    pending: Input,
    input: Input,
    clipboard: Option<Seq<char>>,
    text: TextState,
)
    requires
        takes_commands(mode),
        presses(input, 'D') || presses(input, 'C'),
        text.wf(),
    ensures
        ({
            let after = effect(mode, pending, input, clipboard, text);
            let (row, col) = text.cursor;
            let line = text.lines[row];
            let selects = text.anchor is Some && text.anchor->0 != text.cursor;
            &&& selects ==> {
                let anchor = text.anchor->0;
                let (start, end) = if precedes(anchor, text.cursor) {
                    (anchor, text.cursor)
                } else {
                    (text.cursor, anchor)
                };
                &&& after.text.lines == without(text.lines, start, end)
                &&& after.text.cursor == start
                &&& after.text.yank == text.yank
            }
            &&& !selects ==> after.text.cursor == text.cursor
            &&& !selects && col < line.len() ==> {
                &&& after.text.lines == text.lines.update(row, line.take(col))
                &&& after.text.yank == Yank::Piece(line.skip(col))
            }
            &&& !selects && col == line.len() ==> {
                &&& after.text.lines == if row + 1 < text.lines.len() {
                    without(text.lines, text.cursor, (row + 1, 0))
                } else {
                    text.lines
                }
                &&& after.text.yank == text.yank
            }
            &&& after.text.anchor is None
            &&& after.transition == Transition::Mode(
                if presses(input, 'C') {
                    Mode::Insert
                } else {
                    Mode::Normal
                },
            )
            &&& after.copied is None
            &&& after.text == text.deleted_to_end()
        }),
{
    let (row, col) = text.cursor;
    let line = text.line();
    let after = text.deleted_to_end();
    assert(Command::DeleteToEnd.executed(mode, clipboard, text) == after) by {
        reveal(Command::executed);
    }
    assert(Command::ChangeToEnd.executed(mode, clipboard, text) == after.unanchored()) by {
        reveal(Command::executed);
    }
    lemma_without_part(text.lines, row, col, line.len() as int);
    assert(line.take(col) + line.skip(line.len() as int) =~= line.take(col));
}

/// The key inserts at the cursor: `i` in normal mode, and with Ctrl in every mode.
pub open spec fn inserts(mode: Mode, input: Input) -> bool {
    presses_ctrl(input, 'i') || (mode is Normal && input.is_bare('i'))
}

/// The key inserts behind the cursor: `a`, but behind `d` and `y`, and with Ctrl in every mode but
/// normal mode.
pub open spec fn appends(mode: Mode, input: Input) -> bool {
    ||| input.is_bare('a') && mode != Mode::Operator('d') && mode != Mode::Operator('y')
    ||| presses_ctrl(input, 'a') && !(mode is Normal)
}

/// `i` inserts at the cursor, `a` at the place that `l` leads to, `I` in column 0 and `A` at the
/// end of the line. The selection ends, and nothing else changes.
pub proof fn law_insert_keys(
    mode: Mode,
    pending: Input,
    input: Input,
    clipboard: Option<Seq<char>>,
    text: TextState,
)
    requires
        takes_commands(mode),
    ensures
        ({
            let after = effect(mode, pending, input, clipboard, text);
            let row = text.cursor.0;
            &&& inserts(mode, input) ==> insert_at(after, text, text.cursor)
            &&& appends(mode, input) ==> insert_at(
                after,
                text,
                text.moved(Motion::Forward).cursor,
            )
            &&& presses(input, 'I') ==> insert_at(after, text, (row, 0))
            &&& presses(input, 'A') ==> insert_at(
                after,
                text,
                (row, text.lines[row].len() as int),
            )
        }),
{
    let free = text.unanchored();
    lemma_moved_with_anchor(text, None, Motion::Forward);
    assert(Command::Insert.executed(mode, clipboard, text) == free) by {
        reveal(Command::executed);
    }
    assert(Command::Append.executed(mode, clipboard, text) == free.moved(Motion::Forward)) by {
        reveal(Command::executed);
    }
    assert(Command::InsertAtHead.executed(mode, clipboard, text) == free.moved(Motion::Head)) by {
        reveal(Command::executed);
    }
    assert(Command::AppendAtEnd.executed(mode, clipboard, text) == free.moved(Motion::End)) by {
        reveal(Command::executed);
    }
}

/// Insert mode follows, with the cursor at `place` and nothing selected.
pub open spec fn insert_at(after: Effect, text: TextState, place: (int, int)) -> bool {
    after == (Effect {
        text: TextState { cursor: place, anchor: None, ..text },
        transition: Transition::Mode(Mode::Insert),
        copied: None,
    })
}

/// `a` leads over the character under the cursor, where a step does, and from the end of a line to
/// the start of the next one. At the end of the text it stays.
pub proof fn law_append(
    mode: Mode,
    pending: Input,
    input: Input,
    clipboard: Option<Seq<char>>,
    text: TextState,
)
    requires
        takes_commands(mode),
        appends(mode, input),
        text.wf(),
    ensures
        ({
            let after = effect(mode, pending, input, clipboard, text);
            let (row, col) = text.cursor;
            let len = text.lines[row].len();
            &&& text.layout.steps_forward(text.line(), col) ==> insert_at(
                after,
                text,
                (row, col + 1),
            )
            &&& col == len && row + 1 < text.lines.len() ==> insert_at(after, text, (row + 1, 0))
            &&& col == len && row + 1 == text.lines.len() ==> insert_at(after, text, text.cursor)
        }),
{
    law_insert_keys(mode, pending, input, clipboard, text);
}

/// `o` breaks the line at its end, and `O` at its start, from where it goes up to the new line.
/// What is selected as far as there is taken out.
pub proof fn law_open_keys(
    mode: Mode,
    pending: Input,
    input: Input,
    clipboard: Option<Seq<char>>,
    text: TextState,
)
    requires
        takes_commands(mode),
    ensures
        ({
            let after = effect(mode, pending, input, clipboard, text);
            let row = text.cursor.0;
            let end = (row, text.lines[row].len() as int);
            &&& presses(input, 'o') ==> after == (Effect {
                text: text.with_cursor(end).broken(),
                transition: Transition::Mode(Mode::Insert),
                copied: None,
            })
            &&& presses(input, 'O') ==> after == (Effect {
                text: text.with_cursor((row, 0)).broken().moved(Motion::Up),
                transition: Transition::Mode(Mode::Insert),
                copied: None,
            })
        }),
{
    let row = text.cursor.0;
    let below = text.moved(Motion::End).broken();
    let above = text.moved(Motion::Head).broken().moved(Motion::Up);
    assert(text.moved(Motion::End) == text.with_cursor(text.line_end()));
    assert(text.moved(Motion::Head) == text.with_cursor((row, 0)));
    assert(Command::OpenBelow.executed(mode, clipboard, text) == below) by {
        reveal(Command::executed);
    }
    assert(Command::OpenAbove.executed(mode, clipboard, text) == above) by {
        reveal(Command::executed);
    }
}

/// In normal mode `y`, `d` and `c` start a selection at the cursor and wait for what to work on,
/// and `v` starts one in visual mode. Nothing else changes.
pub proof fn law_starting_keys(
    pending: Input,
    input: Input,
    operator: char,
    clipboard: Option<Seq<char>>,
    text: TextState,
)
    requires
        operator == 'y' || operator == 'd' || operator == 'c' || operator == 'v',
        input.is_bare(operator),
    ensures
        effect(Mode::Normal, pending, input, clipboard, text) == (Effect {
            text: TextState { anchor: Some(text.cursor), ..text },
            transition: Transition::Mode(
                if operator == 'v' {
                    Mode::Visual
                } else {
                    Mode::Operator(operator)
                },
            ),
            copied: None,
        }),
{
    assert(Command::Operate(operator).executed(Mode::Normal, clipboard, text) == text.anchored())
        by {
        reveal(Command::executed);
    }
    assert(Command::StartVisual.executed(Mode::Normal, clipboard, text) == text.anchored()) by {
        reveal(Command::executed);
    }
}

/// Esc where keys are commands, and `v` and Ctrl-C in visual mode, end the selection and lead to
/// normal mode. Nothing else changes.
pub proof fn law_leaving_keys(
    mode: Mode,
    pending: Input,
    input: Input,
    clipboard: Option<Seq<char>>,
    text: TextState,
)
    requires
        takes_commands(mode),
        input.key == Key::Esc || (mode is Visual && (input.is_bare('v') || presses_ctrl(
            input,
            'c',
        ))),
    ensures
        effect(mode, pending, input, clipboard, text) == (Effect {
            text: TextState { anchor: None, ..text },
            transition: Transition::Mode(Mode::Normal),
            copied: None,
        }),
{
    assert(Command::Leave.executed(mode, clipboard, text) == text.unanchored()) by {
        reveal(Command::executed);
    }
}

/// `u` undoes, Ctrl-R does again what was undone, both leading to normal mode, and `r` waits in
/// replace mode for a character, with the text as it is.
pub proof fn law_history_and_replace_keys(
    mode: Mode,
    pending: Input,
    input: Input,
    clipboard: Option<Seq<char>>,
    text: TextState,
)
    requires
        takes_commands(mode),
    ensures
        ({
            let after = effect(mode, pending, input, clipboard, text);
            &&& input.is_bare('u') ==> after == (Effect {
                text: text.undone(),
                transition: Transition::Mode(Mode::Normal),
                copied: None,
            })
            &&& presses_ctrl(input, 'r') ==> after == (Effect {
                text: text.redone(),
                transition: Transition::Mode(Mode::Normal),
                copied: None,
            })
            &&& input.is_bare('r') ==> after == (Effect {
                text,
                transition: Transition::Mode(Mode::Replace),
                copied: None,
            })
        }),
{
    assert(Command::Undo.executed(mode, clipboard, text) == text.undone()) by {
        reveal(Command::executed);
    }
    assert(Command::Redo.executed(mode, clipboard, text) == text.redone()) by {
        reveal(Command::executed);
    }
    assert(Command::Replace.executed(mode, clipboard, text) == text) by {
        reveal(Command::executed);
    }
}

/// `S` for inserting, and `X` in visual mode, take out and yank what is on the cursor's line, hand
/// it on, and leave the cursor in column 0. On an empty line nothing is taken out.
pub proof fn law_emptying_keys(
    mode: Mode,
    pending: Input,
    input: Input,
    clipboard: Option<Seq<char>>,
    text: TextState,
)
    requires
        takes_commands(mode),
        (input.is_bare('S') && mode != Mode::Operator('S')) || (presses(input, 'X')
            && mode is Visual),
        text.wf(),
    ensures
        ({
            let after = effect(mode, pending, input, clipboard, text);
            let row = text.cursor.0;
            let line = text.lines[row];
            &&& after.text.lines == text.lines.update(row, Seq::empty())
            &&& after.text.cursor == (row, 0int)
            &&& after.text.anchor is None
            &&& after.text.yank == if line.len() > 0 {
                Yank::Piece(line)
            } else {
                text.yank
            }
            &&& after.copied == Some(after.text.yank.text())
            &&& after.transition == Transition::Mode(
                if presses(input, 'S') {
                    Mode::Insert
                } else {
                    Mode::Normal
                },
            )
            &&& after.text == (TextState {
                anchor: Some((row, 0)),
                cursor: (row, line.len() as int),
                ..text
            }).cut()
        }),
{
    let row = text.cursor.0;
    let line = text.line();
    let selected = text.moved(Motion::Head).anchored().moved(Motion::End);
    assert(Command::Substitute.executed(mode, clipboard, text) == selected.cut()) by {
        reveal(Command::executed);
    }
    assert(mode is Visual ==> Command::CutBefore.executed(mode, clipboard, text)
        == selected.cut()) by {
        reveal(Command::executed);
    }
    if line.len() > 0 {
        lemma_cut_part(selected, row, 0, line.len() as int);
        assert(line.take(0) + line.skip(line.len() as int) =~= Seq::<char>::empty());
        assert(line.subrange(0, line.len() as int) =~= line);
    } else {
        assert(line =~= Seq::empty());
        assert(text.lines.update(row, Seq::empty()) =~= text.lines);
    }
}

/// `X`, but in visual mode, cuts what is between the place that `h` leads to and the cursor, hands
/// it on, and leads to normal mode: the character before the cursor or, in column 0, the line break
/// before it. At the start of the text there is nothing to cut.
pub proof fn law_cut_back(
    mode: Mode,
    pending: Input,
    input: Input,
    clipboard: Option<Seq<char>>,
    text: TextState,
)
    requires
        mode is Normal || mode is Operator,
        presses(input, 'X'),
        text.wf(),
    ensures
        ({
            let after = effect(mode, pending, input, clipboard, text);
            let place = text.moved(Motion::Back).cursor;
            let (row, col) = text.cursor;
            &&& precedes(place, text.cursor) ==> {
                &&& after.text.lines == without(text.lines, place, text.cursor)
                &&& after.text.yank == Yank::of(between(text.lines, place, text.cursor))
                &&& after.text.cursor == place
            }
            &&& place == text.cursor ==> {
                &&& after.text.lines == text.lines
                &&& after.text.yank == text.yank
                &&& after.text.cursor == text.cursor
            }
            &&& after.text == (TextState {
                anchor: Some(text.cursor),
                cursor: place,
                ..text
            }).cut()
            &&& text.layout.steps_back(text.line(), col) ==> place == (row, col - 1)
            &&& row > 0 && col == 0 && (text.lines[row - 1].len() == 0 || text.layout.shows(
                text.lines[row - 1].last(),
            )) ==> place == (row - 1, text.lines[row - 1].len() as int)
            &&& row == 0 && col == 0 ==> place == text.cursor
            &&& after.text.anchor is None
            &&& after.copied == Some(after.text.yank.text())
            &&& after.transition == Transition::Mode(Mode::Normal)
        }),
{
    let selected = text.anchored().moved(Motion::Back);
    lemma_moved_with_anchor(text, Some(text.cursor), Motion::Back);
    assert(Command::CutBefore.executed(mode, clipboard, text) == selected.cut()) by {
        reveal(Command::executed);
    }
}

/// The key `c` has a meaning of its own behind an operator, so that it cannot double one.
pub open spec fn means_more(pending: Input, c: char) -> bool {
    match c {
        'h' | 'j' | 'k' | 'l' | 'w' | 'W' | 'e' | 'b' | 'B' | '^' | '0' | '$' | 'G' => true,
        'D' | 'C' | 'p' | 'u' | 'r' | 'x' | 'X' | 'i' | 'a' | 'A' | 'o' | 'O' | 'I' => true,
        'g' => pending.is_bare('g'),
        '"' => pending.is_bare('i'),
        _ => false,
    }
}

/// A doubled operator works on the line: from column 0 to the place that a key down leads to from
/// there or, where it leads nowhere, to the end of the line.
pub proof fn law_doubled_operator(
    operator: char,
    pending: Input,
    input: Input,
    clipboard: Option<Seq<char>>,
    text: TextState,
)
    requires
        input.is_bare(operator),
        !means_more(pending, operator),
    ensures
        ({
            let after = effect(Mode::Operator(operator), pending, input, clipboard, text);
            let row = text.cursor.0;
            let head = (row, 0int);
            let below = text.with_cursor(head).moved(Motion::Down).cursor;
            let selected = TextState {
                anchor: Some(head),
                cursor: if below == head {
                    (row, text.lines[row].len() as int)
                } else {
                    below
                },
                ..text
            };
            &&& operator == 'y' ==> after == (Effect {
                text: selected.copied(),
                transition: Transition::Mode(Mode::Normal),
                copied: Some(selected.copied().yank.text()),
            })
            &&& operator == 'd' ==> after == (Effect {
                text: selected.cut(),
                transition: Transition::Mode(Mode::Normal),
                copied: None,
            })
            &&& operator == 'c' ==> after == (Effect {
                text: selected.cut(),
                transition: Transition::Mode(Mode::Insert),
                copied: Some(selected.cut().yank.text()),
            })
            &&& operator != 'y' && operator != 'd' && operator != 'c' ==> only_moves(
                after,
                selected,
            )
        }),
{
    let mode = Mode::Operator(operator);
    let head = text.with_cursor((text.cursor.0, 0));
    assert(text.moved(Motion::Head) == head);
    lemma_moved_with_anchor(head, Some(head.cursor), Motion::Down);
    assert(command_of(mode, pending, input) == Command::WholeLine);
    assert(Command::WholeLine.aimed(mode, text) == text.whole_line()) by {
        reveal(Command::aimed);
    }
}

/// Behind an operator `e` leads to where `w` leads.
pub proof fn law_e_behind_operator(
    operator: char,
    pending: Input,
    input: Input,
    clipboard: Option<Seq<char>>,
    text: TextState,
)
    requires
        input.is_bare('e'),
    ensures
        ({
            let after = effect(Mode::Operator(operator), pending, input, clipboard, text);
            let moved = text.moved(Motion::WordForward);
            &&& operator == 'y' ==> after == (Effect {
                text: moved.copied(),
                transition: Transition::Mode(Mode::Normal),
                copied: Some(moved.copied().yank.text()),
            })
            &&& operator == 'd' ==> after == (Effect {
                text: moved.cut(),
                transition: Transition::Mode(Mode::Normal),
                copied: None,
            })
            &&& operator == 'c' ==> after == (Effect {
                text: moved.cut(),
                transition: Transition::Mode(Mode::Insert),
                copied: Some(moved.cut().yank.text()),
            })
            &&& operator != 'y' && operator != 'd' && operator != 'c' ==> only_moves(after, moved)
        }),
{
    let mode = Mode::Operator(operator);
    let command = Command::Move(Motion::WordForward);
    assert(command_of(mode, pending, input) == command);
    assert(command.aimed(mode, text) == text.moved(Motion::WordForward)) by {
        reveal(Command::aimed);
    }
}

/// The key does something in the mode, behind the key `pending`, beside waiting for a second one.
pub open spec fn acts(mode: Mode, pending: Input, input: Input) -> bool {
    ||| is_motion_key(pending, input)
    ||| input.key == Key::Null || input.key == Key::Esc
    ||| match input.key {
        Key::Char(c) => {
            let objects = (mode is Visual || mode is Operator) && pending.is_bare('i');
            if input.ctrl {
                match c {
                    'D' | 'C' | 'p' | 'r' | 'x' | 'X' | 'i' | 'a' | 'A' | 'o' | 'O' | 'I' => true,
                    '"' => objects,
                    'c' => mode is Visual,
                    _ => false,
                }
            } else {
                match c {
                    'e' | 'D' | 'C' | 'p' | 'u' | 'r' | 'x' | 'X' | 'a' | 'A' | 'o' | 'O' | 'I'
                    | 'S' | 'w' | 'W' => true,
                    'i' | 'V' => mode is Normal || (c != 'i' && mode == Mode::Operator(c)),
                    'v' | 'y' | 'd' | 'c' => mode is Normal || mode is Visual || mode
                        == Mode::Operator(c),
                    '"' => objects || mode == Mode::Operator(c),
                    _ => mode == Mode::Operator(c),
                }
            }
        },
        _ => false,
    }
}

/// A key that does nothing else waits for a second one: the text stays as it is.
pub proof fn law_other_keys_wait(
    mode: Mode,
    pending: Input,
    input: Input,
    clipboard: Option<Seq<char>>,
    text: TextState,
)
    requires
        takes_commands(mode),
        !acts(mode, pending, input),
    ensures
        effect(mode, pending, input, clipboard, text) == (Effect {
            text,
            transition: Transition::Pending(input),
            copied: None,
        }),
{
    assert(command_of(mode, pending, input) == Command::Wait);
    assert(Command::Wait.executed(mode, clipboard, text) == text) by {
        reveal(Command::executed);
    }
}

/// A key that does something does not wait for a second one.
pub proof fn law_acting_keys_do_not_wait(
    mode: Mode,
    pending: Input,
    input: Input,
    clipboard: Option<Seq<char>>,
    text: TextState,
)
    requires
        acts(mode, pending, input),
    ensures
        !(effect(mode, pending, input, clipboard, text).transition is Pending),
{
}

/// The key that waits counts only for `g` behind `g`, and for `w`, `W` and `"` behind `i`.
pub proof fn law_waiting_key_counts(
    mode: Mode,
    pending: Input,
    other: Input,
    input: Input,
    clipboard: Option<Seq<char>>,
    text: TextState,
)
    requires
        input.is_bare('g') ==> pending.is_bare('g') == other.is_bare('g'),
        input.is_bare('w') || input.is_bare('W') || presses(input, '"') ==> pending.is_bare('i')
            == other.is_bare('i'),
    ensures
        effect(mode, pending, input, clipboard, text) == effect(
            mode,
            other,
            input,
            clipboard,
            text,
        ),
{
}

/// Where keys are commands, Shift and Alt do not count.
pub proof fn law_shift_and_alt(
    mode: Mode,
    pending: Input,
    input: Input,
    other: Input,
    clipboard: Option<Seq<char>>,
    text: TextState,
)
    requires
        takes_commands(mode),
        input.key == other.key,
        input.ctrl == other.ctrl,
    ensures
        ({
            let after = effect(mode, pending, input, clipboard, text);
            let same = effect(mode, pending, other, clipboard, text);
            &&& after.text == same.text
            &&& after.copied == same.copied
            &&& after.transition is Pending == same.transition is Pending
            &&& !(after.transition is Pending) ==> after.transition == same.transition
        }),
{
}

/// Where keys are commands, the clipboard counts for `p` only. Elsewhere it does not count.
pub proof fn law_clipboard_counts(
    mode: Mode,
    pending: Input,
    input: Input,
    clipboard: Option<Seq<char>>,
    text: TextState,
)
    requires
        !takes_commands(mode) || !presses(input, 'p'),
    ensures
        effect(mode, pending, input, clipboard, text) == effect(mode, pending, input, None, text),
{
    let command = command_of(mode, pending, input);
    assert(!(command is Paste) ==> command.executed(mode, clipboard, text) == command.executed(
        mode,
        None,
        text,
    )) by {
        reveal(Command::executed);
    }
}

/// Where keys are commands, every key can be handled but `p` without a clipboard where the yanked
/// text cannot be pasted, and a key that scrolls by pages, or up by half a page, where the view
/// cannot be scrolled so.
pub proof fn law_keys_accepted(
    mode: Mode,
    pending: Input,
    input: Input,
    clipboard: Option<Seq<char>>,
    text: TextState,
)
    requires
        takes_commands(mode),
    ensures
        ({
            let accepted = accepts(mode, pending, input, clipboard, text);
            let down = presses_ctrl(input, 'f') || input.key == Key::PageDown;
            let up = presses_ctrl(input, 'b') || input.key == Key::PageUp;
            &&& presses(input, 'p') ==> accepted == (clipboard is Some || text.yank.pastes())
            &&& down ==> accepted == text.viewport.scrolls(Scroll::PageDown)
            &&& up ==> accepted == text.viewport.scrolls(Scroll::PageUp)
            &&& presses_ctrl(input, 'u') ==> accepted == text.viewport.scrolls(Scroll::HalfPageUp)
            &&& !presses(input, 'p') && !down && !up && !presses_ctrl(input, 'u') ==> accepted
        }),
{
}

/// In insert mode every key but Esc and Ctrl-C goes to the text area. In replace mode it does, for
/// one key, and the character under the cursor, or what is selected, is taken out before. Esc and
/// Ctrl-C leave the text as it is.
pub proof fn law_typing_modes(
    pending: Input,
    input: Input,
    clipboard: Option<Seq<char>>,
    text: TextState,
)
    requires
        input.key != Key::Null,
    ensures
        ({
            let inserted = effect(Mode::Insert, pending, input, clipboard, text);
            let replaced = effect(Mode::Replace, pending, input, clipboard, text);
            let unchanged = Effect {
                text,
                transition: Transition::Mode(Mode::Normal),
                copied: None,
            };
            if input.key == Key::Esc || presses_ctrl(input, 'c') {
                inserted == unchanged && replaced == unchanged
            } else {
                &&& inserted == (Effect {
                    text: text.keyed(input),
                    transition: Transition::Mode(Mode::Insert),
                    copied: None,
                })
                &&& replaced == (Effect {
                    text: text.deleted(1).keyed(input),
                    transition: Transition::Mode(Mode::Normal),
                    copied: None,
                })
            }
        }),
{
}

/// In insert and replace mode Esc and Ctrl-C can always be handled, and any other key where the
/// text area takes it, in replace mode with a character taken out before.
pub proof fn law_typing_accepted(
    pending: Input,
    input: Input,
    clipboard: Option<Seq<char>>,
    text: TextState,
)
    ensures
        ({
            let leaves = input.key == Key::Esc || presses_ctrl(input, 'c');
            let ignored = input.key == Key::Null;
            &&& accepts(Mode::Insert, pending, input, clipboard, text) == (leaves || ignored
                || text.takes_key(input))
            &&& accepts(Mode::Replace, pending, input, clipboard, text) == (leaves || ignored
                || text.deleted(1).takes_key(input))
        }),
{
}

} // verus!
