//! What holds of the emulation as a whole. Each law is about what a key press does, or about what
//! several do one after the other.

use crate::command::{awaits_object, command_of, Command, Transition};
use crate::find::least;
use crate::key::{Input, Key};
use crate::lemmas::{
    lemma_aimed_moves, lemma_aimed_object, lemma_aimed_selects, lemma_backspace_key,
    lemma_increments_in_normal_mode, lemma_plain_columns, lemma_typing_key, lemma_without_part,
};
use crate::mode::{CursorLook, Hue, Mode};
use crate::model::{all_printable, Motion, TextState, Yank};
use crate::vim::{accepts, effect, leaves, takes_commands, Effect};
use vstd::prelude::*;

verus! {

/// No key at all changes nothing, in any mode.
pub proof fn law_no_key(
    mode: Mode,
    pending: Input,
    input: Input,
    clipboard: Option<Seq<char>>,
    text: TextState,
)
    requires
        input.key == Key::Null,
    ensures
        effect(mode, pending, input, clipboard, text) == (Effect {
            text,
            transition: Transition::Nop,
            copied: None,
        }),
{
}

/// Esc leads to normal mode from every mode. Where keys are commands it ends the selection; nothing
/// else of the text changes.
pub proof fn law_escape(
    mode: Mode,
    pending: Input,
    input: Input,
    clipboard: Option<Seq<char>>,
    text: TextState,
)
    requires
        input.key == Key::Esc,
    ensures
        effect(mode, pending, input, clipboard, text) == (Effect {
            text: if takes_commands(mode) {
                text.unanchored()
            } else {
                text
            },
            transition: Transition::Mode(Mode::Normal),
            copied: None,
        }),
{
    reveal(Command::executed);
}

/// In insert mode every key but Esc and Ctrl-C keeps the mode.
pub proof fn law_insert_stays(
    pending: Input,
    input: Input,
    clipboard: Option<Seq<char>>,
    text: TextState,
)
    requires
        input.key != Key::Null,
    ensures
        effect(Mode::Insert, pending, input, clipboard, text).transition == Transition::Mode(
            if leaves(input) {
                Mode::Normal
            } else {
                Mode::Insert
            },
        ),
{
}

/// In insert mode a character that is typed is put in at the cursor, which moves behind it.
pub proof fn law_insert_types(
    pending: Input,
    input: Input,
    c: char,
    clipboard: Option<Seq<char>>,
    text: TextState,
)
    requires
        text.wf(),
        text.selection() is None,
        input.types(c),
        c != '\n' && c != '\r',
    ensures
        ({
            let after = effect(Mode::Insert, pending, input, clipboard, text).text;
            let (row, col) = text.cursor;
            &&& after.lines == text.lines.update(row, text.line().insert(col, c))
            &&& after.cursor == (row, col + 1)
            &&& after.yank == text.yank
        }),
{
    lemma_typing_key(text, input, c);
    let (row, col) = text.cursor;
    let line = text.line();
    assert(line.take(col) + seq![c] + line.skip(col) =~= line.insert(col, c));
}

/// In insert mode Backspace takes back what was typed before it.
pub proof fn law_backspace(
    pending: Input,
    input: Input,
    c: char,
    other: Input,
    backspace: Input,
    clipboard: Option<Seq<char>>,
    text: TextState,
)
    requires
        text.wf(),
        text.selection() is None,
        input.types(c),
        c != '\n' && c != '\r',
        backspace.key == Key::Backspace && !backspace.ctrl && !backspace.alt,
    ensures
        ({
            let typed = effect(Mode::Insert, pending, input, clipboard, text);
            let after = effect(Mode::Insert, other, backspace, clipboard, typed.text).text;
            after.lines == text.lines && after.cursor == text.cursor && after.yank == text.yank
        }),
{
    let (row, col) = text.cursor;
    let line = text.line();
    law_insert_types(pending, input, c, clipboard, text);
    let typed = text.keyed(input);
    lemma_typing_key(text, input, c);
    lemma_backspace_key(typed, backspace);
    let longer = line.insert(col, c);
    assert(typed.lines == text.lines.update(row, longer));
    lemma_without_part(typed.lines, row, col, col + 1);
    assert(longer.take(col) + longer.skip(col + 1) =~= line);
    assert(typed.lines.update(row, line) =~= text.lines);
}

/// Replace mode lasts for one key.
pub proof fn law_replace_ends(
    pending: Input,
    input: Input,
    clipboard: Option<Seq<char>>,
    text: TextState,
)
    requires
        input.key != Key::Null,
    ensures
        effect(Mode::Replace, pending, input, clipboard, text).transition == Transition::Mode(
            Mode::Normal,
        ),
{
}

/// In replace mode a character that is typed takes the place of the one under the cursor.
pub proof fn law_replace_types(
    pending: Input,
    input: Input,
    c: char,
    clipboard: Option<Seq<char>>,
    text: TextState,
)
    requires
        text.wf(),
        text.selection() is None,
        text.cursor.1 < text.line().len(),
        input.types(c),
        c != '\n' && c != '\r',
    ensures
        ({
            let after = effect(Mode::Replace, pending, input, clipboard, text).text;
            let (row, col) = text.cursor;
            &&& after.lines == text.lines.update(row, text.line().update(col, c))
            &&& after.cursor == (row, col + 1)
            &&& after.yank == Yank::Piece(seq![text.line()[col]])
        }),
{
    let (row, col) = text.cursor;
    let line = text.line();
    let deleted = text.deleted(1);
    lemma_typing_key(deleted, input, c);
    lemma_without_part(text.lines, row, col, col + 1);
    let rest = line.take(col) + line.skip(col + 1);
    assert(deleted.lines == text.lines.update(row, rest));
    assert(deleted.lines[row] == rest);
    assert(rest.take(col) + seq![c] + rest.skip(col) =~= line.update(col, c));
    assert(line.subrange(col, col + 1) =~= seq![line[col]]);
    let after = effect(Mode::Replace, pending, input, clipboard, text).text;
    assert(after.lines =~= text.lines.update(row, line.update(col, c)));
}

/// A key without a command waits for a second one, and changes nothing meanwhile.
pub proof fn law_waiting(
    mode: Mode,
    pending: Input,
    input: Input,
    clipboard: Option<Seq<char>>,
    text: TextState,
)
    requires
        takes_commands(mode),
        input.key != Key::Null,
        command_of(mode, pending, input) is Wait,
    ensures
        effect(mode, pending, input, clipboard, text) == (Effect {
            text,
            transition: Transition::Pending(input),
            copied: None,
        }),
{
    reveal(Command::executed);
}

/// Every command can be carried out on every text, but for pasting without a clipboard, and for
/// scrolling by pages.
pub proof fn law_accepted(
    mode: Mode,
    pending: Input,
    input: Input,
    clipboard: Option<Seq<char>>,
    text: TextState,
)
    requires
        takes_commands(mode),
        ({
            let command = command_of(mode, pending, input);
            &&& command is Paste ==> clipboard is Some
            &&& command matches Command::Scroll(scroll) ==> scroll is Rows || scroll is HalfPageDown
        }),
    ensures
        accepts(mode, pending, input, clipboard, text),
{
}

/// The clipboard counts for pasting only.
pub proof fn law_clipboard(
    mode: Mode,
    pending: Input,
    input: Input,
    clipboard: Option<Seq<char>>,
    text: TextState,
)
    requires
        !(takes_commands(mode) && command_of(mode, pending, input) is Paste),
    ensures
        effect(mode, pending, input, clipboard, text) == effect(mode, pending, input, None, text),
{
    reveal(Command::executed);
}

/// A motion without an operator waiting moves the cursor, or scrolls, and does nothing else.
pub proof fn law_motions_move(
    mode: Mode,
    pending: Input,
    input: Input,
    clipboard: Option<Seq<char>>,
    text: TextState,
)
    requires
        mode is Normal || mode is Visual,
        ({
            let command = command_of(mode, pending, input);
            command is Move || command is BigWordForward || command is BigWordBack
                || command is Scroll
        }),
    ensures
        ({
            let after = effect(mode, pending, input, clipboard, text);
            &&& after.transition == Transition::Nop
            &&& after.copied is None
            &&& after.text == (TextState {
                cursor: after.text.cursor,
                viewport: after.text.viewport,
                ..text
            })
        }),
{
    lemma_aimed_moves(command_of(mode, pending, input), mode, text);
}

/// Between unbroken lines of printable ASCII `j` and `k` keep the column, as far as the line has
/// it.
pub proof fn law_lines_down_and_up(
    mode: Mode,
    pending: Input,
    input: Input,
    clipboard: Option<Seq<char>>,
    text: TextState,
)
    requires
        mode is Normal || mode is Visual,
        input.is_bare('j') || input.is_bare('k'),
        text.wf(),
        text.layout.unwrapped(),
        text.layout.mask is None,
        all_printable(text.line()),
        ({
            let row = if input.is_bare('j') {
                text.cursor.0 + 1
            } else {
                text.cursor.0 - 1
            };
            0 <= row < text.lines.len() && all_printable(text.lines[row])
        }),
    ensures
        ({
            let after = effect(mode, pending, input, clipboard, text).text;
            let row = if input.is_bare('j') {
                text.cursor.0 + 1
            } else {
                text.cursor.0 - 1
            };
            after.cursor == (row, least(text.cursor.1, text.lines[row].len() as int))
        }),
{
    let (motion, row) = if input.is_bare('j') {
        (Motion::Down, text.cursor.0 + 1)
    } else {
        (Motion::Up, text.cursor.0 - 1)
    };
    let line = text.lines[row];
    lemma_plain_columns(text.layout, text.line(), text.cursor.1);
    lemma_plain_columns(text.layout, line, line.len() as int);
    lemma_plain_columns(text.layout, line, least(text.cursor.1, line.len() as int));
    assert(command_of(mode, pending, input).aimed(mode, text) == text.moved(motion)) by {
        reveal(Command::aimed);
    }
}

/// Naming a text object in visual mode selects, and does nothing else.
pub proof fn law_objects_select(
    pending: Input,
    input: Input,
    clipboard: Option<Seq<char>>,
    text: TextState,
)
    requires
        ({
            let command = command_of(Mode::Visual, pending, input);
            command is InnerWord || command is InnerBigWord || command is InnerQuoted
        }),
    ensures
        ({
            let after = effect(Mode::Visual, pending, input, clipboard, text);
            &&& after.transition == Transition::Nop
            &&& after.copied is None
            &&& after.text == (TextState {
                cursor: after.text.cursor,
                anchor: after.text.anchor,
                ..text
            })
        }),
{
    lemma_aimed_object(command_of(Mode::Visual, pending, input), Mode::Visual, text);
}

/// Yanking, by `y` and a motion or a text object, by `yy`, and by `y` in visual mode, leaves the
/// text and its history alone, ends the selection, and hands on what is yanked.
pub proof fn law_yank_keeps_text(
    mode: Mode,
    pending: Input,
    input: Input,
    clipboard: Option<Seq<char>>,
    text: TextState,
)
    requires
        input.key != Key::Null,
        ({
            let command = command_of(mode, pending, input);
            ||| mode == Mode::Operator('y') && command.aims()
            ||| mode is Visual && command is YankSelection
        }),
    ensures
        ({
            let after = effect(mode, pending, input, clipboard, text);
            &&& after.text.lines == text.lines
            &&& after.text.history == text.history
            &&& after.text.anchor is None
            &&& after.transition == Transition::Mode(Mode::Normal)
            &&& after.copied == Some(after.text.yank.text())
        }),
{
    reveal(Command::executed);
    let command = command_of(mode, pending, input);
    if command.aims() {
        lemma_increments_in_normal_mode(mode, pending, input);
        lemma_aimed_selects(command, mode, text);
    }
}

/// Behind an operator `e` is `w`.
pub proof fn law_operator_e_is_w(
    operator: char,
    pending: Input,
    e: Input,
    w: Input,
    clipboard: Option<Seq<char>>,
    text: TextState,
)
    requires
        e.is_bare('e'),
        w.is_bare('w'),
        !pending.is_bare('i'),
    ensures
        effect(Mode::Operator(operator), pending, e, clipboard, text) == effect(
            Mode::Operator(operator),
            pending,
            w,
            clipboard,
            text,
        ),
{
}

/// The first `g` waits, the second goes to the first line.
pub proof fn law_gg(
    mode: Mode,
    pending: Input,
    first: Input,
    second: Input,
    clipboard: Option<Seq<char>>,
    text: TextState,
)
    requires
        mode is Normal || mode is Visual,
        first.is_bare('g') && second.is_bare('g'),
        !pending.is_bare('g'),
        text.wf(),
    ensures
        effect(mode, pending, first, clipboard, text) == (Effect {
            text,
            transition: Transition::Pending(first),
            copied: None,
        }),
        ({
            let after = effect(mode, first, second, clipboard, text);
            &&& after.transition == Transition::Nop
            &&& after.text == (TextState { cursor: after.text.cursor, ..text })
            &&& after.text.cursor.0 == 0
        }),
{
    reveal(Command::aimed);
    reveal(Command::executed);
}

/// Behind an operator and in visual mode `i` waits for the name of a text object.
pub proof fn law_object_waits(
    mode: Mode,
    pending: Input,
    input: Input,
    clipboard: Option<Seq<char>>,
    text: TextState,
)
    requires
        mode is Visual || mode is Operator,
        input.is_bare('i'),
    ensures
        effect(mode, pending, input, clipboard, text) == (Effect {
            text,
            transition: Transition::Pending(input),
            copied: None,
        }),
        awaits_object(mode, input),
{
    reveal(Command::executed);
}

/// Giving up a selection by `v`, Esc or Ctrl-C leaves the text as it was before `v` started it.
pub proof fn law_visual_round_trip(
    pending: Input,
    other: Input,
    start: Input,
    stop: Input,
    clipboard: Option<Seq<char>>,
    text: TextState,
)
    requires
        start.is_bare('v'),
        stop.is_bare('v') || leaves(stop),
        text.anchor is None,
    ensures
        ({
            let started = effect(Mode::Normal, pending, start, clipboard, text);
            let stopped = effect(Mode::Visual, other, stop, clipboard, started.text);
            &&& started.transition == Transition::Mode(Mode::Visual)
            &&& stopped.transition == Transition::Mode(Mode::Normal)
            &&& stopped.text == text
        }),
{
    let started = text.anchored();
    assert(Command::StartVisual.executed(Mode::Normal, clipboard, text) == started) by {
        reveal(Command::executed);
    }
    assert(Command::Leave.executed(Mode::Visual, clipboard, started) == text) by {
        reveal(Command::executed);
    }
}

/// The names of different modes differ.
pub proof fn law_mode_names(a: Mode, b: Mode)
    requires
        a != b,
    ensures
        a.name() != b.name(),
{
    reveal_strlit("NORMAL");
    reveal_strlit("INSERT");
    reveal_strlit("VISUAL");
    reveal_strlit("REPLACE");
    reveal_strlit("OPERATOR(");
    reveal_strlit(")");
    assert(a.name()[0] != b.name()[0] || a.name().len() != b.name().len() || a.name()[9]
        != b.name()[9]);
}

/// An operator's mode is named by the operator in brackets, whichever it is, and is shown as the
/// other operators' modes are.
pub proof fn law_operator_modes(c: char)
    ensures
        ({
            let mode = Mode::Operator(c);
            &&& mode.name() == "OPERATOR("@ + seq![c] + ")"@
            &&& mode.hint() == "move cursor to apply operator"@
            &&& mode.caption() == " OPERATOR("@ + seq![c]
                + ") MODE (move cursor to apply operator) "@
            &&& mode.look() == (CursorLook {
                hue: Hue::LightGreen,
                reversed: true,
                underlined: false,
                slow_blink: false,
            })
        }),
{
    let mode = Mode::Operator(c);
    assert(mode.name() =~= "OPERATOR("@ + seq![c] + ")"@);
    reveal_strlit("OPERATOR(");
    reveal_strlit(" OPERATOR(");
    reveal_strlit(" ");
    reveal_strlit(")");
    reveal_strlit(" MODE (");
    reveal_strlit(") ");
    reveal_strlit("move cursor to apply operator");
    reveal_strlit(") MODE (move cursor to apply operator) ");
    assert(mode.caption() =~= " OPERATOR("@ + seq![c]
        + ") MODE (move cursor to apply operator) "@);
}

/// The cursor is reversed in every mode, underlined in replace mode only and blinking in insert
/// mode only, and different modes, but for those of two operators, have different colours.
pub proof fn law_cursor_looks(a: Mode, b: Mode)
    ensures
        a.look().reversed,
        a.look().underlined == (a is Replace),
        a.look().slow_blink == (a is Insert),
        a.look().hue == b.look().hue <==> a == b || (a is Operator && b is Operator),
{
}

/// The captions of the modes that no operator waits in.
pub proof fn law_captions()
    ensures
        Mode::Normal.caption()
            == " NORMAL MODE (type i to enter insert mode, v to enter visual mode) "@,
        Mode::Insert.caption() == " INSERT MODE (type Esc to back to normal mode) "@,
        Mode::Visual.caption()
            == " VISUAL MODE (type y to yank, type d to delete, type Esc to back to normal mode) "@,
        Mode::Replace.caption() == " REPLACE MODE (type character to replace underlined) "@,
{
    reveal_strlit(" ");
    reveal_strlit(" MODE (");
    reveal_strlit(") ");
    reveal_strlit("NORMAL");
    reveal_strlit("type i to enter insert mode, v to enter visual mode");
    reveal_strlit(" NORMAL MODE (type i to enter insert mode, v to enter visual mode) ");
    assert(Mode::Normal.caption()
        =~= " NORMAL MODE (type i to enter insert mode, v to enter visual mode) "@);
    reveal_strlit("INSERT");
    reveal_strlit("type Esc to back to normal mode");
    reveal_strlit(" INSERT MODE (type Esc to back to normal mode) ");
    assert(Mode::Insert.caption() =~= " INSERT MODE (type Esc to back to normal mode) "@);
    reveal_strlit("VISUAL");
    reveal_strlit("type y to yank, type d to delete, type Esc to back to normal mode");
    reveal_strlit(
        " VISUAL MODE (type y to yank, type d to delete, type Esc to back to normal mode) ",
    );
    assert(Mode::Visual.caption()
        =~= " VISUAL MODE (type y to yank, type d to delete, type Esc to back to normal mode) "@);
    reveal_strlit("REPLACE");
    reveal_strlit("type character to replace underlined");
    reveal_strlit(" REPLACE MODE (type character to replace underlined) ");
    assert(Mode::Replace.caption() =~= " REPLACE MODE (type character to replace underlined) "@);
}

} // verus!
