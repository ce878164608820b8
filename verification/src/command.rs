//! The commands of the modes in which keys are commands: which key gives which command, and what
//! each command does to the text.

use crate::key::{Input, Key};
use crate::mode::Mode;
use crate::model::{Motion, Scroll, TextState};
use vstd::prelude::*;

verus! {

/// What a key asks for.
///
/// The commands down to [`Command::Increment`] leave it to a waiting operator what happens to the
/// text that the cursor has passed over or that they have selected. The others are complete.
#[derive(Debug, Clone, Copy, PartialEq, Eq, Structural)]
pub enum Command {
    /// Move the cursor.
    Move(Motion),
    /// Move to the next WORD.
    BigWordForward,
    /// Move back to the start of a WORD.
    BigWordBack,
    /// Select the word under the cursor.
    InnerWord,
    /// Select the WORD under the cursor.
    InnerBigWord,
    /// Select the text between double quotes.
    InnerQuoted,
    /// Select the whole line, as `dd` does.
    WholeLine,
    /// Scroll the view.
    Scroll(Scroll),
    /// Add to the number at the cursor.
    Increment(i64),
    /// Delete the rest of the line.
    DeleteToEnd,
    /// Delete the rest of the line and insert.
    ChangeToEnd,
    /// Put in the clipboard or the yanked text.
    Paste,
    /// Undo the last change.
    Undo,
    /// Make the change that was undone last once more.
    Redo,
    /// Replace the character under the cursor by the next one typed.
    Replace,
    /// Cut the selection, or the character under the cursor.
    Cut,
    /// Cut the character before the cursor, or the whole line of a selection.
    CutBefore,
    /// Insert at the cursor.
    Insert,
    /// Start a selection at the start of the word under the cursor.
    SelectWord,
    /// Insert behind the cursor.
    Append,
    /// Insert at the end of the line.
    AppendAtEnd,
    /// Insert a line below.
    OpenBelow,
    /// Insert a line above.
    OpenAbove,
    /// Insert at the start of the line.
    InsertAtHead,
    /// Start a selection.
    StartVisual,
    /// Select the line.
    StartVisualLine,
    /// Give up the selection and the operator.
    Leave,
    /// Wait for what the operator works on.
    Operate(char),
    /// Yank the selection.
    YankSelection,
    /// Cut the selection, without handing it on.
    DeleteSelection,
    /// Cut the selection and insert.
    ChangeSelection,
    /// Cut the line and insert.
    Substitute,
    /// Wait for the second key of a command with two.
    Wait,
}

/// How the state of the emulation changes.
#[derive(Debug, Clone, Copy, PartialEq, Eq, Structural)]
pub enum Transition {
    /// It does not.
    Nop,
    /// To another mode.
    Mode(Mode),
    /// The key waits for a second one.
    Pending(Input),
}

/// A text object is to be named: in visual mode, or behind an operator, `i` was pressed.
pub open spec fn awaits_object(mode: Mode, pending: Input) -> bool {
    (mode is Visual || mode is Operator) && pending.is_bare('i')
}

/// The command of the key `c`, pressed without Ctrl.
pub open spec fn bare_command(mode: Mode, pending: Input, c: char) -> Command {
    let doubled = if mode == Mode::Operator(c) {
        Command::WholeLine
    } else {
        Command::Wait
    };
    match c {
        'h' => Command::Move(Motion::Back),
        'j' => Command::Move(Motion::Down),
        'k' => Command::Move(Motion::Up),
        'l' => Command::Move(Motion::Forward),
        'w' => if awaits_object(mode, pending) {
            Command::InnerWord
        } else {
            Command::Move(Motion::WordForward)
        },
        'W' => if awaits_object(mode, pending) {
            Command::InnerBigWord
        } else {
            Command::BigWordForward
        },
        '"' => if awaits_object(mode, pending) {
            Command::InnerQuoted
        } else {
            doubled
        },
        'e' => if mode is Operator {
            Command::Move(Motion::WordForward)
        } else {
            Command::Move(Motion::WordEnd)
        },
        'b' => Command::Move(Motion::WordBack),
        'B' => Command::BigWordBack,
        '^' | '0' => Command::Move(Motion::Head),
        '$' => Command::Move(Motion::End),
        'g' => if pending.is_bare('g') {
            Command::Move(Motion::Top)
        } else {
            doubled
        },
        'G' => Command::Move(Motion::Bottom),
        'D' => Command::DeleteToEnd,
        'C' => Command::ChangeToEnd,
        'p' => Command::Paste,
        'u' => Command::Undo,
        'r' => Command::Replace,
        'x' => Command::Cut,
        'X' => Command::CutBefore,
        'i' => if mode is Normal {
            Command::Insert
        } else {
            Command::Wait
        },
        'a' => if mode == Mode::Operator('d') || mode == Mode::Operator('y') {
            Command::SelectWord
        } else {
            Command::Append
        },
        'A' => Command::AppendAtEnd,
        'o' => Command::OpenBelow,
        'O' => Command::OpenAbove,
        'I' => Command::InsertAtHead,
        'v' => match mode {
            Mode::Normal => Command::StartVisual,
            Mode::Visual => Command::Leave,
            _ => doubled,
        },
        'V' => if mode is Normal {
            Command::StartVisualLine
        } else {
            doubled
        },
        'y' => match mode {
            Mode::Normal => Command::Operate('y'),
            Mode::Visual => Command::YankSelection,
            _ => doubled,
        },
        'd' => match mode {
            Mode::Normal => Command::Operate('d'),
            Mode::Visual => Command::DeleteSelection,
            _ => doubled,
        },
        'c' => match mode {
            Mode::Normal => Command::Operate('c'),
            Mode::Visual => Command::ChangeSelection,
            _ => doubled,
        },
        'S' => if mode == Mode::Operator('S') {
            Command::WholeLine
        } else {
            Command::Substitute
        },
        _ => doubled,
    }
}

/// The command of the key `c`, pressed with Ctrl. Many keys do not heed it.
pub open spec fn ctrl_command(mode: Mode, pending: Input, c: char) -> Command {
    match c {
        'h' => Command::Move(Motion::Back),
        'j' => Command::Move(Motion::Down),
        'k' => Command::Move(Motion::Up),
        'l' => Command::Move(Motion::Forward),
        '"' => if awaits_object(mode, pending) {
            Command::InnerQuoted
        } else {
            Command::Wait
        },
        'w' => Command::Move(Motion::WordForward),
        '^' | '0' => Command::Move(Motion::Head),
        '$' => Command::Move(Motion::End),
        'D' => Command::DeleteToEnd,
        'C' => Command::ChangeToEnd,
        'p' => Command::Paste,
        'r' => Command::Redo,
        'x' => if mode is Normal {
            Command::Increment((-1) as i64)
        } else {
            Command::Cut
        },
        'X' => Command::CutBefore,
        'i' => Command::Insert,
        'a' => if mode is Normal {
            Command::Increment(1)
        } else {
            Command::Append
        },
        'A' => Command::AppendAtEnd,
        'o' => Command::OpenBelow,
        'O' => Command::OpenAbove,
        'I' => Command::InsertAtHead,
        'e' => Command::Scroll(Scroll::Rows(1)),
        'y' => Command::Scroll(Scroll::Rows((-1) as i16)),
        'd' => Command::Scroll(Scroll::HalfPageDown),
        'u' => Command::Scroll(Scroll::HalfPageUp),
        'f' => Command::Scroll(Scroll::PageDown),
        'b' => Command::Scroll(Scroll::PageUp),
        'c' => if mode is Visual {
            Command::Leave
        } else {
            Command::Wait
        },
        _ => Command::Wait,
    }
}

/// The command of a key press.
pub open spec fn command_of(mode: Mode, pending: Input, input: Input) -> Command {
    match input.key {
        Key::Char(c) => if input.ctrl {
            ctrl_command(mode, pending, c)
        } else {
            bare_command(mode, pending, c)
        },
        Key::Left => Command::Move(Motion::Back),
        Key::Down => Command::Move(Motion::Down),
        Key::Up => Command::Move(Motion::Up),
        Key::Right => Command::Move(Motion::Forward),
        Key::PageDown => Command::Scroll(Scroll::PageDown),
        Key::PageUp => Command::Scroll(Scroll::PageUp),
        Key::Esc => Command::Leave,
        _ => Command::Wait,
    }
}

impl TextState {
    /// With the cursor's line selected, up to the start of the next line, or to its own end where
    /// the cursor does not come down from it.
    pub open spec fn whole_line(self) -> TextState {
        let start = self.moved(Motion::Head).anchored();
        let below = start.moved(Motion::Down);
        if below.cursor == start.cursor {
            below.moved(Motion::End)
        } else {
            below
        }
    }
}

/// The text after the operator that waits in the mode has worked on what is selected.
pub open spec fn operated(mode: Mode, text: TextState) -> TextState {
    match mode {
        Mode::Operator('y') => text.copied(),
        Mode::Operator('d') | Mode::Operator('c') => text.cut(),
        _ => text,
    }
}

impl Command {
    /// A waiting operator works on what the command has passed over or selected.
    pub open spec fn aims(self) -> bool {
        ||| self is Move
        ||| self is BigWordForward
        ||| self is BigWordBack
        ||| self is InnerWord
        ||| self is InnerBigWord
        ||| self is InnerQuoted
        ||| self is WholeLine
        ||| self is Scroll
        ||| self is Increment
    }

    /// The text after a command that a waiting operator builds on, before the operator. To be
    /// revealed where it matters what a command does.
    #[verifier::opaque]
    pub open spec fn aimed(self, mode: Mode, text: TextState) -> TextState {
        match self {
            Command::Move(motion) => text.moved(motion),
            Command::BigWordForward => text.jumped(text.big_word_ahead()),
            Command::BigWordBack => text.jumped(text.big_word_behind()),
            Command::InnerWord => text.inner_run(false, mode is Visual),
            Command::InnerBigWord => text.inner_run(true, mode is Visual),
            Command::InnerQuoted => text.inner_quoted('"', mode is Visual),
            Command::WholeLine => text.whole_line(),
            Command::Scroll(scroll) => text.scrolled(scroll),
            Command::Increment(delta) => text.incremented(delta as int),
            _ => text,
        }
    }

    /// The text after a command that is complete. To be revealed where it matters what a command
    /// does.
    #[verifier::opaque]
    pub open spec fn executed(
        self,
        mode: Mode,
        clipboard: Option<Seq<char>>,
        text: TextState,
    ) -> TextState {
        match self {
            Command::DeleteToEnd => text.deleted_to_end(),
            Command::ChangeToEnd => text.deleted_to_end().unanchored(),
            Command::Paste => match clipboard {
                Some(copied) => text.yanking(copied).pasted(),
                None => text.pasted(),
            },
            Command::Undo => text.undone(),
            Command::Redo => text.redone(),
            Command::Cut => if text.anchor is Some {
                text.included().cut()
            } else {
                text.anchored().included().cut()
            },
            Command::CutBefore => if mode is Visual {
                text.moved(Motion::Head).anchored().moved(Motion::End).cut()
            } else {
                text.anchored().moved(Motion::Back).cut()
            },
            Command::Insert => text.unanchored(),
            Command::SelectWord => text.unanchored().moved(Motion::Forward).moved(
                Motion::WordBack,
            ).anchored(),
            Command::Append => text.unanchored().moved(Motion::Forward),
            Command::AppendAtEnd => text.unanchored().moved(Motion::End),
            Command::OpenBelow => text.moved(Motion::End).broken(),
            Command::OpenAbove => text.moved(Motion::Head).broken().moved(Motion::Up),
            Command::InsertAtHead => text.unanchored().moved(Motion::Head),
            Command::StartVisual => text.anchored(),
            Command::StartVisualLine => text.moved(Motion::Head).anchored().moved(Motion::End),
            Command::Leave => text.unanchored(),
            Command::Operate(_) => text.anchored(),
            Command::YankSelection => text.included().copied(),
            Command::DeleteSelection => text.included().cut(),
            Command::ChangeSelection => text.included().cut(),
            Command::Substitute => text.moved(Motion::Head).anchored().moved(Motion::End).cut(),
            _ => text,
        }
    }

    /// The text after the command and the operator that waited for it.
    pub open spec fn text(
        self,
        mode: Mode,
        clipboard: Option<Seq<char>>,
        text: TextState,
    ) -> TextState {
        if self.aims() {
            operated(mode, self.aimed(mode, text))
        } else {
            self.executed(mode, clipboard, text)
        }
    }

    /// The state of the emulation after the command and the operator that waited for it.
    pub open spec fn next(self, mode: Mode, input: Input) -> Transition {
        match self {
            Command::Wait => Transition::Pending(input),
            Command::SelectWord => Transition::Nop,
            Command::DeleteToEnd
            | Command::Paste
            | Command::Undo
            | Command::Redo
            | Command::Cut
            | Command::CutBefore
            | Command::Leave
            | Command::YankSelection
            | Command::DeleteSelection => Transition::Mode(Mode::Normal),
            Command::ChangeToEnd
            | Command::Insert
            | Command::Append
            | Command::AppendAtEnd
            | Command::OpenBelow
            | Command::OpenAbove
            | Command::InsertAtHead
            | Command::ChangeSelection
            | Command::Substitute => Transition::Mode(Mode::Insert),
            Command::Replace => Transition::Mode(Mode::Replace),
            Command::StartVisual | Command::StartVisualLine => Transition::Mode(Mode::Visual),
            Command::Operate(operator) => Transition::Mode(Mode::Operator(operator)),
            _ => match mode {
                Mode::Operator('y') | Mode::Operator('d') => Transition::Mode(Mode::Normal),
                Mode::Operator('c') => Transition::Mode(Mode::Insert),
                _ => Transition::Nop,
            },
        }
    }

    /// The yanked text is handed on after the command and the operator that waited for it.
    pub open spec fn hands_on(self, mode: Mode) -> bool {
        ||| self is Cut
        ||| self is CutBefore
        ||| self is YankSelection
        ||| self is ChangeSelection
        ||| self is Substitute
        ||| self.aims() && (mode == Mode::Operator('y') || mode == Mode::Operator('c'))
    }

    /// The text area can carry the command out: the yanked text can be pasted where that is what
    /// it asks for, and the view scrolled.
    pub open spec fn accepted(self, clipboard: Option<Seq<char>>, text: TextState) -> bool {
        match self {
            Command::Paste => clipboard is Some || text.yank.pastes(),
            Command::Scroll(scroll) => text.viewport.scrolls(scroll),
            _ => true,
        }
    }
}

/// Finds the command of a key press.
pub fn decode(mode: Mode, pending: Input, input: Input) -> (command: Command)
    requires
        mode is Normal || mode is Visual || mode is Operator,
    ensures
        command == command_of(mode, pending, input),
{
    let operator: bool = matches!(mode, Mode::Operator(_));
    let object: bool = (operator || mode == Mode::Visual) && matches!(
        pending,
        Input { key: Key::Char('i'), ctrl: false, .. }
    );
    match input {
        Input { key: Key::Char('h'), .. } | Input { key: Key::Left, .. } => Command::Move(
            Motion::Back,
        ),
        Input { key: Key::Char('j'), .. } | Input { key: Key::Down, .. } => Command::Move(
            Motion::Down,
        ),
        Input { key: Key::Char('k'), .. } | Input { key: Key::Up, .. } => Command::Move(
            Motion::Up,
        ),
        Input { key: Key::Char('l'), .. } | Input { key: Key::Right, .. } => Command::Move(
            Motion::Forward,
        ),
        Input { key: Key::Char('w'), ctrl: false, .. } if object => Command::InnerWord,
        Input { key: Key::Char('W'), ctrl: false, .. } if object => Command::InnerBigWord,
        Input { key: Key::Char('"'), .. } if object => Command::InnerQuoted,
        Input { key: Key::Char('w'), .. } => Command::Move(Motion::WordForward),
        Input { key: Key::Char('W'), ctrl: false, .. } => Command::BigWordForward,
        // Behind an operator `e` behaves like `w`.
        Input { key: Key::Char('e'), ctrl: false, .. } if operator => Command::Move(
            Motion::WordForward,
        ),
        Input { key: Key::Char('e'), ctrl: false, .. } => Command::Move(Motion::WordEnd),
        Input { key: Key::Char('b'), ctrl: false, .. } => Command::Move(Motion::WordBack),
        Input { key: Key::Char('B'), ctrl: false, .. } => Command::BigWordBack,
        Input { key: Key::Char('^'), .. } => Command::Move(Motion::Head),
        Input { key: Key::Char('0'), .. } => Command::Move(Motion::Head),
        Input { key: Key::Char('$'), .. } => Command::Move(Motion::End),
        Input { key: Key::Char('D'), .. } => Command::DeleteToEnd,
        Input { key: Key::Char('C'), .. } => Command::ChangeToEnd,
        Input { key: Key::Char('p'), .. } => Command::Paste,
        Input { key: Key::Char('u'), ctrl: false, .. } => Command::Undo,
        Input { key: Key::Char('r'), ctrl: true, .. } => Command::Redo,
        Input { key: Key::Char('r'), ctrl: false, .. } => Command::Replace,
        Input { key: Key::Char('x'), ctrl: true, .. } if mode == Mode::Normal => Command::Increment(
            -1,
        ),
        Input { key: Key::Char('x'), .. } => Command::Cut,
        Input { key: Key::Char('X'), .. } => Command::CutBefore,
        // The name of a text object follows, such as `w` in `diw`.
        Input { key: Key::Char('i'), ctrl: false, .. } if operator || mode == Mode::Visual =>
            Command::Wait,
        Input { key: Key::Char('i'), .. } => Command::Insert,
        Input { key: Key::Char('a'), ctrl: false, .. } if mode == Mode::Operator('d') || mode
            == Mode::Operator('y') => Command::SelectWord,
        Input { key: Key::Char('a'), ctrl: true, .. } if mode == Mode::Normal => Command::Increment(
            1,
        ),
        Input { key: Key::Char('a'), .. } => Command::Append,
        Input { key: Key::Char('A'), .. } => Command::AppendAtEnd,
        Input { key: Key::Char('o'), .. } => Command::OpenBelow,
        Input { key: Key::Char('O'), .. } => Command::OpenAbove,
        Input { key: Key::Char('I'), .. } => Command::InsertAtHead,
        Input { key: Key::Char('e'), ctrl: true, .. } => Command::Scroll(Scroll::Rows(1)),
        Input { key: Key::Char('y'), ctrl: true, .. } => Command::Scroll(Scroll::Rows(-1)),
        Input { key: Key::Char('d'), ctrl: true, .. } => Command::Scroll(Scroll::HalfPageDown),
        Input { key: Key::Char('u'), ctrl: true, .. } => Command::Scroll(Scroll::HalfPageUp),
        Input { key: Key::Char('f'), ctrl: true, .. } | Input { key: Key::PageDown, .. } =>
            Command::Scroll(Scroll::PageDown),
        Input { key: Key::Char('b'), ctrl: true, .. } | Input { key: Key::PageUp, .. } =>
            Command::Scroll(Scroll::PageUp),
        Input { key: Key::Char('v'), ctrl: false, .. } if mode == Mode::Normal =>
            Command::StartVisual,
        Input { key: Key::Char('V'), ctrl: false, .. } if mode == Mode::Normal =>
            Command::StartVisualLine,
        Input { key: Key::Char('c'), ctrl: true, .. } if mode == Mode::Visual => Command::Leave,
        Input { key: Key::Char('v'), ctrl: false, .. } if mode == Mode::Visual => Command::Leave,
        Input { key: Key::Char('g'), ctrl: false, .. } if matches!(
            pending,
            Input { key: Key::Char('g'), ctrl: false, .. }
        ) => Command::Move(Motion::Top),
        Input { key: Key::Char('G'), ctrl: false, .. } => Command::Move(Motion::Bottom),
        Input { key: Key::Char(c), ctrl: false, .. } if mode == Mode::Operator(c) =>
            Command::WholeLine,
        Input { key: Key::Char('y'), ctrl: false, .. } if mode == Mode::Normal => Command::Operate(
            'y',
        ),
        Input { key: Key::Char('d'), ctrl: false, .. } if mode == Mode::Normal => Command::Operate(
            'd',
        ),
        Input { key: Key::Char('c'), ctrl: false, .. } if mode == Mode::Normal => Command::Operate(
            'c',
        ),
        Input { key: Key::Char('y'), ctrl: false, .. } if mode == Mode::Visual =>
            Command::YankSelection,
        Input { key: Key::Char('d'), ctrl: false, .. } if mode == Mode::Visual =>
            Command::DeleteSelection,
        Input { key: Key::Char('c'), ctrl: false, .. } if mode == Mode::Visual =>
            Command::ChangeSelection,
        Input { key: Key::Char('S'), ctrl: false, .. } => Command::Substitute,
        Input { key: Key::Esc, .. } => Command::Leave,
        _ => Command::Wait,
    }
}

} // verus!
