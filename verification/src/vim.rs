//! The emulation: its state, and what a key press does to it and to the text.

use crate::command::{command_of, decode, operated, Command, Transition};
use crate::editor::Editor;
use crate::key::{Input, Key};
use crate::mode::Mode;
use crate::model::{Motion, TextState};
use crate::objects::{
    include_cursor, increment_number_under_cursor, move_cursor_big_word_backward,
    move_cursor_big_word_forward, select_inner_big_word, select_inner_quoted, select_inner_word,
};
use crate::wf::{group_wf, lemma_deleted_wf};
use tokio::sync::mpsc::UnboundedSender;
use vstd::prelude::*;

verus! {

/// The sending half of a channel.
#[verifier::external_type_specification]
#[verifier::external_body]
#[verifier::reject_recursive_types(T)]
pub struct ExUnboundedSender<T>(pub tokio::sync::mpsc::UnboundedSender<T>);

/// What the emulation asks of the program around it.
#[derive(Debug, Clone, PartialEq, Eq)]
pub enum Action {
    /// To put the text on the clipboard.
    CopyData(String),
}

/// The state of the emulation.
#[derive(Clone)]
pub struct Vim {
    pub mode: Mode,
    /// The first key of a command with two, such as `gg`.
    pub pending: Input,
    /// Where actions are sent.
    pub command_tx: Option<UnboundedSender<Action>>,
}

/// What comes of a key press beside the change of the text.
pub struct Outcome {
    /// How the state of the emulation changes.
    pub transition: Transition,
    /// What is to be sent to the action handler.
    pub action: Option<Action>,
}

/// What a key press does.
pub struct Effect {
    pub text: TextState,
    pub transition: Transition,
    /// The text that is handed to an action handler.
    pub copied: Option<Seq<char>>,
}

/// The text that an action puts on the clipboard.
pub open spec fn copied_by(action: Option<Action>) -> Option<Seq<char>> {
    match action {
        Some(Action::CopyData(text)) => Some(text@),
        None => None,
    }
}

/// The characters of a text that may be missing.
pub open spec fn chars_in(text: Option<String>) -> Option<Seq<char>> {
    match text {
        Some(text) => Some(text@),
        None => None,
    }
}

/// The key press leaves the modes in which keys type text.
pub open spec fn leaves(input: Input) -> bool {
    input.key == Key::Esc || (input.key == Key::Char('c') && input.ctrl)
}

/// Keys are commands in the mode.
pub open spec fn takes_commands(mode: Mode) -> bool {
    mode is Normal || mode is Visual || mode is Operator
}

/// What a key press does in a mode, behind the key `pending`.
pub open spec fn effect(
    mode: Mode,
    pending: Input,
    input: Input,
    clipboard: Option<Seq<char>>,
    text: TextState,
) -> Effect {
    if input.key == Key::Null {
        Effect { text, transition: Transition::Nop, copied: None }
    } else if takes_commands(mode) {
        let command = command_of(mode, pending, input);
        let after = command.text(mode, clipboard, text);
        Effect {
            text: after,
            transition: command.next(mode, input),
            copied: if command.hands_on(mode) {
                Some(after.yank.text())
            } else {
                None
            },
        }
    } else if leaves(input) {
        Effect { text, transition: Transition::Mode(Mode::Normal), copied: None }
    } else if mode is Insert {
        Effect {
            text: text.keyed(input),
            transition: Transition::Mode(Mode::Insert),
            copied: None,
        }
    } else {
        Effect {
            text: text.deleted(1).keyed(input),
            transition: Transition::Mode(Mode::Normal),
            copied: None,
        }
    }
}

/// The text area can carry out what the key press asks for. Only pasting and scrolling depend on
/// what it holds: a yank must be one that can be pasted, and a distance one that can be scrolled.
pub open spec fn accepts(
    mode: Mode,
    pending: Input,
    input: Input,
    clipboard: Option<Seq<char>>,
    text: TextState,
) -> bool {
    if input.key == Key::Null {
        true
    } else if takes_commands(mode) {
        command_of(mode, pending, input).accepted(clipboard, text)
    } else if leaves(input) {
        true
    } else if mode is Insert {
        text.takes_key(input)
    } else {
        text.deleted(1).takes_key(input)
    }
}

impl Default for Vim {
    /// The state that the emulation starts in: normal mode, no key waiting, nobody to send to.
    fn default() -> (vim: Self)
        ensures
            vim.mode == Mode::Normal,
            vim.pending == (Input { key: Key::Null, ctrl: false, alt: false, shift: false }),
            vim.command_tx is None,
    {
        Vim::new(Mode::default())
    }
}

impl Vim {
    /// The emulation in `mode`, with no key waiting and nobody to send to.
    pub fn new(mode: Mode) -> (vim: Self)
        ensures
            vim.mode == mode,
            vim.pending == (Input { key: Key::Null, ctrl: false, alt: false, shift: false }),
            vim.command_tx is None,
    {
        Self { mode, pending: Input::default(), command_tx: None }
    }

    /// The emulation in the same mode, with the key `pending` waiting and nobody to send to.
    pub fn with_pending(self, pending: Input) -> (vim: Self)
        ensures
            vim.mode == self.mode,
            vim.pending == pending,
            vim.command_tx is None,
    {
        Self { mode: self.mode, pending, command_tx: None }
    }

    /// Sets, or takes away, the sender that actions go to.
    pub fn register_action_handler(&mut self, tx: Option<UnboundedSender<Action>>)
        ensures
            *final(self) == (Vim { command_tx: tx, ..*old(self) }),
    {
        self.command_tx = tx;
    }

    /// Answers whether the key press pastes, so that the clipboard is to be read before it is
    /// handled.
    pub fn reads_clipboard(&self, input: Input) -> (reads: bool)
        ensures
            reads == (takes_commands(self.mode) && command_of(self.mode, self.pending, input)
                is Paste),
            reads == (takes_commands(self.mode) && input.key == Key::Char('p')),
    {
        match self.mode {
            Mode::Insert | Mode::Replace => false,
            _ => match decode(self.mode, self.pending, input) {
                Command::Paste => true,
                _ => false,
            },
        }
    }

    /// Handles a key press: changes the text, and says how the state of the emulation changes and
    /// what is to be sent. `clipboard` is the text on the clipboard, where it could be read; it
    /// counts for pasting only.
    pub fn transition(
        &self,
        input: Input,
        clipboard: Option<String>,
        textarea: &mut Editor<'_>,
    ) -> (outcome: Outcome)
        requires
            accepts(self.mode, self.pending, input, chars_in(clipboard), old(textarea)@),
        ensures
            ({
                let effect = effect(
                    self.mode,
                    self.pending,
                    input,
                    chars_in(clipboard),
                    old(textarea)@,
                );
                &&& final(textarea)@ == effect.text
                &&& outcome.transition == effect.transition
                &&& copied_by(outcome.action) == if self.command_tx is Some {
                    effect.copied
                } else {
                    None
                }
            }),
            old(textarea)@.wf() ==> final(textarea)@.wf(),
    {
        broadcast use lemma_deleted_wf;

        if input.key == Key::Null {
            return Outcome { transition: Transition::Nop, action: None };
        }
        match self.mode {
            Mode::Insert => {
                if input.key == Key::Esc || (input.key == Key::Char('c') && input.ctrl) {
                    return Outcome { transition: Transition::Mode(Mode::Normal), action: None };
                }
                textarea.input(input);
                Outcome { transition: Transition::Mode(Mode::Insert), action: None }
            },
            Mode::Replace => {
                if input.key == Key::Esc || (input.key == Key::Char('c') && input.ctrl) {
                    return Outcome { transition: Transition::Mode(Mode::Normal), action: None };
                }
                textarea.delete_str(1);
                textarea.input(input);
                Outcome { transition: Transition::Mode(Mode::Normal), action: None }
            },
            _ => {
                let command = decode(self.mode, self.pending, input);
                self.carry_out(command, input, clipboard, textarea)
            },
        }
    }

    /// Carries out a command, and the operator that waited for it.
    fn carry_out(
        &self,
        command: Command,
        input: Input,
        clipboard: Option<String>,
        textarea: &mut Editor<'_>,
    ) -> (outcome: Outcome)
        requires
            command.accepted(chars_in(clipboard), old(textarea)@),
        ensures
            final(textarea)@ == command.text(self.mode, chars_in(clipboard), old(textarea)@),
            outcome.transition == command.next(self.mode, input),
            copied_by(outcome.action) == if self.command_tx is Some && command.hands_on(
                self.mode,
            ) {
                Some(final(textarea)@.yank.text())
            } else {
                None
            },
            old(textarea)@.wf() ==> final(textarea)@.wf(),
    {
        if self.aim(command, textarea) {
            self.operate(textarea)
        } else {
            self.execute(command, input, clipboard, textarea)
        }
    }

    /// Carries out a command that a waiting operator builds on, and answers whether it is one.
    fn aim(&self, command: Command, textarea: &mut Editor<'_>) -> (aims: bool)
        requires
            command matches Command::Scroll(scroll) ==> old(textarea)@.viewport.scrolls(scroll),
        ensures
            aims == command.aims(),
            aims ==> final(textarea)@ == command.aimed(self.mode, old(textarea)@),
            !aims ==> final(textarea)@ == old(textarea)@,
            old(textarea)@.wf() ==> final(textarea)@.wf(),
    {
        broadcast use group_wf;

        proof {
            reveal(Command::aimed);
        }
        let visual: bool = self.mode == Mode::Visual;
        match command {
            Command::Move(motion) => textarea.move_cursor(motion),
            Command::BigWordForward => move_cursor_big_word_forward(textarea),
            Command::BigWordBack => move_cursor_big_word_backward(textarea),
            Command::InnerWord => select_inner_word(textarea, visual),
            Command::InnerBigWord => select_inner_big_word(textarea, visual),
            Command::InnerQuoted => select_inner_quoted(textarea, '"', visual),
            Command::WholeLine => {
                textarea.move_cursor(Motion::Head);
                textarea.start_selection();
                let cursor = textarea.cursor();
                textarea.move_cursor(Motion::Down);
                let below = textarea.cursor();
                if cursor.0 == below.0 && cursor.1 == below.1 {
                    // On the last line there is no next one to go to.
                    textarea.move_cursor(Motion::End);
                }
            },
            Command::Scroll(scroll) => textarea.scroll(scroll),
            Command::Increment(delta) => increment_number_under_cursor(textarea, delta),
            _ => return false,
        }
        true
    }

    /// Carries out the operator that waits, on what is selected.
    fn operate(&self, textarea: &mut Editor<'_>) -> (outcome: Outcome)
        ensures
            final(textarea)@ == operated(self.mode, old(textarea)@),
            outcome.transition == match self.mode {
                Mode::Operator('y') | Mode::Operator('d') => Transition::Mode(Mode::Normal),
                Mode::Operator('c') => Transition::Mode(Mode::Insert),
                _ => Transition::Nop,
            },
            copied_by(outcome.action) == if self.command_tx is Some && (self.mode
                == Mode::Operator('y') || self.mode == Mode::Operator('c')) {
                Some(final(textarea)@.yank.text())
            } else {
                None
            },
            old(textarea)@.wf() ==> final(textarea)@.wf(),
    {
        broadcast use group_wf;

        match self.mode {
            Mode::Operator('y') => {
                textarea.copy();
                Outcome {
                    transition: Transition::Mode(Mode::Normal),
                    action: self.send_copy_action_with_text(textarea.yank_text()),
                }
            },
            Mode::Operator('d') => {
                textarea.cut();
                Outcome { transition: Transition::Mode(Mode::Normal), action: None }
            },
            Mode::Operator('c') => {
                textarea.cut();
                Outcome {
                    transition: Transition::Mode(Mode::Insert),
                    action: self.send_copy_action_with_text(textarea.yank_text()),
                }
            },
            _ => Outcome { transition: Transition::Nop, action: None },
        }
    }

    /// Carries out a command that is complete.
    fn execute(
        &self,
        command: Command,
        input: Input,
        clipboard: Option<String>,
        textarea: &mut Editor<'_>,
    ) -> (outcome: Outcome)
        requires
            !command.aims(),
            command.accepted(chars_in(clipboard), old(textarea)@),
        ensures
            final(textarea)@ == command.executed(self.mode, chars_in(clipboard), old(textarea)@),
            outcome.transition == command.next(self.mode, input),
            copied_by(outcome.action) == if self.command_tx is Some && command.hands_on(
                self.mode,
            ) {
                Some(final(textarea)@.yank.text())
            } else {
                None
            },
            old(textarea)@.wf() ==> final(textarea)@.wf(),
    {
        broadcast use group_wf;

        proof {
            reveal(Command::executed);
        }
        let mut action: Option<Action> = None;
        let mode: Mode = match command {
            Command::DeleteToEnd => {
                textarea.delete_line_by_end();
                Mode::Normal
            },
            Command::ChangeToEnd => {
                textarea.delete_line_by_end();
                textarea.cancel_selection();
                Mode::Insert
            },
            Command::Paste => {
                if let Some(text) = clipboard {
                    textarea.set_yank_text(text);
                }
                textarea.paste();
                Mode::Normal
            },
            Command::Undo => {
                textarea.undo();
                Mode::Normal
            },
            Command::Redo => {
                textarea.redo();
                Mode::Normal
            },
            Command::Replace => Mode::Replace,
            Command::Cut => {
                if !textarea.is_selecting() {
                    textarea.start_selection();
                }
                include_cursor(textarea);
                textarea.cut();
                action = self.send_copy_action_with_text(textarea.yank_text());
                Mode::Normal
            },
            Command::CutBefore => {
                if self.mode == Mode::Visual {
                    textarea.move_cursor(Motion::Head);
                    textarea.start_selection();
                    textarea.move_cursor(Motion::End);
                } else {
                    textarea.start_selection();
                    textarea.move_cursor(Motion::Back);
                }
                textarea.cut();
                action = self.send_copy_action_with_text(textarea.yank_text());
                Mode::Normal
            },
            Command::Insert => {
                textarea.cancel_selection();
                Mode::Insert
            },
            Command::SelectWord => {
                textarea.cancel_selection();
                textarea.move_cursor(Motion::Forward);
                textarea.move_cursor(Motion::WordBack);
                textarea.start_selection();
                return Outcome { transition: Transition::Nop, action: None };
            },
            Command::Append => {
                textarea.cancel_selection();
                textarea.move_cursor(Motion::Forward);
                Mode::Insert
            },
            Command::AppendAtEnd => {
                textarea.cancel_selection();
                textarea.move_cursor(Motion::End);
                Mode::Insert
            },
            Command::OpenBelow => {
                textarea.move_cursor(Motion::End);
                textarea.insert_newline();
                Mode::Insert
            },
            Command::OpenAbove => {
                textarea.move_cursor(Motion::Head);
                textarea.insert_newline();
                textarea.move_cursor(Motion::Up);
                Mode::Insert
            },
            Command::InsertAtHead => {
                textarea.cancel_selection();
                textarea.move_cursor(Motion::Head);
                Mode::Insert
            },
            Command::StartVisual => {
                textarea.start_selection();
                Mode::Visual
            },
            Command::StartVisualLine => {
                textarea.move_cursor(Motion::Head);
                textarea.start_selection();
                textarea.move_cursor(Motion::End);
                Mode::Visual
            },
            Command::Leave => {
                textarea.cancel_selection();
                Mode::Normal
            },
            Command::Operate(operator) => {
                textarea.start_selection();
                Mode::Operator(operator)
            },
            Command::YankSelection => {
                include_cursor(textarea);
                textarea.copy();
                action = self.send_copy_action_with_text(textarea.yank_text());
                Mode::Normal
            },
            Command::DeleteSelection => {
                include_cursor(textarea);
                textarea.cut();
                Mode::Normal
            },
            Command::ChangeSelection => {
                include_cursor(textarea);
                textarea.cut();
                action = self.send_copy_action_with_text(textarea.yank_text());
                Mode::Insert
            },
            Command::Substitute => {
                textarea.move_cursor(Motion::Head);
                textarea.start_selection();
                textarea.move_cursor(Motion::End);
                textarea.cut();
                action = self.send_copy_action_with_text(textarea.yank_text());
                Mode::Insert
            },
            _ => return Outcome { transition: Transition::Pending(input), action: None },
        };
        Outcome { transition: Transition::Mode(mode), action }
    }

    /// The action that asks to put `text` on the clipboard, where there is somebody to send it to.
    pub fn send_copy_action_with_text(&self, text: String) -> (action: Option<Action>)
        ensures
            action == if self.command_tx is Some {
                Some(Action::CopyData(text))
            } else {
                None
            },
    {
        if self.command_tx.is_some() {
            Some(Action::CopyData(text))
        } else {
            None
        }
    }
}

} // verus!
