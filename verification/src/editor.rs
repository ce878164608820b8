//! The text area of `ratatui_textarea`, with the contracts of the methods that the emulation calls.
//!
//! Nothing in this file is proved. Each contract says what the method of the same name does to the
//! model of the text, [`TextState`].

use crate::key::Key::{
    Backspace, Delete, Down, Enter, Esc, Home, Left, MouseScrollDown, MouseScrollUp, PageDown,
    PageUp, Right, Tab, Up,
};
use crate::key::{Input, Key};
use crate::model::{
    cell_width, holds, kept_in_view, precedes, screen_move, Motion, Scroll, TextState,
};
use ratatui_textarea::{CursorMove, Key as K, Scrolling, TextArea};
use vstd::prelude::*;

verus! {

/// A text area of `ratatui_textarea`.
///
/// The field is for drawing it and for setting it up. No function of this library reads it but
/// those of this file.
#[verifier::external_body]
pub struct Editor<'a> {
    pub textarea: TextArea<'a>,
}

/// What a text area holds. How it is drawn, and what is searched for in it, is left out.
pub uninterp spec fn text_of(editor: Editor<'_>) -> TextState;

/// Two places in machine integers as places of the model.
pub open spec fn places_of(range: ((usize, usize), (usize, usize))) -> ((int, int), (int, int)) {
    let (start, end) = range;
    ((start.0 as int, start.1 as int), (end.0 as int, end.1 as int))
}

impl View for Editor<'_> {
    type V = TextState;

    open spec fn view(&self) -> TextState {
        text_of(*self)
    }
}

/// The lines of a text, each as the sequence of its characters.
pub open spec fn lines_view(lines: Seq<String>) -> Seq<Seq<char>> {
    lines.map_values(|line: String| line@)
}

impl Editor<'_> {
    /// A text area that holds `lines`, or one empty line where there are none.
    pub fn with_lines(lines: Vec<String>) -> (editor: Editor<'static>)
        ensures
            editor@ == TextState::fresh(lines_view(lines@)),
            editor@.wf(),
    {
        Editor::fresh(lines)
    }

    /// `TextArea::new` makes a text area with the lines, or one empty line where there are none,
    /// and its defaults for everything else.
    #[verifier::external_body]
    fn fresh(lines: Vec<String>) -> (editor: Editor<'static>)
        ensures
            text_of(editor) == TextState::fresh(lines_view(lines@)),
    {
        Editor { textarea: TextArea::new(lines) }
    }

    /// `TextArea::lines` returns the lines of the text. There is always one.
    #[verifier::external_body]
    pub(crate) fn lines(&self) -> (lines: &[String])
        ensures
            lines@.len() > 0,
            lines@.len() == text_of(*self).lines.len(),
            forall|i: int| 0 <= i < lines@.len() ==> (#[trigger] lines@[i])@ == self@.lines[i],
    {
        self.textarea.lines()
    }

    /// `TextArea::cursor` returns the row and the column of the cursor, which are in the text.
    #[verifier::external_body]
    pub(crate) fn cursor(&self) -> (place: (usize, usize))
        ensures
            (place.0 as int, place.1 as int) == self@.cursor,
            holds(self@.lines, (place.0 as int, place.1 as int)),
    {
        let place = self.textarea.cursor();
        (place.0, place.1)
    }

    /// `TextArea::is_selecting` answers whether a selection has been started.
    #[verifier::external_body]
    pub(crate) fn is_selecting(&self) -> (selecting: bool)
        ensures
            selecting == self@.anchor is Some,
    {
        self.textarea.is_selecting()
    }

    /// `TextArea::selection_range` returns where the selection was started and where the cursor
    /// is, the one that comes first in the text as the first.
    #[verifier::external_body]
    pub(crate) fn selection_range(&self) -> (range: Option<((usize, usize), (usize, usize))>)
        ensures
            match self@.anchor {
                Some(anchor) => {
                    &&& range is Some
                    &&& places_of(range->0) == if precedes(self@.cursor, anchor) {
                        (self@.cursor, anchor)
                    } else {
                        (anchor, self@.cursor)
                    }
                },
                None => range is None,
            },
    {
        self.textarea.selection_range()
    }

    /// `TextArea::yank_text` returns the yanked text, several lines joined by line feeds.
    #[verifier::external_body]
    pub(crate) fn yank_text(&self) -> (text: String)
        ensures
            text@ == self@.yank.text(),
    {
        self.textarea.yank_text()
    }

    /// `TextArea::set_yank_text` splits the text at its line feeds, drops a carriage return before
    /// one, and yanks the lines.
    #[verifier::external_body]
    pub(crate) fn set_yank_text(&mut self, text: String)
        ensures
            final(self)@ == old(self)@.yanking(text@),
    {
        self.textarea.set_yank_text(text)
    }

    /// `TextArea::start_selection` starts a selection at the cursor.
    #[verifier::external_body]
    pub(crate) fn start_selection(&mut self)
        ensures
            final(self)@ == old(self)@.anchored(),
    {
        self.textarea.start_selection()
    }

    /// `TextArea::cancel_selection` ends the selection.
    #[verifier::external_body]
    pub(crate) fn cancel_selection(&mut self)
        ensures
            final(self)@ == old(self)@.unanchored(),
    {
        self.textarea.cancel_selection()
    }

    /// `TextArea::copy` yanks what is selected and ends the selection.
    #[verifier::external_body]
    pub(crate) fn copy(&mut self)
        ensures
            final(self)@ == old(self)@.copied(),
    {
        self.textarea.copy()
    }

    /// `TextArea::cut` yanks what is selected, takes it out of the text and ends the selection.
    #[verifier::external_body]
    pub(crate) fn cut(&mut self)
        ensures
            final(self)@ == old(self)@.cut(),
    {
        self.textarea.cut();
    }

    /// `TextArea::paste` puts the yanked text in place of what is selected. It panics on a chunk
    /// of one line, and in a debug build on a piece that holds a line feed.
    #[verifier::external_body]
    pub(crate) fn paste(&mut self)
        requires
            old(self)@.yank.pastes(),
        ensures
            final(self)@ == old(self)@.pasted(),
    {
        self.textarea.paste();
    }

    /// `TextArea::insert_str` puts the lines of the text in place of what is selected.
    #[verifier::external_body]
    pub(crate) fn insert_str(&mut self, text: &str)
        ensures
            final(self)@ == old(self)@.typed(text@),
    {
        self.textarea.insert_str(text);
    }

    /// `TextArea::insert_newline` puts a line break in place of what is selected.
    #[verifier::external_body]
    pub(crate) fn insert_newline(&mut self)
        ensures
            final(self)@ == old(self)@.broken(),
    {
        self.textarea.insert_newline()
    }

    /// `TextArea::delete_str` deletes what is selected, without yanking it, or else yanks and
    /// deletes the next `chars` characters, counting a line break as one.
    #[verifier::external_body]
    pub(crate) fn delete_str(&mut self, chars: usize)
        ensures
            final(self)@ == old(self)@.deleted(chars as int),
    {
        self.textarea.delete_str(chars);
    }

    /// `TextArea::delete_line_by_end` deletes what is selected, without yanking it, or else yanks
    /// and deletes the rest of the line, or at its end deletes the line break.
    #[verifier::external_body]
    pub(crate) fn delete_line_by_end(&mut self)
        ensures
            final(self)@ == old(self)@.deleted_to_end(),
    {
        self.textarea.delete_line_by_end();
    }

    /// `TextArea::undo` undoes the last change that has not been undone, where one is remembered.
    #[verifier::external_body]
    pub(crate) fn undo(&mut self)
        ensures
            final(self)@ == old(self)@.undone(),
    {
        self.textarea.undo();
    }

    /// `TextArea::redo` makes the change that was undone last once more, where one is remembered.
    #[verifier::external_body]
    pub(crate) fn redo(&mut self)
        ensures
            final(self)@ == old(self)@.redone(),
    {
        self.textarea.redo();
    }

    /// `TextArea::move_cursor` moves the cursor, within the text. A selection stays started where
    /// it was. A character that takes a column of the screen is always stepped over. Where else a
    /// move by one column or one line of the screen ends in a text with broken lines, which depends
    /// on where they are broken, is only named.
    #[verifier::external_body]
    pub(crate) fn move_cursor(&mut self, motion: Motion)
        ensures
            final(self)@ == old(self)@.moved_to(
                old(self)@.target(
                    motion,
                    screen_move(old(self)@.lines, old(self)@.cursor, old(self)@.layout, motion),
                ),
            ),
            motion == Motion::Forward && old(self)@.cursor.1 < old(self)@.line().len() && old(
                self,
            )@.layout.mask is None && cell_width(old(self)@.line()[old(self)@.cursor.1]) > 0
                ==> final(self)@.cursor == (old(self)@.cursor.0, old(self)@.cursor.1 + 1),
            old(self)@.wf() ==> final(self)@.wf(),
    {
        self.textarea.move_cursor(match motion {
            Motion::Forward => CursorMove::Forward,
            Motion::Back => CursorMove::Back,
            Motion::Up => CursorMove::Up,
            Motion::Down => CursorMove::Down,
            Motion::Head => CursorMove::Head,
            Motion::End => CursorMove::End,
            Motion::Top => CursorMove::Top,
            Motion::Bottom => CursorMove::Bottom,
            Motion::WordForward => CursorMove::WordForward,
            Motion::WordEnd => CursorMove::WordEnd,
            Motion::WordBack => CursorMove::WordBack,
            Motion::Jump(row, col) => CursorMove::Jump(row, col),
        })
    }

    /// `TextArea::scroll` scrolls the view, and moves the cursor into it, within the text. A
    /// selection stays started where it was. In a text with broken lines, where the cursor is moved
    /// to depends on where they are broken and is only named. In a debug build the method panics
    /// where the distance overflows an `i16`.
    #[verifier::external_body]
    pub(crate) fn scroll(&mut self, scroll: Scroll)
        requires
            old(self)@.viewport.scrolls(scroll),
        ensures
            final(self)@ == old(self)@.scrolled_to(
                old(self)@.viewport.scrolled(scroll),
                kept_in_view(
                    old(self)@.lines,
                    old(self)@.cursor,
                    old(self)@.layout,
                    old(self)@.viewport.scrolled(scroll),
                ),
            ),
            old(self)@.wf() ==> final(self)@.wf(),
    {
        self.textarea.scroll(match scroll {
            Scroll::Rows(rows) => Scrolling::Delta { rows, cols: 0 },
            Scroll::PageDown => Scrolling::PageDown,
            Scroll::PageUp => Scrolling::PageUp,
            Scroll::HalfPageDown => Scrolling::HalfPageDown,
            Scroll::HalfPageUp => Scrolling::HalfPageUp,
        })
    }

    /// `TextArea::input` handles a key press by its default key mappings. The cursor stays in the
    /// text. The method pastes and scrolls on some keys, and panics where those do.
    #[verifier::external_body]
    pub(crate) fn input(&mut self, input: Input)
        requires
            old(self)@.takes_key(input),
        ensures
            final(self)@ == old(self)@.keyed(input),
            old(self)@.wf() ==> final(self)@.wf(),
    {
        let key = match input.key {
            Key::Char(c) => K::Char(c), Key::F(n) => K::F(n), Backspace => K::Backspace,
            Enter => K::Enter, Left => K::Left, Right => K::Right, Up => K::Up, Down => K::Down,
            Tab => K::Tab, Delete => K::Delete, Home => K::Home, Key::End => K::End,
            PageUp => K::PageUp, PageDown => K::PageDown, Esc => K::Esc, Key::Copy => K::Copy,
            Key::Cut => K::Cut, Key::Paste => K::Paste, Key::Null => K::Null,
            MouseScrollDown => K::MouseScrollDown, MouseScrollUp => K::MouseScrollUp,
        };
        self.textarea.input(ratatui_textarea::Input {
            key, ctrl: input.ctrl, alt: input.alt, shift: input.shift,
        });
    }
}

} // verus!
