//! Vim key bindings for a text area.
//!
//! [`vim::Vim::transition`] handles one key press: it changes the text of an [`editor::Editor`] and
//! says how the mode changes and what is to be put on the clipboard. What it does is stated over
//! the model of a text, [`model::TextState`]: [`command`] says which key gives which command and
//! what each command does, [`vim::effect`] puts the two together.
//!
//! The text area itself is that of `ratatui_textarea`. The contracts of its methods, in [`editor`],
//! are believed; everything that is built on them is proved. The modules whose names end in `laws`
//! state what holds of the whole.

pub mod chars;
pub mod command;
pub mod command_laws;
pub mod edit_laws;
pub mod editor;
pub mod find;
pub mod key;
pub mod key_laws;
pub mod laws;
pub mod lemmas;
pub mod mode;
pub mod model;
pub mod number;
pub mod number_laws;
pub mod objects;
pub mod selection_laws;
pub mod vim;
pub mod wf;
pub mod word_laws;
