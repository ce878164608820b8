# vim_textarea

Vim key bindings for the text area of [`ratatui-textarea`](https://crates.io/crates/ratatui-textarea),
verified with Verus.

- `src/` is the library. `Vim::transition` handles one key press; its contract says what becomes of
  the text, of the mode, and of what is to be put on the clipboard.
  - `model.rs` models a text with its cursor, selection, yank and history, and what each operation
    makes of it.
  - `editor.rs` wraps the text area. The contracts of its methods are believed, not proved.
  - `find.rs`, `number.rs` and `objects.rs` hold the searches, the numbers and the text objects.
  - `command.rs` and `vim.rs` hold the commands and the state machine, `mode.rs` the modes.
  - `laws.rs`, `edit_laws.rs` and `number_laws.rs` state what holds of the whole: what is cut can be
    pasted back, what is changed can be undone, `viwd` is `diw`, and so on.
- `app/` is ordinary Rust around the library: it reads the clipboard, sends actions, and logs.
- `tests/` run the library on concrete texts.

The text area jumps to rows and columns up to 65535. Places behind those are reached step by step.
Steps are stated over the widths of the characters; where lines are broken on the screen, some are
only named, and laws that depend on one say so.
