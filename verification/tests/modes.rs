use ratatui::style::{Color, Modifier, Style};
use ratatui::text::Line;
use ratatui::widgets::{Block, Borders};
use tokio::sync::mpsc::unbounded_channel;
use vim_textarea::key::{Input, Key};
use vim_textarea::mode::{CursorLook, Hue, Mode};
use vim_textarea::vim::{Action, Vim};

fn framed(title: &'static str) -> Block<'static> {
    Block::default().borders(Borders::ALL).title_bottom(Line::from(title).right_aligned())
}

#[test]
fn names_of_the_modes() {
    assert_eq!(Mode::Normal.to_string(), "NORMAL");
    assert_eq!(Mode::Insert.to_string(), "INSERT");
    assert_eq!(Mode::Visual.to_string(), "VISUAL");
    assert_eq!(Mode::Replace.to_string(), "REPLACE");
    assert_eq!(Mode::Operator('d').to_string(), "OPERATOR(d)");
    assert_eq!(Mode::Operator('é').to_string(), "OPERATOR(é)");
}

#[test]
fn different_modes_have_different_names() {
    let modes = [
        Mode::Normal,
        Mode::Insert,
        Mode::Visual,
        Mode::Replace,
        Mode::Operator('y'),
        Mode::Operator('d'),
    ];
    for a in modes {
        for b in modes {
            assert_eq!(a == b, a.to_string() == b.to_string());
        }
    }
}

#[test]
fn blocks_show_the_mode() {
    assert_eq!(
        Mode::Normal.block(),
        framed(" NORMAL MODE (type i to enter insert mode, v to enter visual mode) ")
    );
    assert_eq!(Mode::Insert.block(), framed(" INSERT MODE (type Esc to back to normal mode) "));
    assert_eq!(
        Mode::Visual.block(),
        framed(
            " VISUAL MODE (type y to yank, type d to delete, type Esc to back to normal mode) "
        )
    );
    assert_eq!(
        Mode::Replace.block(),
        framed(" REPLACE MODE (type character to replace underlined) ")
    );
    assert_eq!(
        Mode::Operator('c').block(),
        framed(" OPERATOR(c) MODE (move cursor to apply operator) ")
    );
    assert_ne!(Mode::Normal.block(), Block::default());
    assert_ne!(Mode::Normal.block(), Mode::Insert.block());
}

#[test]
fn titles_and_help() {
    assert_eq!(Mode::Insert.help(), "type Esc to back to normal mode");
    assert_eq!(Mode::Insert.title(), " INSERT MODE (type Esc to back to normal mode) ");
    assert_eq!(Mode::Operator('y').title(), " OPERATOR(y) MODE (move cursor to apply operator) ");
}

#[test]
fn cursor_styles() {
    let style = |color: Color, modifier: Modifier| Style::default().fg(color).add_modifier(modifier);
    assert_eq!(Mode::Normal.cursor_style(), style(Color::Reset, Modifier::REVERSED));
    assert_eq!(
        Mode::Insert.cursor_style(),
        style(Color::LightBlue, Modifier::SLOW_BLINK | Modifier::REVERSED)
    );
    assert_eq!(Mode::Visual.cursor_style(), style(Color::LightYellow, Modifier::REVERSED));
    assert_eq!(
        Mode::Replace.cursor_style(),
        style(Color::LightMagenta, Modifier::UNDERLINED | Modifier::REVERSED)
    );
    assert_eq!(Mode::Operator('d').cursor_style(), style(Color::LightGreen, Modifier::REVERSED));
}

#[test]
fn cursor_looks() {
    assert_eq!(
        Mode::Replace.cursor_look(),
        CursorLook { hue: Hue::LightMagenta, reversed: true, underlined: true, slow_blink: false }
    );
    assert_eq!(
        Mode::Insert.cursor_look(),
        CursorLook { hue: Hue::LightBlue, reversed: true, underlined: false, slow_blink: true }
    );
}

#[test]
fn the_emulation_starts_in_normal_mode() {
    assert_eq!(Mode::default(), Mode::Normal);
    let vim = Vim::default();
    assert_eq!(vim.mode, Mode::Normal);
    assert_eq!(vim.pending, Input { key: Key::Null, ctrl: false, alt: false, shift: false });
    assert!(vim.command_tx.is_none());
}

#[test]
fn a_pending_key_drops_the_handler() {
    let (tx, _rx) = unbounded_channel::<Action>();
    let mut vim = Vim::new(Mode::Visual);
    assert_eq!(vim.pending, Input::default());
    vim.register_action_handler(Some(tx));
    assert!(vim.command_tx.is_some());
    assert_eq!(vim.mode, Mode::Visual);
    let g = Input { key: Key::Char('g'), ctrl: false, alt: false, shift: false };
    let copy = vim.clone().with_pending(g);
    assert_eq!(copy.mode, Mode::Visual);
    assert_eq!(copy.pending, g);
    assert!(copy.command_tx.is_none());
    vim.register_action_handler(None);
    assert!(vim.command_tx.is_none());
}

#[test]
fn actions_need_a_handler() {
    let (tx, _rx) = unbounded_channel::<Action>();
    let mut vim = Vim::new(Mode::Normal);
    assert_eq!(vim.send_copy_action_with_text(String::from("a")), None);
    vim.register_action_handler(Some(tx));
    assert_eq!(
        vim.send_copy_action_with_text(String::from("a")),
        Some(Action::CopyData(String::from("a")))
    );
}
