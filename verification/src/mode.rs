//! The modes of the emulation, and how they are shown.

use ratatui::layout::Alignment;
use ratatui::style::{Color, Modifier, Style};
use ratatui::text::Line;
use ratatui::widgets::{Block, Borders};
use vstd::prelude::*;
use vstd::string::*;

verus! {

/// The frame around a text area.
#[verifier::external_type_specification]
#[verifier::external_body]
pub struct ExBlock<'a>(pub ratatui::widgets::Block<'a>);

/// The style of a piece of text.
#[verifier::external_type_specification]
#[verifier::external_body]
pub struct ExStyle(pub ratatui::style::Style);

/// A mode of the emulation.
#[derive(Debug, Clone, Copy, PartialEq, Eq, Structural)]
pub enum Mode {
    /// Keys are commands.
    Normal,
    /// Keys type text.
    Insert,
    /// Keys are commands, motions extend a selection.
    Visual,
    /// The next key replaces the character under the cursor.
    Replace,
    /// The next motion or text object is what the operator works on.
    Operator(char),
}

/// The colours that cursors have.
#[derive(Debug, Clone, Copy, PartialEq, Eq, Structural)]
pub enum Hue {
    Reset,
    LightBlue,
    LightYellow,
    LightMagenta,
    LightGreen,
}

/// How a cursor looks.
#[derive(Debug, Clone, Copy, PartialEq, Eq, Structural)]
pub struct CursorLook {
    pub hue: Hue,
    pub reversed: bool,
    pub underlined: bool,
    pub slow_blink: bool,
}

/// How a title stands on its side of the frame.
#[derive(Debug, Clone, Copy, PartialEq, Eq, Structural)]
pub enum TitleAlignment {
    Left,
    Center,
    Right,
}

/// How a frame looks: the sides that have a border, and how the title at the bottom is aligned.
#[derive(Debug, Clone, Copy, PartialEq, Eq, Structural)]
pub struct FrameLook {
    pub top: bool,
    pub right: bool,
    pub bottom: bool,
    pub left: bool,
    pub title: TitleAlignment,
}

/// The block of `ratatui` with the borders, and the title, so aligned, at the bottom.
pub uninterp spec fn frame_of(
    look: FrameLook,
    title: Seq<char>,
) -> ratatui::widgets::Block<'static>;

/// The style of `ratatui` with the colour as its foreground and the modifiers added.
pub uninterp spec fn style_of(look: CursorLook) -> ratatui::style::Style;

/// `Block::borders` and `Block::title_bottom` build a block with borders and a line at the bottom,
/// which `Line::alignment` aligns. The block depends on those and on the title alone.
#[verifier::external_body]
fn framed(look: FrameLook, title: String) -> (block: Block<'static>)
    ensures
        block == frame_of(look, title@),
{
    let mut borders = Borders::NONE;
    borders.set(Borders::TOP, look.top);
    borders.set(Borders::RIGHT, look.right);
    borders.set(Borders::BOTTOM, look.bottom);
    borders.set(Borders::LEFT, look.left);
    let alignment = match look.title {
        TitleAlignment::Left => Alignment::Left,
        TitleAlignment::Center => Alignment::Center,
        TitleAlignment::Right => Alignment::Right,
    };
    Block::default().borders(borders).title_bottom(Line::from(title).alignment(alignment))
}

/// `Style::fg` and `Style::add_modifier` build a style from a colour and modifiers. It depends on
/// them alone.
#[verifier::external_body]
fn styled(look: CursorLook) -> (style: Style)
    ensures
        style == style_of(look),
{
    let mut modifier = Modifier::empty();
    modifier.set(Modifier::REVERSED, look.reversed);
    modifier.set(Modifier::UNDERLINED, look.underlined);
    modifier.set(Modifier::SLOW_BLINK, look.slow_blink);
    let color = match look.hue {
        Hue::Reset => Color::Reset,
        Hue::LightBlue => Color::LightBlue,
        Hue::LightYellow => Color::LightYellow,
        Hue::LightMagenta => Color::LightMagenta,
        Hue::LightGreen => Color::LightGreen,
    };
    Style::default().fg(color).add_modifier(modifier)
}

impl Default for Mode {
    /// The mode that the emulation starts in.
    fn default() -> (mode: Self)
        ensures
            mode == Mode::Normal,
    {
        Mode::Normal
    }
}

impl Mode {
    /// The name of the mode.
    pub open spec fn name(self) -> Seq<char> {
        match self {
            Mode::Normal => "NORMAL"@,
            Mode::Insert => "INSERT"@,
            Mode::Visual => "VISUAL"@,
            Mode::Replace => "REPLACE"@,
            Mode::Operator(c) => "OPERATOR("@.push(c) + ")"@,
        }
    }

    /// What can be done in the mode.
    pub open spec fn hint(self) -> Seq<char> {
        match self {
            Mode::Normal => "type i to enter insert mode, v to enter visual mode"@,
            Mode::Insert => "type Esc to back to normal mode"@,
            Mode::Visual => "type y to yank, type d to delete, type Esc to back to normal mode"@,
            Mode::Replace => "type character to replace underlined"@,
            Mode::Operator(_) => "move cursor to apply operator"@,
        }
    }

    /// The name of the mode and what can be done in it.
    pub open spec fn caption(self) -> Seq<char> {
        " "@ + self.name() + " MODE ("@ + self.hint() + ") "@
    }

    /// How the cursor looks in the mode.
    pub open spec fn look(self) -> CursorLook {
        CursorLook {
            hue: match self {
                Mode::Normal => Hue::Reset,
                Mode::Insert => Hue::LightBlue,
                Mode::Visual => Hue::LightYellow,
                Mode::Replace => Hue::LightMagenta,
                Mode::Operator(_) => Hue::LightGreen,
            },
            reversed: true,
            underlined: self == Mode::Replace,
            slow_blink: self == Mode::Insert,
        }
    }

    /// The name of the mode, with the operator where one waits for its motion.
    pub fn to_string(&self) -> (text: String)
        ensures
            text@ == self.name(),
    {
        match self {
            Mode::Normal => String::from_str("NORMAL"),
            Mode::Insert => String::from_str("INSERT"),
            Mode::Visual => String::from_str("VISUAL"),
            Mode::Replace => String::from_str("REPLACE"),
            Mode::Operator(c) => {
                let mut text: String = String::from_str("OPERATOR(");
                text.push(*c);
                text.append(")");
                text
            },
        }
    }

    /// What can be done in the mode.
    pub fn help(&self) -> (help: &'static str)
        ensures
            help@ == self.hint(),
    {
        match self {
            Mode::Normal => "type i to enter insert mode, v to enter visual mode",
            Mode::Insert => "type Esc to back to normal mode",
            Mode::Visual => "type y to yank, type d to delete, type Esc to back to normal mode",
            Mode::Replace => "type character to replace underlined",
            Mode::Operator(_) => "move cursor to apply operator",
        }
    }

    /// The line at the bottom of the frame.
    pub fn title(&self) -> (title: String)
        ensures
            title@ == self.caption(),
    {
        let mut title: String = String::from_str(" ");
        title.append(self.to_string().as_str());
        title.append(" MODE (");
        title.append(self.help());
        title.append(") ");
        title
    }

    /// The frame around the text: borders on all sides, and a title that shows the mode at the
    /// bottom, aligned to the right.
    pub fn block<'a>(&self) -> (block: Block<'a>)
        ensures
            block == frame_of(
                (FrameLook {
                    top: true,
                    right: true,
                    bottom: true,
                    left: true,
                    title: TitleAlignment::Right,
                }),
                self.caption(),
            ),
    {
        let look = FrameLook {
            top: true,
            right: true,
            bottom: true,
            left: true,
            title: TitleAlignment::Right,
        };
        framed(look, self.title())
    }

    /// How the cursor looks in the mode.
    pub fn cursor_look(&self) -> (look: CursorLook)
        ensures
            look == self.look(),
    {
        match self {
            Mode::Normal => CursorLook {
                hue: Hue::Reset,
                reversed: true,
                underlined: false,
                slow_blink: false,
            },
            Mode::Insert => CursorLook {
                hue: Hue::LightBlue,
                reversed: true,
                underlined: false,
                slow_blink: true,
            },
            Mode::Visual => CursorLook {
                hue: Hue::LightYellow,
                reversed: true,
                underlined: false,
                slow_blink: false,
            },
            Mode::Replace => CursorLook {
                hue: Hue::LightMagenta,
                reversed: true,
                underlined: true,
                slow_blink: false,
            },
            Mode::Operator(_) => CursorLook {
                hue: Hue::LightGreen,
                reversed: true,
                underlined: false,
                slow_blink: false,
            },
        }
    }

    /// The style of the cursor in the mode.
    pub fn cursor_style(&self) -> (style: Style)
        ensures
            style == style_of(self.look()),
    {
        styled(self.cursor_look())
    }
}

} // verus!
