use ratatui::buffer::Buffer;
use ratatui::layout::Rect;
use ratatui::widgets::Widget;
use ratatui_textarea::{TextArea, WrapMode};
use vim_textarea::command::Transition;
use vim_textarea::editor::Editor;
use vim_textarea::key::{Input, Key};
use vim_textarea::mode::Mode;
use vim_textarea::objects::{
    get_selection_direction, include_cursor, increment_number_under_cursor,
    move_cursor_big_word_backward, move_cursor_big_word_forward, select_inner_big_word,
    select_inner_quoted, select_inner_word, SelectionDirection,
};
use vim_textarea::vim::Vim;

fn bare(c: char) -> Input {
    Input { key: Key::Char(c), ctrl: false, alt: false, shift: false }
}

fn ctrl(c: char) -> Input {
    Input { key: Key::Char(c), ctrl: true, alt: false, shift: false }
}

fn special(key: Key) -> Input {
    Input { key, ctrl: false, alt: false, shift: false }
}

fn draw(editor: &Editor<'_>) {
    let area = Rect { x: 0, y: 0, width: 24, height: 8 };
    let mut buffer = Buffer::empty(area);
    (&editor.textarea).render(area, &mut buffer);
}

fn cursor(editor: &Editor<'_>) -> (usize, usize) {
    let place = editor.textarea.cursor();
    (place.0, place.1)
}

fn twenty_lines() -> Editor<'static> {
    let mut textarea: TextArea<'static> = TextArea::default();
    for i in 0..20 {
        textarea.insert_str(format!("{}", i));
        if i < 19 {
            textarea.insert_newline();
        }
    }
    textarea.move_cursor(ratatui_textarea::CursorMove::Jump(0, 0));
    let editor = Editor { textarea };
    draw(&editor);
    editor
}

fn normal(editor: &mut Editor<'_>, key: Input) {
    let outcome = Vim::new(Mode::Normal).transition(key, None, editor);
    assert_eq!(outcome.transition, Transition::Nop);
    assert_eq!(outcome.action, None);
}

#[test]
fn scrolling_down() {
    for (key, row) in [
        (ctrl('e'), 1),
        (ctrl('d'), 4),
        (ctrl('f'), 8),
        (special(Key::PageDown), 8),
    ] {
        let mut editor = twenty_lines();
        normal(&mut editor, key);
        assert_eq!(cursor(&editor), (row, 0));
        assert_eq!(editor.textarea.lines().len(), 20);
    }
}

#[test]
fn scrolling_up() {
    for (key, row) in [
        (ctrl('y'), 18),
        (ctrl('u'), 15),
        (ctrl('b'), 11),
        (special(Key::PageUp), 11),
    ] {
        let mut editor = twenty_lines();
        normal(&mut editor, bare('G'));
        draw(&editor);
        assert_eq!(cursor(&editor), (19, 0));
        normal(&mut editor, key);
        assert_eq!(cursor(&editor), (row, 0));
    }
}

#[test]
fn motions_in_wrapped_lines() {
    let mut textarea: TextArea<'static> = TextArea::default();
    textarea.insert_str("some words that are longer than the screen is wide");
    textarea.set_wrap_mode(WrapMode::Word);
    textarea.move_cursor(ratatui_textarea::CursorMove::Head);
    let mut editor = Editor { textarea };
    draw(&editor);
    normal(&mut editor, bare('j'));
    let (row, col) = cursor(&editor);
    assert_eq!(row, 0);
    assert!(col > 0);
    normal(&mut editor, bare('$'));
    assert_eq!(cursor(&editor), (0, 50));
}

#[test]
fn single_steps_in_wrapped_lines() {
    let line = "some words that are longer than the screen is wide";
    for col in 0..50 {
        let mut textarea: TextArea<'static> = TextArea::default();
        textarea.insert_str(line);
        textarea.set_wrap_mode(WrapMode::Word);
        let mut editor = Editor { textarea };
        draw(&editor);
        editor.textarea.move_cursor(ratatui_textarea::CursorMove::Jump(0, col));
        normal(&mut editor, bare('l'));
        assert_eq!(cursor(&editor), (0, col as usize + 1));
        normal(&mut editor, bare('h'));
        assert_eq!(cursor(&editor), (0, col as usize));
        Vim::new(Mode::Normal).transition(bare('x'), None, &mut editor);
        let mut rest: Vec<char> = line.chars().collect();
        rest.remove(col as usize);
        assert_eq!(editor.textarea.lines(), [rest.into_iter().collect::<String>()]);
    }
}

#[test]
fn single_steps_over_any_width() {
    let line = "é日e\u{301}\tｱﾞx";
    for col in 0..8 {
        let mut editor = with_cursor(line, col);
        normal(&mut editor, bare('l'));
        assert_eq!(cursor(&editor), (0, col as usize + 1));
        normal(&mut editor, bare('h'));
        assert_eq!(cursor(&editor), (0, col as usize));
    }
    let mut editor = with_cursor("a\u{301}", 1);
    normal(&mut editor, bare('l'));
    assert_eq!(cursor(&editor), (1, 0));
    normal(&mut editor, bare('h'));
    assert_eq!(cursor(&editor), (0, 1));
}

#[test]
fn columns_of_the_screen_between_lines() {
    let lines = ["日本語", "abcdef", "\tx", "a\u{301}bc"];
    for (from, row, to) in [
        ((0, 1), 1, 2),
        ((1, 3), 0, 1),
        ((1, 3), 2, 0),
        ((1, 5), 2, 2),
        ((2, 1), 1, 4),
        ((2, 1), 3, 4),
        ((3, 3), 2, 0),
    ] {
        let mut editor = Editor::with_lines(lines.iter().map(|l| String::from(*l)).collect());
        editor.textarea.move_cursor(ratatui_textarea::CursorMove::Jump(from.0, from.1));
        let key = if row > from.0 { bare('j') } else { bare('k') };
        normal(&mut editor, key);
        assert_eq!(cursor(&editor), (row as usize, to), "{:?}", from);
    }
}

#[test]
fn numbers_behind_a_mask() {
    let mut editor = with_cursor("pin 0199", 0);
    editor.textarea.set_mask_char('•');
    normal(&mut editor, ctrl('a'));
    assert_eq!(editor.textarea.lines()[0], "pin 0200");
    assert_eq!(cursor(&editor), (0, 7));
    normal(&mut editor, ctrl('x'));
    assert_eq!(editor.textarea.lines()[0], "pin 0199");
}

#[test]
fn numbers_in_wrapped_lines() {
    let line = "some words that are longer than the screen 99 is wide";
    let mut textarea: TextArea<'static> = TextArea::default();
    textarea.insert_str(line);
    textarea.set_wrap_mode(WrapMode::Glyph);
    textarea.move_cursor(ratatui_textarea::CursorMove::Head);
    let mut editor = Editor { textarea };
    draw(&editor);
    normal(&mut editor, ctrl('a'));
    assert_eq!(editor.textarea.lines(), [line.replace("99", "100")]);
    assert_eq!(cursor(&editor), (0, 45));
    normal(&mut editor, ctrl('x'));
    assert_eq!(editor.textarea.lines(), [line]);
}

#[test]
fn directions_of_selections() {
    let direction = |range, cursor| get_selection_direction(range, cursor);
    assert_eq!(direction(((0, 1), (0, 1)), (0, 1)), SelectionDirection::Neutral);
    assert_eq!(direction(((0, 1), (2, 0)), (2, 0)), SelectionDirection::Forward);
    assert_eq!(direction(((0, 1), (2, 0)), (0, 1)), SelectionDirection::Backward);
    assert_eq!(direction(((0, 1), (2, 0)), (1, 1)), SelectionDirection::Backward);
}

fn with_cursor(line: &str, col: u16) -> Editor<'static> {
    let mut editor = Editor::with_lines(vec![String::from(line), String::from("next")]);
    editor.textarea.move_cursor(ratatui_textarea::CursorMove::Jump(0, col));
    editor
}

#[test]
fn including_the_cursor() {
    let mut editor = with_cursor("abc", 1);
    include_cursor(&mut editor);
    assert_eq!(cursor(&editor), (0, 1));
    editor.textarea.start_selection();
    include_cursor(&mut editor);
    assert_eq!(editor.textarea.selection_range(), Some(((0, 1), (0, 2))));
    editor.textarea.move_cursor(ratatui_textarea::CursorMove::Head);
    include_cursor(&mut editor);
    assert_eq!(editor.textarea.selection_range(), Some(((0, 0), (0, 1))));
}

#[test]
fn selecting_objects() {
    let mut editor = with_cursor("foo.bar baz", 5);
    select_inner_word(&mut editor, false);
    assert_eq!(editor.textarea.selection_range(), Some(((0, 4), (0, 7))));
    select_inner_word(&mut editor, true);
    assert_eq!(editor.textarea.selection_range(), Some(((0, 7), (0, 7))));
    let mut editor = with_cursor("foo.bar baz", 5);
    select_inner_word(&mut editor, true);
    assert_eq!(editor.textarea.selection_range(), Some(((0, 4), (0, 6))));
    select_inner_big_word(&mut editor, false);
    assert_eq!(editor.textarea.selection_range(), Some(((0, 0), (0, 7))));
    let mut editor = with_cursor("say 'hi'", 0);
    select_inner_quoted(&mut editor, '\'', false);
    assert_eq!(editor.textarea.selection_range(), Some(((0, 5), (0, 7))));
    select_inner_quoted(&mut editor, '"', false);
    assert_eq!(editor.textarea.selection_range(), Some(((0, 5), (0, 7))));
    let mut editor = with_cursor("", 0);
    select_inner_word(&mut editor, false);
    assert_eq!(editor.textarea.selection_range(), None);
}

#[test]
fn adding_by_more_than_one() {
    let mut editor = with_cursor("v1.098", 2);
    increment_number_under_cursor(&mut editor, 4);
    assert_eq!(editor.textarea.lines()[0], "v1.102");
    assert_eq!(cursor(&editor), (0, 5));
    assert_eq!(editor.textarea.yank_text(), "098");
    increment_number_under_cursor(&mut editor, -200);
    assert_eq!(editor.textarea.lines()[0], "v1.-98");
}

#[test]
fn big_words_across_lines() {
    let mut editor = with_cursor("one two ", 4);
    move_cursor_big_word_forward(&mut editor);
    assert_eq!(cursor(&editor), (1, 0));
    move_cursor_big_word_forward(&mut editor);
    assert_eq!(cursor(&editor), (1, 4));
    move_cursor_big_word_backward(&mut editor);
    move_cursor_big_word_backward(&mut editor);
    assert_eq!(cursor(&editor), (0, 8));
    move_cursor_big_word_backward(&mut editor);
    assert_eq!(cursor(&editor), (0, 4));
}

fn insert(editor: &mut Editor<'_>, key: Input) {
    let outcome = Vim::new(Mode::Insert).transition(key, None, editor);
    assert_eq!(outcome.transition, Transition::Mode(Mode::Insert));
}

#[test]
fn default_keys_in_insert_mode() {
    for (key, first, place) in [
        (special(Key::Backspace), "acd", (0, 1)),
        (special(Key::Delete), "abd", (0, 2)),
        (special(Key::Left), "abcd", (0, 1)),
        (special(Key::Right), "abcd", (0, 3)),
        (special(Key::Down), "abcd", (1, 2)),
        (special(Key::Up), "abcd", (0, 2)),
        (special(Key::Home), "abcd", (0, 0)),
        (special(Key::End), "abcd", (0, 4)),
        (special(Key::Tab), "ab  cd", (0, 4)),
        (special(Key::F(1)), "abcd", (0, 2)),
        (ctrl('h'), "acd", (0, 1)),
        (bare('é'), "abécd", (0, 3)),
    ] {
        let mut editor = with_cursor("abcd", 2);
        insert(&mut editor, key);
        assert_eq!(editor.textarea.lines()[0], first);
        assert_eq!(cursor(&editor), place);
    }
    for key in [special(Key::Enter), bare('\n'), bare('\r')] {
        let mut editor = with_cursor("abcd", 2);
        insert(&mut editor, key);
        assert_eq!(editor.textarea.lines(), ["ab", "cd", "next"]);
        assert_eq!(cursor(&editor), (1, 0));
    }
}

#[test]
fn copying_and_pasting_in_insert_mode() {
    let mut editor = with_cursor("abcd", 0);
    editor.textarea.start_selection();
    editor.textarea.move_cursor(ratatui_textarea::CursorMove::Jump(0, 2));
    insert(&mut editor, special(Key::Copy));
    assert_eq!(editor.textarea.yank_text(), "ab");
    insert(&mut editor, special(Key::Paste));
    assert_eq!(editor.textarea.lines()[0], "ababcd");
    editor.textarea.start_selection();
    editor.textarea.move_cursor(ratatui_textarea::CursorMove::End);
    insert(&mut editor, special(Key::Cut));
    assert_eq!(editor.textarea.lines()[0], "abab");
    assert_eq!(editor.textarea.yank_text(), "cd");
}

#[test]
fn control_keys_in_insert_mode() {
    for (key, first, place) in [
        ('d', "abd", (0, 2)),
        ('k', "ab", (0, 2)),
        ('n', "abcd", (1, 2)),
        ('p', "abcd", (0, 2)),
        ('f', "abcd", (0, 3)),
        ('b', "abcd", (0, 1)),
        ('a', "abcd", (0, 0)),
        ('e', "abcd", (0, 4)),
        ('m', "ab", (1, 0)),
        ('q', "abcd", (0, 2)),
    ] {
        let mut editor = with_cursor("abcd", 2);
        insert(&mut editor, ctrl(key));
        assert_eq!(editor.textarea.lines()[0], first);
        assert_eq!(cursor(&editor), place);
    }
    let mut editor = with_cursor("abcd", 2);
    insert(&mut editor, bare('x'));
    insert(&mut editor, ctrl('u'));
    assert_eq!(editor.textarea.lines()[0], "abcd");
    insert(&mut editor, ctrl('r'));
    assert_eq!(editor.textarea.lines()[0], "abxcd");
    editor.textarea.start_selection();
    insert(&mut editor, Input { key: Key::Right, ctrl: false, alt: false, shift: true });
    insert(&mut editor, ctrl('x'));
    assert_eq!(editor.textarea.lines()[0], "abxd");
    insert(&mut editor, ctrl('y'));
    assert_eq!(editor.textarea.lines()[0], "abxcd");
}

#[test]
fn word_and_scroll_keys_in_insert_mode() {
    let press = |key: Key, ctrl: bool, alt: bool| Input { key, ctrl, alt, shift: false };
    for (key, first, place) in [
        (press(Key::Char('<'), false, true), "ab cd ef", (0, 4)),
        (press(Key::Char('>'), false, true), "ab cd ef", (1, 4)),
        (press(Key::Char('f'), false, true), "ab cd ef", (0, 6)),
        (press(Key::Char('b'), false, true), "ab cd ef", (0, 3)),
        (press(Key::Right, true, false), "ab cd ef", (0, 6)),
        (press(Key::Left, true, false), "ab cd ef", (0, 3)),
        (press(Key::Left, true, true), "ab cd ef", (0, 0)),
        (press(Key::Right, true, true), "ab cd ef", (0, 8)),
        (press(Key::Down, true, true), "ab cd ef", (1, 4)),
        (press(Key::Char('p'), true, true), "ab cd ef", (0, 4)),
        (press(Key::Char('j'), true, false), "d ef", (0, 0)),
        (press(Key::Char('w'), true, false), "ab d ef", (0, 3)),
        (press(Key::Backspace, false, true), "ab d ef", (0, 3)),
        (press(Key::Char('d'), false, true), "ab c ef", (0, 4)),
        (press(Key::Delete, false, true), "ab c ef", (0, 4)),
        (press(Key::Char('z'), false, true), "ab cd ef", (0, 4)),
        (press(Key::Char('z'), true, true), "ab cd ef", (0, 4)),
    ] {
        let mut editor = with_cursor("ab cd ef", 4);
        insert(&mut editor, key);
        assert_eq!(editor.textarea.lines()[0], first);
        assert_eq!(cursor(&editor), place);
    }
    for (key, row) in [
        (special(Key::MouseScrollDown), 1),
        (special(Key::PageDown), 8),
        (ctrl('v'), 8),
    ] {
        let mut editor = twenty_lines();
        insert(&mut editor, key);
        assert_eq!(cursor(&editor), (row, 0));
        assert!(!editor.textarea.is_selecting());
    }
    let mut editor = twenty_lines();
    insert(&mut editor, Input { key: Key::PageDown, ctrl: false, alt: false, shift: true });
    assert_eq!(editor.textarea.selection_range(), Some(((0, 0), (8, 0))));
    insert(&mut editor, special(Key::MouseScrollUp));
    assert_eq!(cursor(&editor), (8, 0));
    assert!(!editor.textarea.is_selecting());
}

#[test]
fn paragraph_keys_in_insert_mode() {
    let press = |key: Key, ctrl: bool, alt: bool| Input { key, ctrl, alt, shift: false };
    let lines = ["abc", "d", "", "", "efg", "h", "", "i"];
    for (from, key, place) in [
        ((0, 2), press(Key::Down, true, false), (4, 2)),
        ((1, 1), press(Key::Char(']'), false, true), (4, 1)),
        ((4, 3), press(Key::Char('n'), false, true), (7, 1)),
        ((7, 1), press(Key::Char('n'), false, true), (7, 1)),
        ((7, 1), press(Key::Up, true, false), (4, 1)),
        ((5, 1), press(Key::Char('['), false, true), (4, 1)),
        ((4, 2), press(Key::Char('p'), false, true), (0, 2)),
        ((0, 2), press(Key::Char('p'), false, true), (0, 2)),
    ] {
        let mut editor = Editor::with_lines(lines.iter().map(|l| String::from(*l)).collect());
        editor.textarea.move_cursor(ratatui_textarea::CursorMove::Jump(from.0, from.1));
        insert(&mut editor, key);
        assert_eq!(cursor(&editor), place, "{:?}", from);
    }
}

#[test]
fn tabs_in_insert_mode() {
    for (line, col, tab_len, hard, after) in [
        ("abcd", 0, 4, false, "    abcd"),
        ("abcd", 4, 4, false, "abcd    "),
        ("日x", 2, 4, false, "日x "),
        ("日x", 1, 4, false, "日  x"),
        ("e\u{301}", 2, 4, false, "e\u{301}   "),
        ("ab", 1, 1, false, "a b"),
        ("ab", 1, 0, false, "ab"),
        ("ab", 1, 4, true, "a\tb"),
    ] {
        let mut editor = with_cursor(line, col);
        editor.textarea.set_tab_length(tab_len);
        editor.textarea.set_hard_tab_indent(hard);
        insert(&mut editor, special(Key::Tab));
        assert_eq!(editor.textarea.lines()[0], after);
    }
}

#[test]
fn typing_and_taking_back() {
    let mut editor = with_cursor("abcd", 2);
    insert(&mut editor, bare('日'));
    assert_eq!(editor.textarea.lines()[0], "ab日cd");
    insert(&mut editor, special(Key::Backspace));
    assert_eq!(editor.textarea.lines()[0], "abcd");
    assert_eq!(cursor(&editor), (0, 2));
}

#[test]
fn shift_selects_in_insert_mode() {
    let with_shift = |key: Key| Input { key, ctrl: false, alt: false, shift: true };
    let mut editor = with_cursor("abcd", 2);
    insert(&mut editor, with_shift(Key::Up));
    assert!(!editor.textarea.is_selecting());
    insert(&mut editor, with_shift(Key::Right));
    insert(&mut editor, with_shift(Key::End));
    assert_eq!(editor.textarea.selection_range(), Some(((0, 2), (0, 4))));
    insert(&mut editor, special(Key::F(2)));
    assert_eq!(editor.textarea.selection_range(), Some(((0, 2), (0, 4))));
    insert(&mut editor, special(Key::Left));
    assert!(!editor.textarea.is_selecting());
    assert_eq!(cursor(&editor), (0, 3));
    insert(&mut editor, with_shift(Key::Home));
    insert(&mut editor, special(Key::Delete));
    assert_eq!(editor.textarea.lines()[0], "d");
    assert_eq!(editor.textarea.yank_text(), "");
}
