use tokio::sync::mpsc::unbounded_channel;
use vim_textarea::command::Transition;
use vim_textarea::editor::Editor;
use vim_textarea::key::{Input, Key};
use vim_textarea::mode::Mode;
use vim_textarea::vim::{Action, Vim};

fn bare(c: char) -> Input {
    Input { key: Key::Char(c), ctrl: false, alt: false, shift: false }
}

fn ctrl(c: char) -> Input {
    Input { key: Key::Char(c), ctrl: true, alt: false, shift: false }
}

fn special(key: Key) -> Input {
    Input { key, ctrl: false, alt: false, shift: false }
}

fn editor(lines: &[&str]) -> Editor<'static> {
    Editor::with_lines(lines.iter().map(|line| String::from(*line)).collect())
}

/// Presses the keys one after the other, from normal mode, and returns the mode at the end.
fn press(editor: &mut Editor<'_>, keys: &[Input]) -> Mode {
    let mut vim = Vim::new(Mode::Normal);
    for key in keys {
        vim = match vim.transition(*key, None, editor).transition {
            Transition::Mode(mode) => Vim::new(mode),
            Transition::Nop => vim,
            Transition::Pending(input) => vim.with_pending(input),
        };
    }
    vim.mode
}

/// Types the characters of `keys`, from normal mode, and returns the mode at the end.
fn type_keys(editor: &mut Editor<'_>, keys: &str) -> Mode {
    let inputs: Vec<Input> = keys.chars().map(bare).collect();
    press(editor, &inputs)
}

fn cursor(editor: &Editor<'_>) -> (usize, usize) {
    let place = editor.textarea.cursor();
    (place.0, place.1)
}

fn check(before: &[&str], keys: &str, after: &[&str], place: (usize, usize), mode: Mode) {
    let mut editor = editor(before);
    let end = type_keys(&mut editor, keys);
    assert_eq!(editor.textarea.lines(), after, "{}", keys);
    assert_eq!(cursor(&editor), place, "{}", keys);
    assert_eq!(end, mode, "{}", keys);
}

#[test]
fn a_text_without_lines_has_one() {
    let editor = editor(&[]);
    assert_eq!(editor.textarea.lines(), [""]);
    assert_eq!(cursor(&editor), (0, 0));
}

#[test]
fn no_key_does_nothing() {
    for mode in [Mode::Normal, Mode::Insert, Mode::Visual, Mode::Replace, Mode::Operator('d')] {
        let mut editor = editor(&["ab"]);
        let outcome = Vim::new(mode).transition(special(Key::Null), None, &mut editor);
        assert_eq!(outcome.transition, Transition::Nop);
        assert_eq!(outcome.action, None);
        assert_eq!(editor.textarea.lines(), ["ab"]);
    }
}

#[test]
fn escape_leads_to_normal_mode() {
    for mode in [Mode::Normal, Mode::Insert, Mode::Visual, Mode::Replace, Mode::Operator('d')] {
        let mut editor = editor(&["ab"]);
        editor.textarea.start_selection();
        let outcome = Vim::new(mode).transition(special(Key::Esc), None, &mut editor);
        assert_eq!(outcome.transition, Transition::Mode(Mode::Normal));
        assert_eq!(editor.textarea.lines(), ["ab"]);
        assert_eq!(
            editor.textarea.is_selecting(),
            mode == Mode::Insert || mode == Mode::Replace
        );
    }
}

#[test]
fn control_c_leaves_insert_replace_and_visual_mode() {
    for mode in [Mode::Insert, Mode::Replace, Mode::Visual] {
        let outcome = Vim::new(mode).transition(ctrl('c'), None, &mut editor(&["ab"]));
        assert_eq!(outcome.transition, Transition::Mode(Mode::Normal));
    }
    for mode in [Mode::Normal, Mode::Operator('c')] {
        let outcome = Vim::new(mode).transition(ctrl('c'), None, &mut editor(&["ab"]));
        assert_eq!(outcome.transition, Transition::Pending(ctrl('c')));
    }
}

#[test]
fn motions() {
    check(&["abc", "de"], "l", &["abc", "de"], (0, 1), Mode::Normal);
    check(&["abc", "de"], "lllh", &["abc", "de"], (0, 2), Mode::Normal);
    check(&["abc", "de"], "llll", &["abc", "de"], (1, 0), Mode::Normal);
    check(&["abc", "de"], "jh", &["abc", "de"], (0, 3), Mode::Normal);
    check(&["abc", "de"], "h", &["abc", "de"], (0, 0), Mode::Normal);
    check(&["abc", "de"], "$j", &["abc", "de"], (1, 2), Mode::Normal);
    check(&["abc", "de"], "j$k", &["abc", "de"], (0, 2), Mode::Normal);
    check(&["abc", "de"], "$0", &["abc", "de"], (0, 0), Mode::Normal);
    check(&["abc", "de"], "$^", &["abc", "de"], (0, 0), Mode::Normal);
    check(&["abc", "de"], "jj", &["abc", "de"], (1, 0), Mode::Normal);
    check(&["abc", "de"], "k", &["abc", "de"], (0, 0), Mode::Normal);
    check(&["ab", "c", "def"], "G", &["ab", "c", "def"], (2, 0), Mode::Normal);
    check(&["ab", "c", "def"], "G$gg", &["ab", "c", "def"], (0, 2), Mode::Normal);
}

#[test]
fn arrow_keys_move() {
    let mut editor = editor(&["abc", "de"]);
    let keys = [special(Key::Right), special(Key::Right), special(Key::Down), special(Key::Left)];
    assert_eq!(press(&mut editor, &keys), Mode::Normal);
    assert_eq!(cursor(&editor), (1, 1));
    press(&mut editor, &[special(Key::Up)]);
    assert_eq!(cursor(&editor), (0, 1));
}

#[test]
fn motions_over_tabs_and_wide_characters() {
    check(&["a\tb", "日本語"], "ll", &["a\tb", "日本語"], (0, 2), Mode::Normal);
    check(&["日本x", "y"], "ll", &["日本x", "y"], (0, 2), Mode::Normal);
    check(&["日本語", "abcdef"], "llj", &["日本語", "abcdef"], (1, 4), Mode::Normal);
}

#[test]
fn word_motions() {
    let line = ["foo_1 == bar", "  baz"];
    check(&line, "w", &line, (0, 6), Mode::Normal);
    check(&line, "ww", &line, (0, 9), Mode::Normal);
    check(&line, "www", &line, (1, 0), Mode::Normal);
    check(&line, "wwww", &line, (1, 2), Mode::Normal);
    check(&line, "wwwww", &line, (1, 5), Mode::Normal);
    check(&line, "e", &line, (0, 4), Mode::Normal);
    check(&line, "ee", &line, (0, 7), Mode::Normal);
    check(&line, "eeee", &line, (1, 4), Mode::Normal);
    check(&line, "eeeee", &line, (1, 5), Mode::Normal);
    check(&line, "j$b", &line, (1, 2), Mode::Normal);
    check(&line, "j$bb", &line, (0, 12), Mode::Normal);
    check(&line, "j$bbb", &line, (0, 9), Mode::Normal);
    check(&line, "b", &line, (0, 0), Mode::Normal);
}

#[test]
fn big_word_motions() {
    let line = ["foo(a).bar next", "last"];
    check(&line, "W", &line, (0, 11), Mode::Normal);
    check(&line, "WW", &line, (1, 0), Mode::Normal);
    check(&line, "WWW", &line, (1, 4), Mode::Normal);
    check(&line, "WWWB", &line, (1, 0), Mode::Normal);
    check(&line, "WWBB", &line, (0, 11), Mode::Normal);
    check(&line, "WB", &line, (0, 0), Mode::Normal);
    check(&line, "B", &line, (0, 0), Mode::Normal);
}

#[test]
fn far_rows_are_reached() {
    let lines = vec!["ab \"cd\" 7"; 0x1_0003];
    let mut editor = editor(&lines);
    type_keys(&mut editor, "Gk");
    assert_eq!(cursor(&editor), (0x1_0001, 0));
    for place in [(0x1_0001, 3), (0x1_0001, 8), (0x1_0002, 0)] {
        type_keys(&mut editor, "W");
        assert_eq!(cursor(&editor), place);
    }
    for place in [(0x1_0001, 9), (0x1_0001, 8), (0x1_0001, 3), (0x1_0001, 0), (0x1_0000, 9)] {
        type_keys(&mut editor, "B");
        assert_eq!(cursor(&editor), place);
    }
    type_keys(&mut editor, "jdiw");
    assert_eq!(editor.textarea.lines()[0x1_0001], "ab \"cd\" ");
    type_keys(&mut editor, "0di\"");
    assert_eq!(editor.textarea.lines()[0x1_0001], "ab \"\" ");
    type_keys(&mut editor, "0diw");
    assert_eq!(editor.textarea.lines()[0x1_0001], " \"\" ");
    press(&mut editor, &[bare('k'), bare('0'), ctrl('a')]);
    assert_eq!(editor.textarea.lines()[0x1_0000], "ab \"cd\" 8");
    assert_eq!(cursor(&editor), (0x1_0000, 8));
    assert_eq!(editor.textarea.lines()[0], "ab \"cd\" 7");
}

#[test]
fn rows_up_to_the_last_one_that_a_jump_leads_to() {
    let lines = vec!["a 1"; 0x1_0001];
    let mut editor = editor(&lines);
    type_keys(&mut editor, "GkW");
    assert_eq!(cursor(&editor), (0xffff, 2));
    press(&mut editor, &[ctrl('a')]);
    assert_eq!(editor.textarea.lines()[0xffff], "a 2");
    type_keys(&mut editor, "W");
    assert_eq!(cursor(&editor), (0x1_0000, 0));
}

#[test]
fn far_columns_are_reached() {
    let blanks = " ".repeat(0x1_0000);
    let mut text = editor(&[&[&blanks, "7"].concat()]);
    press(&mut text, &[ctrl('a')]);
    assert_eq!(text.textarea.lines(), [[&blanks, "8"].concat()]);
    assert_eq!(cursor(&text), (0, 0x1_0000));
    press(&mut text, &[ctrl('x'), ctrl('x')]);
    assert_eq!(text.textarea.lines(), [[&blanks, "6"].concat()]);
    for (keys, left) in [
        ("WWdiw", "foo  \"q r\" end"),
        ("Wdi\"", "foo bar \"\" end"),
        ("$diW", "foo bar \"q r\" "),
        ("WlviwdWi", " bar \"q r\" end"),
        ("$BB", "foo bar \"q r\" end"),
    ] {
        let mut text = editor(&[&[&blanks, "foo bar \"q r\" end"].concat()]);
        type_keys(&mut text, keys);
        assert_eq!(text.textarea.lines(), [[&blanks, left].concat()], "{}", keys);
    }
    let mut text = editor(&[&[&blanks, "foo bar"].concat(), "x"]);
    type_keys(&mut text, "WW");
    assert_eq!(cursor(&text), (0, 0x1_0004));
    type_keys(&mut text, "WBB");
    assert_eq!(cursor(&text), (0, 0x1_0004));
}

#[test]
fn far_objects_do_not_leave_their_line() {
    let letters = "a".repeat(0x1_0000);
    let line = [&letters, "\u{301}\u{301}\u{301}"].concat();
    let mut text = editor(&[&line, "below"]);
    type_keys(&mut text, "viw");
    assert_eq!(text.textarea.selection_range(), Some(((0, 0), (0, 0x1_0002))));
    let mut text = editor(&[&line, "below"]);
    type_keys(&mut text, "diw");
    assert_eq!(text.textarea.lines(), ["", "below"]);
    let mut text = editor(&[&[&line, " \"q\u{301}\""].concat(), "below"]);
    type_keys(&mut text, "di\"");
    assert_eq!(text.textarea.lines(), [&[&line, " \"\""].concat(), "below"]);
    let marks = "\u{301}".repeat(0x1_0003);
    let mut text = editor(&[&marks, "below"]);
    type_keys(&mut text, "viw");
    assert_eq!(cursor(&text).0, 0);
}

#[test]
fn far_columns_behind_wide_characters() {
    let wide = "日".repeat(0x1_0000);
    let mut text = editor(&[&[&wide, " 41"].concat()]);
    press(&mut text, &[ctrl('a')]);
    assert_eq!(text.textarea.lines(), [[&wide, " 42"].concat()]);
    type_keys(&mut text, "0$diw");
    assert_eq!(text.textarea.lines(), [[&wide, " "].concat()]);
}

#[test]
fn control_is_not_always_heeded() {
    let mut editor = editor(&["foo bar"]);
    press(&mut editor, &[ctrl('l'), ctrl('w')]);
    assert_eq!(cursor(&editor), (0, 4));
    assert_eq!(press(&mut editor, &[ctrl('i')]), Mode::Insert);
    assert_eq!(press(&mut editor, &[ctrl('W')]), Mode::Normal);
    assert_eq!(cursor(&editor), (0, 4));
}

#[test]
fn cutting_characters() {
    check(&["abc"], "x", &["bc"], (0, 0), Mode::Normal);
    check(&["abc"], "lx", &["ac"], (0, 1), Mode::Normal);
    check(&["abc", "d"], "$x", &["abcd"], (0, 3), Mode::Normal);
    check(&["abc"], "$x", &["abc"], (0, 3), Mode::Normal);
    check(&["abc"], "llX", &["ac"], (0, 1), Mode::Normal);
    check(&["abc"], "X", &["abc"], (0, 0), Mode::Normal);
    check(&["ab", "c"], "jX", &["abc"], (0, 2), Mode::Normal);
    check(&["abc", "d"], "vlx", &["c", "d"], (0, 0), Mode::Normal);
    check(&["abc", "d"], "lvX", &["", "d"], (0, 0), Mode::Normal);
    check(&["日本"], "x", &["本"], (0, 0), Mode::Normal);
}

#[test]
fn operators_with_motions() {
    check(&["foo bar"], "dw", &["bar"], (0, 0), Mode::Normal);
    check(&["foo bar"], "de", &["bar"], (0, 0), Mode::Normal);
    check(&["foo bar"], "cw", &["bar"], (0, 0), Mode::Insert);
    check(&["foo bar"], "d$", &[""], (0, 0), Mode::Normal);
    check(&["foo bar"], "$db", &["foo "], (0, 4), Mode::Normal);
    check(&["foo(a) bar"], "dW", &["bar"], (0, 0), Mode::Normal);
    check(&["foo bar"], "yw", &["foo bar"], (0, 4), Mode::Normal);
    check(&["ab", "cd", "ef"], "dG", &["ef"], (0, 0), Mode::Normal);
}

#[test]
fn whole_lines() {
    check(&["one", "two", "three"], "dd", &["two", "three"], (0, 0), Mode::Normal);
    check(&["one", "two", "three"], "jldd", &["one", "three"], (1, 0), Mode::Normal);
    check(&["one", "two"], "jdd", &["one", ""], (1, 0), Mode::Normal);
    check(&["日本", "語"], "ldd", &["語"], (0, 0), Mode::Normal);
    check(&["one", "two"], "cc", &["two"], (0, 0), Mode::Insert);
    check(&["one", "two"], "yy", &["one", "two"], (1, 0), Mode::Normal);
    check(&["one", "two"], "S", &["", "two"], (0, 0), Mode::Insert);
    check(&["one", "two"], "lD", &["o", "two"], (0, 1), Mode::Normal);
    check(&["one", "two"], "lC", &["o", "two"], (0, 1), Mode::Insert);
    check(&["one", "two"], "$D", &["onetwo"], (0, 3), Mode::Normal);
    check(&["one", "two"], "Vd", &["two"], (0, 0), Mode::Normal);
    check(&["one"], "Vd", &[""], (0, 0), Mode::Normal);
}

#[test]
fn any_operator_doubles() {
    let mut editor = editor(&["one", "two"]);
    let outcome = Vim::new(Mode::Operator('q')).transition(bare('q'), None, &mut editor);
    assert_eq!(outcome.transition, Transition::Nop);
    assert_eq!(cursor(&editor), (1, 0));
    assert_eq!(editor.textarea.selection_range(), Some(((0, 0), (1, 0))));
    let outcome = Vim::new(Mode::Operator('S')).transition(bare('S'), None, &mut editor);
    assert_eq!(outcome.transition, Transition::Nop);
    assert_eq!(editor.textarea.selection_range(), Some(((1, 0), (1, 3))));
}

#[test]
fn inner_words() {
    check(&["foo_1 == bar"], "wlldiw", &["foo_1 ==bar"], (0, 8), Mode::Normal);
    check(&["foo_1 == bar"], "wdiw", &["foo_1  bar"], (0, 6), Mode::Normal);
    check(&["foo_1 == bar"], "lciw", &[" == bar"], (0, 0), Mode::Insert);
    check(&["foo_1 == bar"], "$diw", &["foo_1 == "], (0, 9), Mode::Normal);
    check(&["foo(a) bar"], "lldiW", &[" bar"], (0, 0), Mode::Normal);
    check(&["foo(a) bar"], "llldiw", &["fooa) bar"], (0, 3), Mode::Normal);
    check(&["foo bar"], "lyiw", &["foo bar"], (0, 3), Mode::Normal);
    check(&["", "x"], "diw", &["", "x"], (0, 0), Mode::Normal);
}

#[test]
fn inner_quotes() {
    check(&[r#"a "bc" d"#], "di\"", &[r#"a "" d"#], (0, 3), Mode::Normal);
    check(&[r#"a "bc" d"#], "$di\"", &[r#"a "bc" d"#], (0, 8), Mode::Normal);
    check(&[r#"a "" d"#], "ci\"", &[r#"a "" d"#], (0, 0), Mode::Insert);
    check(&[r#"a "b" c"#], "vi\"d", &[r#"a "" c"#], (0, 3), Mode::Normal);
    let mut editor = editor(&[r#"a "bc""#]);
    press(&mut editor, &[bare('d'), bare('i'), ctrl('"')]);
    assert_eq!(editor.textarea.lines(), [r#"a """#]);
}

#[test]
fn visual_objects_are_operator_objects() {
    let line = r#"let name = "some text, or other" + foo(bar);"#;
    for object in ["w", "W", "\""] {
        for operator in ['y', 'd', 'c'] {
            for start in 0..30 {
                let moves: String = std::iter::repeat('l').take(start).collect();
                let mut named = editor(&[line, "next"]);
                let named_mode =
                    type_keys(&mut named, &[&moves, &*operator.to_string(), "i", object].concat());
                let mut selected = editor(&[line, "next"]);
                let selected_mode =
                    type_keys(&mut selected, &[&moves, "vi", object, &*operator.to_string()].concat());
                assert_eq!(named.textarea.lines(), selected.textarea.lines());
                assert_eq!(named.textarea.yank_text(), selected.textarea.yank_text());
                assert_eq!(cursor(&named), cursor(&selected));
                assert_eq!(named_mode, selected_mode);
            }
        }
    }
}

#[test]
fn the_word_under_the_cursor_after_d_a() {
    let mut editor = editor(&["foo bar"]);
    assert_eq!(type_keys(&mut editor, "lllllda"), Mode::Operator('d'));
    assert_eq!(cursor(&editor), (0, 4));
    assert_eq!(editor.textarea.selection_range(), Some(((0, 4), (0, 4))));
    let outcome = Vim::new(Mode::Operator('d')).transition(bare('w'), None, &mut editor);
    assert_eq!(outcome.transition, Transition::Mode(Mode::Normal));
    assert_eq!(editor.textarea.lines(), ["foo "]);
}

#[test]
fn visual_selections_include_the_cursor() {
    let mut text = editor(&["abcdef"]);
    assert_eq!(type_keys(&mut text, "vlly"), Mode::Normal);
    assert_eq!(text.textarea.yank_text(), "abc");
    assert_eq!(cursor(&text), (0, 3));
    let mut text = editor(&["abcdef"]);
    type_keys(&mut text, "lllvhhy");
    assert_eq!(text.textarea.yank_text(), "bc");
    assert_eq!(cursor(&text), (0, 1));
    check(&["abcdef"], "vlld", &["def"], (0, 0), Mode::Normal);
    check(&["abcdef"], "lllvhhd", &["adef"], (0, 1), Mode::Normal);
    check(&["abcdef"], "vllc", &["def"], (0, 0), Mode::Insert);
    check(&["abcdef"], "vd", &["bcdef"], (0, 0), Mode::Normal);
}

#[test]
fn selecting_a_line() {
    let mut text = editor(&["one", "two"]);
    assert_eq!(type_keys(&mut text, "jlV"), Mode::Visual);
    assert_eq!(text.textarea.selection_range(), Some(((1, 0), (1, 3))));
    assert_eq!(cursor(&text), (1, 3));
    assert_eq!(Vim::new(Mode::Visual).transition(bare('V'), None, &mut text).transition,
        Transition::Pending(bare('V')));
}

#[test]
fn giving_up_a_selection() {
    for stop in [bare('v'), special(Key::Esc), ctrl('c')] {
        let mut editor = editor(&["abc"]);
        assert_eq!(press(&mut editor, &[bare('v')]), Mode::Visual);
        assert!(editor.textarea.is_selecting());
        let outcome = Vim::new(Mode::Visual).transition(stop, None, &mut editor);
        assert_eq!(outcome.transition, Transition::Mode(Mode::Normal));
        assert!(!editor.textarea.is_selecting());
        assert_eq!(cursor(&editor), (0, 0));
    }
}

#[test]
fn inserting() {
    check(&["ac"], "aBxyz", &["aBxyzc"], (0, 5), Mode::Insert);
    check(&["ac"], "liB", &["aBc"], (0, 2), Mode::Insert);
    check(&["ac"], "Ax", &["acx"], (0, 3), Mode::Insert);
    check(&["ac"], "$Ix", &["xac"], (0, 1), Mode::Insert);
    check(&["a", "b"], "ox", &["a", "x", "b"], (1, 1), Mode::Insert);
    check(&["a", "b"], "jOx", &["a", "x", "b"], (1, 1), Mode::Insert);
    check(&["ab", "c"], "lo", &["ab", "", "c"], (1, 0), Mode::Insert);
    check(&["日本", "c"], "lO", &["", "日本", "c"], (0, 0), Mode::Insert);
}

#[test]
fn replacing() {
    check(&["abc"], "rz", &["zbc"], (0, 1), Mode::Normal);
    check(&["abc"], "r", &["abc"], (0, 0), Mode::Replace);
    check(&["ab", "c"], "$rz", &["abzc"], (0, 3), Mode::Normal);
    check(&["ab"], "$rz", &["abz"], (0, 3), Mode::Normal);
}

#[test]
fn numbers_in_place() {
    let mut text = editor(&["a 007 b"]);
    assert_eq!(press(&mut text, &[ctrl('a')]), Mode::Normal);
    assert_eq!(text.textarea.lines(), ["a 008 b"]);
    assert_eq!(cursor(&text), (0, 4));
    press(&mut text, &[ctrl('x'), ctrl('x')]);
    assert_eq!(text.textarea.lines(), ["a 006 b"]);
    let mut text = editor(&["x-5"]);
    press(&mut text, &[ctrl('x')]);
    assert_eq!(text.textarea.lines(), ["x-6"]);
    let mut text = editor(&["-007"]);
    press(&mut text, &[ctrl('a')]);
    assert_eq!(text.textarea.lines(), ["-006"]);
    let mut text = editor(&["000"]);
    press(&mut text, &[ctrl('x')]);
    assert_eq!(text.textarea.lines(), ["-001"]);
    let mut text = editor(&["9 9"]);
    press(&mut text, &[bare('l'), ctrl('a')]);
    assert_eq!(text.textarea.lines(), ["9 10"]);
    assert_eq!(cursor(&text), (0, 3));
    let mut text = editor(&["none"]);
    press(&mut text, &[ctrl('a')]);
    assert_eq!(text.textarea.lines(), ["none"]);
    let mut text = editor(&["9223372036854775808"]);
    press(&mut text, &[ctrl('a')]);
    assert_eq!(text.textarea.lines(), ["9223372036854775808"]);
}

#[test]
fn control_x_takes_back_what_control_a_adds() {
    for line in ["9", "a 99 b", "-1", "x -10", "007", "a 0 b"] {
        let mut text = editor(&[line]);
        press(&mut text, &[ctrl('a')]);
        assert_ne!(text.textarea.lines(), [line]);
        press(&mut text, &[ctrl('x')]);
        assert_eq!(text.textarea.lines(), [line]);
    }
    let mut text = editor(&["5-1"]);
    press(&mut text, &[bare('l'), ctrl('a')]);
    assert_eq!(text.textarea.lines(), ["50"]);
    press(&mut text, &[ctrl('x')]);
    assert_eq!(text.textarea.lines(), ["49"]);
}

#[test]
fn control_a_and_x_elsewhere() {
    let mut text = editor(&["1 2"]);
    let outcome = Vim::new(Mode::Visual).transition(ctrl('a'), None, &mut text);
    assert_eq!(outcome.transition, Transition::Mode(Mode::Insert));
    assert_eq!(text.textarea.lines(), ["1 2"]);
    assert_eq!(cursor(&text), (0, 1));
    let outcome = Vim::new(Mode::Visual).transition(ctrl('x'), None, &mut text);
    assert_eq!(outcome.transition, Transition::Mode(Mode::Normal));
    assert_eq!(text.textarea.lines(), ["12"]);
}

#[test]
fn undoing_and_redoing() {
    let mut text = editor(&["one", "two", "three"]);
    type_keys(&mut text, "jdd");
    assert_eq!(text.textarea.lines(), ["one", "three"]);
    assert_eq!(type_keys(&mut text, "u"), Mode::Normal);
    assert_eq!(text.textarea.lines(), ["one", "two", "three"]);
    assert_eq!(press(&mut text, &[ctrl('r')]), Mode::Normal);
    assert_eq!(text.textarea.lines(), ["one", "three"]);
    type_keys(&mut text, "uu");
    assert_eq!(text.textarea.lines(), ["one", "two", "three"]);
    let mut text = editor(&["ab"]);
    press(&mut text, &[bare('i'), bare('x'), special(Key::Esc), bare('u')]);
    assert_eq!(text.textarea.lines(), ["ab"]);
}

#[test]
fn fifty_changes_are_remembered() {
    let mut text = editor(&[""]);
    let keys: String = std::iter::once('i').chain(std::iter::repeat('x').take(60)).collect();
    type_keys(&mut text, &keys);
    for _ in 0..70 {
        type_keys(&mut text, "u");
    }
    assert_eq!(text.textarea.lines(), ["xxxxxxxxxx"]);
}

#[test]
fn what_was_cut_is_pasted_back() {
    check(&["one", "two"], "ddp", &["one", "two"], (1, 0), Mode::Normal);
    check(&["foo bar"], "dwp", &["foo bar"], (0, 4), Mode::Normal);
    check(&["foo bar"], "xp", &["foo bar"], (0, 1), Mode::Normal);
    check(&["foo bar", "baz"], "lljd0p", &["foo bar", "baz"], (1, 2), Mode::Normal);
    check(&["one", "two"], "yyp", &["one", "one", "two"], (2, 0), Mode::Normal);
}

#[test]
fn the_clipboard_is_pasted() {
    let mut text = editor(&["ab"]);
    press(&mut text, &[bare('l')]);
    let paste = Some(String::from("x\r\ny\nz"));
    let outcome = Vim::new(Mode::Normal).transition(bare('p'), paste, &mut text);
    assert_eq!(outcome.transition, Transition::Mode(Mode::Normal));
    assert_eq!(outcome.action, None);
    assert_eq!(text.textarea.lines(), ["ax", "y", "zb"]);
    assert_eq!(cursor(&text), (2, 1));
    assert_eq!(text.textarea.yank_text(), "x\ny\nz");
    Vim::new(Mode::Normal).transition(bare('p'), Some(String::from("q\n")), &mut text);
    assert_eq!(text.textarea.lines(), ["ax", "y", "zq", "b"]);
    assert_eq!(text.textarea.yank_text(), "q\n");
    text.textarea.set_yank_text("x\ny\nz");
    let ignored = Some(String::from("no"));
    Vim::new(Mode::Normal).transition(bare('h'), ignored, &mut text);
    assert_eq!(text.textarea.yank_text(), "x\ny\nz");
}

#[test]
fn only_pasting_reads_the_clipboard() {
    for mode in [Mode::Normal, Mode::Visual, Mode::Operator('d')] {
        assert!(Vim::new(mode).reads_clipboard(bare('p')));
        assert!(Vim::new(mode).reads_clipboard(ctrl('p')));
        assert!(!Vim::new(mode).reads_clipboard(bare('P')));
        assert!(!Vim::new(mode).reads_clipboard(special(Key::Null)));
    }
    assert!(!Vim::new(Mode::Insert).reads_clipboard(bare('p')));
    assert!(!Vim::new(Mode::Replace).reads_clipboard(bare('p')));
}

#[test]
fn two_keys() {
    let mut text = editor(&["ab"]);
    let vim = Vim::new(Mode::Normal);
    let outcome = vim.transition(bare('g'), None, &mut text);
    assert_eq!(outcome.transition, Transition::Pending(bare('g')));
    let outcome = Vim::new(Mode::Visual).transition(bare('i'), None, &mut text);
    assert_eq!(outcome.transition, Transition::Pending(bare('i')));
    let outcome = vim.transition(special(Key::Tab), None, &mut text);
    assert_eq!(outcome.transition, Transition::Pending(special(Key::Tab)));
    assert_eq!(text.textarea.lines(), ["ab"]);
    let outcome = vim.transition(bare('i'), None, &mut text);
    assert_eq!(outcome.transition, Transition::Mode(Mode::Insert));
}

fn action_of(mode: Mode, pending: Input, key: Input, setup: &str) -> Option<Action> {
    let (tx, _rx) = unbounded_channel::<Action>();
    let mut text = editor(&["foo bar", "baz"]);
    type_keys(&mut text, setup);
    let mut vim = Vim::new(mode).with_pending(pending);
    assert_eq!(vim.transition(special(Key::Null), None, &mut text).action, None);
    vim.register_action_handler(Some(tx));
    vim.transition(key, None, &mut text).action
}

fn copies(text: &str) -> Option<Action> {
    Some(Action::CopyData(String::from(text)))
}

#[test]
fn what_is_sent() {
    let none = Input::default();
    assert_eq!(action_of(Mode::Normal, none, bare('x'), ""), copies("f"));
    assert_eq!(action_of(Mode::Normal, none, bare('X'), "l"), copies("f"));
    assert_eq!(action_of(Mode::Operator('y'), none, bare('w'), "y"), copies("foo "));
    assert_eq!(action_of(Mode::Operator('y'), none, bare('y'), "y"), copies("foo bar\n"));
    assert_eq!(action_of(Mode::Operator('c'), none, bare('w'), "c"), copies("foo "));
    assert_eq!(action_of(Mode::Operator('d'), none, bare('w'), "d"), None);
    assert_eq!(action_of(Mode::Operator('y'), bare('i'), bare('w'), "y"), copies("foo"));
    assert_eq!(action_of(Mode::Visual, none, bare('y'), "vl"), copies("fo"));
    assert_eq!(action_of(Mode::Visual, none, bare('c'), "vl"), copies("fo"));
    assert_eq!(action_of(Mode::Visual, none, bare('d'), "vl"), None);
    assert_eq!(action_of(Mode::Visual, none, bare('x'), "vl"), copies("fo"));
    assert_eq!(action_of(Mode::Normal, none, bare('S'), ""), copies("foo bar"));
    assert_eq!(action_of(Mode::Normal, none, bare('D'), ""), None);
    assert_eq!(action_of(Mode::Normal, none, bare('w'), ""), None);
}

#[test]
fn nothing_is_sent_without_a_handler() {
    let mut text = editor(&["foo"]);
    assert_eq!(Vim::new(Mode::Normal).transition(bare('x'), None, &mut text).action, None);
    assert_eq!(text.textarea.yank_text(), "f");
}
