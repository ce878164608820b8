use vim_textarea::chars::{chars_of, InnerWordKind};
use vim_textarea::find::{
    find_big_word_start_backward, find_big_word_start_forward, find_number_span, find_quote_pair,
    find_run_around,
};
use vim_textarea::number::{bump_number, parse_number, write_number};

fn number_at(line: &str, col: usize) -> Option<(usize, usize)> {
    find_number_span(&chars_of(line), col)
}

fn bump(number: &str, delta: i64) -> Option<String> {
    bump_number(&chars_of(number), delta)
}

#[test]
fn white_space_is_what_unicode_says() {
    for code in 0..=0x10ffffu32 {
        if let Some(c) = char::from_u32(code) {
            let white = matches!(
                code,
                0x9..=0xd
                    | 0x20
                    | 0x85
                    | 0xa0
                    | 0x1680
                    | 0x2000..=0x200a
                    | 0x2028
                    | 0x2029
                    | 0x202f
                    | 0x205f
                    | 0x3000
            );
            assert_eq!(InnerWordKind::of(c) == InnerWordKind::Space, white, "{:x}", code);
        }
    }
}

#[test]
fn punctuation_is_ascii_punctuation_but_the_underscore() {
    for code in 0..=0x10ffffu32 {
        if let Some(c) = char::from_u32(code) {
            let punctuation = "!\"#$%&'()*+,-./:;<=>?@[\\]^`{|}~".contains(c);
            assert_eq!(InnerWordKind::of(c) == InnerWordKind::Punct, punctuation, "{:x}", code);
        }
    }
    assert_eq!(InnerWordKind::of('_'), InnerWordKind::Other);
    assert_eq!(InnerWordKind::of('ä'), InnerWordKind::Other);
}

#[test]
fn characters_in_order() {
    assert_eq!(chars_of("aé日"), vec!['a', 'é', '日']);
    assert_eq!(chars_of(""), Vec::<char>::new());
}

#[test]
fn numbers_are_found_ahead() {
    assert_eq!(number_at("a 12 b 345", 0), Some((2, 4)));
    assert_eq!(number_at("a 12 b 345", 3), Some((2, 4)));
    assert_eq!(number_at("a 12 b 345", 4), Some((7, 10)));
    assert_eq!(number_at("a 12 b 345", 9), Some((7, 10)));
    assert_eq!(number_at("a 12 b 345", 10), None);
    assert_eq!(number_at("none", 0), None);
    assert_eq!(number_at("", 0), None);
    assert_eq!(number_at("٣ x ²", 0), None);
}

#[test]
fn numbers_take_their_sign() {
    assert_eq!(number_at("x-5", 0), Some((1, 3)));
    assert_eq!(number_at("-5", 1), Some((0, 2)));
    assert_eq!(number_at("--5", 0), Some((1, 3)));
    assert_eq!(number_at("- 5", 0), Some((2, 3)));
    assert_eq!(number_at("5-6", 1), Some((1, 3)));
}

#[test]
fn big_words_forward() {
    assert_eq!(find_big_word_start_forward("foo(a).bar next", 0), Some(11));
    assert_eq!(find_big_word_start_forward("foo  bar", 3), Some(5));
    assert_eq!(find_big_word_start_forward("foo bar", 4), None);
    assert_eq!(find_big_word_start_forward("foo   ", 0), None);
    assert_eq!(find_big_word_start_forward("", 0), None);
    assert_eq!(find_big_word_start_forward("ab", 9), None);
    assert_eq!(find_big_word_start_forward("é日 x", 0), Some(3));
}

#[test]
fn big_words_backward() {
    assert_eq!(find_big_word_start_backward("foo(a).bar next", 11), Some(0));
    assert_eq!(find_big_word_start_backward("foo(a).bar next", 12), Some(11));
    assert_eq!(find_big_word_start_backward("foo bar", 7), Some(4));
    assert_eq!(find_big_word_start_backward("foo bar", 99), Some(4));
    assert_eq!(find_big_word_start_backward("   bar", 3), None);
    assert_eq!(find_big_word_start_backward("foo", 0), None);
    assert_eq!(find_big_word_start_backward("", 5), None);
}

#[test]
fn runs_around_a_position() {
    let line = chars_of("foo_1 ==bar");
    assert_eq!(find_run_around(&line, 0, false), (0, 4));
    assert_eq!(find_run_around(&line, 4, false), (0, 4));
    assert_eq!(find_run_around(&line, 5, false), (5, 5));
    assert_eq!(find_run_around(&line, 6, false), (6, 7));
    assert_eq!(find_run_around(&line, 10, false), (8, 10));
    assert_eq!(find_run_around(&line, 8, true), (6, 10));
}

#[test]
fn quotes_pair_up_from_the_start() {
    let line = chars_of(r#"a "b" c "d" e "f"#);
    assert_eq!(find_quote_pair(&line, '"', 0), Some((2, 4)));
    assert_eq!(find_quote_pair(&line, '"', 4), Some((2, 4)));
    assert_eq!(find_quote_pair(&line, '"', 5), Some((8, 10)));
    assert_eq!(find_quote_pair(&line, '"', 11), None);
    assert_eq!(find_quote_pair(&chars_of("it's"), '\'', 0), None);
    assert_eq!(find_quote_pair(&chars_of(r#""\"""#), '"', 0), Some((0, 2)));
}

#[test]
fn numbers_are_read() {
    assert_eq!(parse_number(&chars_of("0")), Some(0));
    assert_eq!(parse_number(&chars_of("007")), Some(7));
    assert_eq!(parse_number(&chars_of("-42")), Some(-42));
    assert_eq!(parse_number(&chars_of("9223372036854775807")), Some(i64::MAX));
    assert_eq!(parse_number(&chars_of("9223372036854775808")), None);
    assert_eq!(parse_number(&chars_of("-9223372036854775808")), Some(i64::MIN));
    assert_eq!(parse_number(&chars_of("-9223372036854775809")), None);
    assert_eq!(parse_number(&chars_of("99999999999999999999999999999999999999999999")), None);
}

#[test]
fn numbers_are_written() {
    assert_eq!(write_number(0, 0), "0");
    assert_eq!(write_number(1234567890, 0), "1234567890");
    assert_eq!(write_number(7, 3), "007");
    assert_eq!(write_number(-7, 3), "-007");
    assert_eq!(write_number(-1000, 3), "-1000");
    assert_eq!(write_number(1000, 3), "1000");
    assert_eq!(write_number(i64::MIN, 0), "-9223372036854775808");
    assert_eq!(write_number(i64::MAX, 20), "09223372036854775807");
}

#[test]
fn zero_padded_numbers_keep_their_width() {
    assert_eq!(bump("007", 1), Some(String::from("008")));
    assert_eq!(bump("009", 1), Some(String::from("010")));
    assert_eq!(bump("010", -1), Some(String::from("009")));
    assert_eq!(bump("099", 1), Some(String::from("100")));
    assert_eq!(bump("00", 1), Some(String::from("01")));
    assert_eq!(bump("-01", 1), Some(String::from("00")));
    assert_eq!(bump("-007", 1), Some(String::from("-006")));
    assert_eq!(bump("-099", -1), Some(String::from("-100")));
    assert_eq!(bump("000", -1), Some(String::from("-001")));
}

#[test]
fn numbers_are_added_to() {
    assert_eq!(bump("9", 1), Some(String::from("10")));
    assert_eq!(bump("0", -1), Some(String::from("-1")));
    assert_eq!(bump("-1", 1), Some(String::from("0")));
    assert_eq!(bump("-9", -1), Some(String::from("-10")));
    assert_eq!(bump("9223372036854775807", 1), Some(String::from("9223372036854775807")));
    assert_eq!(bump("-9223372036854775808", -1), Some(String::from("-9223372036854775808")));
    assert_eq!(bump("9223372036854775808", -1), None);
}

#[test]
fn adding_and_taking_away_gives_the_number_back() {
    for number in ["0", "7", "10", "123", "-1", "-10", "007", "0100", "-007", "-010"] {
        let more = bump(number, 1).unwrap();
        assert_ne!(more, number);
        assert_eq!(bump(&more, -1).unwrap(), number);
    }
    assert_eq!(bump(&bump("099", 1).unwrap(), -1).unwrap(), "99");
}
