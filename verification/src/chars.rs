//! The character classes that words are made of.

use vstd::prelude::*;

verus! {

/// The characters with the Unicode property `White_Space`.
pub open spec fn is_white(c: char) -> bool {
    let code = c as int;
    ||| 0x9 <= code <= 0xd
    ||| code == 0x20
    ||| code == 0x85
    ||| code == 0xa0
    ||| code == 0x1680
    ||| 0x2000 <= code <= 0x200a
    ||| 0x2028 <= code <= 0x2029
    ||| code == 0x202f
    ||| code == 0x205f
    ||| code == 0x3000
}

/// The ASCII punctuation characters ``!"#$%&'()*+,-./``, `:;<=>?@`, ``[\]^_` `` and `{|}~`.
pub open spec fn is_punctuation(c: char) -> bool {
    ||| '!' <= c <= '/'
    ||| ':' <= c <= '@'
    ||| '[' <= c <= '`'
    ||| '{' <= c <= '~'
}

/// The ASCII digits.
pub open spec fn is_digit(c: char) -> bool {
    '0' <= c <= '9'
}

/// `char::is_whitespace` answers whether the character has the Unicode property `White_Space`,
/// whose members [`is_white`] lists.
pub assume_specification[ char::is_whitespace ](c: char) -> (answer: bool)
    ensures
        answer == is_white(c),
;

/// `char::is_ascii_punctuation` answers whether the character is in one of the four ranges of
/// ASCII punctuation.
pub assume_specification[ char::is_ascii_punctuation ](c: &char) -> (answer: bool)
    ensures
        answer == is_punctuation(*c),
;

/// `char::is_ascii_digit` answers whether the character is one of `0` to `9`.
pub assume_specification[ char::is_ascii_digit ](c: &char) -> (answer: bool)
    ensures
        answer == is_digit(*c),
;

/// The three kinds of characters: a word ends where the kind changes.
#[derive(PartialEq, Eq, Structural, Clone, Copy, Debug)]
pub enum InnerWordKind {
    Space,
    Punct,
    Other,
}

/// The kind of a character. An underscore counts as part of a word.
pub open spec fn kind_of(c: char) -> InnerWordKind {
    if is_white(c) {
        InnerWordKind::Space
    } else if is_punctuation(c) && c != '_' {
        InnerWordKind::Punct
    } else {
        InnerWordKind::Other
    }
}

impl InnerWordKind {
    /// The kind of `c`.
    pub fn of(c: char) -> (kind: Self)
        ensures
            kind == kind_of(c),
    {
        if c.is_whitespace() {
            Self::Space
        } else if c == '_' {
            Self::Other
        } else if c.is_ascii_punctuation() {
            Self::Punct
        } else {
            Self::Other
        }
    }
}

/// The characters of `line`, in order.
pub fn chars_of(line: &str) -> (chars: Vec<char>)
    ensures
        chars@ == line@,
{
    let mut chars: Vec<char> = Vec::new();
    for c in it: line.chars()
        invariant
            it.seq() == line@,
            chars@ == line@.take(it.index() as int),
    {
        chars.push(c);
    }
    chars
}

} // verus!
