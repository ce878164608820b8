//! Searching a line for words, numbers and quoted text. Positions count characters.

use crate::chars::{chars_of, is_digit, is_white, kind_of, InnerWordKind};
use vstd::prelude::*;

verus! {

/// The first position from `from` up to, but not including, `to` at which `p` holds.
pub open spec fn first_where(p: spec_fn(int) -> bool, from: int, to: int) -> Option<int>
    decreases to - from,
{
    if from >= to {
        None
    } else if p(from) {
        Some(from)
    } else {
        first_where(p, from + 1, to)
    }
}

/// The last position from `from` up to, but not including, `to` at which `p` holds.
pub open spec fn last_where(p: spec_fn(int) -> bool, from: int, to: int) -> Option<int>
    decreases to - from,
{
    if from >= to {
        None
    } else if p(to - 1) {
        Some(to - 1)
    } else {
        last_where(p, from, to - 1)
    }
}

/// What [`first_where`] finds satisfies `p`, and nothing before it does.
pub proof fn lemma_first_where(p: spec_fn(int) -> bool, from: int, to: int)
    ensures
        match first_where(p, from, to) {
            Some(i) => from <= i < to && p(i) && forall|j: int| from <= j < i ==> !#[trigger] p(j),
            None => forall|j: int| from <= j < to ==> !#[trigger] p(j),
        },
    decreases to - from,
{
    if from < to && !p(from) {
        lemma_first_where(p, from + 1, to);
    }
}

/// What [`last_where`] finds satisfies `p`, and nothing behind it does.
pub proof fn lemma_last_where(p: spec_fn(int) -> bool, from: int, to: int)
    ensures
        match last_where(p, from, to) {
            Some(i) => from <= i < to && p(i) && forall|j: int| i < j < to ==> !#[trigger] p(j),
            None => forall|j: int| from <= j < to ==> !#[trigger] p(j),
        },
    decreases to - from,
{
    if from < to && !p(to - 1) {
        lemma_last_where(p, from, to - 1);
    }
}

/// A pair of machine integers as mathematical integers.
pub open spec fn as_span(span: Option<(usize, usize)>) -> Option<(int, int)> {
    match span {
        Some((start, end)) => Some((start as int, end as int)),
        None => None,
    }
}

/// A machine integer as a mathematical integer.
pub open spec fn as_col(col: Option<usize>) -> Option<int> {
    match col {
        Some(i) => Some(i as int),
        None => None,
    }
}

/// The smaller of two integers.
pub open spec fn least(a: int, b: int) -> int {
    if a <= b {
        a
    } else {
        b
    }
}

/// A run of digits begins at `i`.
pub open spec fn digits_begin(chars: Seq<char>, i: int) -> bool {
    &&& 0 <= i < chars.len()
    &&& is_digit(chars[i])
    &&& i == 0 || !is_digit(chars[i - 1])
}

/// A run of digits ends in front of `i`.
pub open spec fn digits_end(chars: Seq<char>, i: int) -> bool {
    &&& 0 < i <= chars.len()
    &&& is_digit(chars[i - 1])
    &&& i == chars.len() || !is_digit(chars[i])
}

/// Where the run of digits that ends in front of `end` begins, with the minus sign before it.
pub open spec fn number_start(chars: Seq<char>, end: int) -> int {
    let begin = last_where(|i: int| digits_begin(chars, i), 0, end)->0;
    if begin > 0 && chars[begin - 1] == '-' {
        begin - 1
    } else {
        begin
    }
}

/// The first number of the line that ends behind `col`.
pub open spec fn number_span(chars: Seq<char>, col: int) -> Option<(int, int)> {
    match first_where(|i: int| digits_end(chars, i), col + 1, chars.len() as int + 1) {
        Some(end) => Some((number_start(chars, end), end)),
        None => None,
    }
}

/// Finds the span of the first decimal number on the line whose last digit is at `start_col` or
/// behind it, with the minus sign directly before its digits. The search never goes back.
pub fn find_number_span(chars: &[char], start_col: usize) -> (span: Option<(usize, usize)>)
    ensures
        as_span(span) == number_span(chars@, start_col as int),
        match span {
            Some((start, end)) => {
                &&& start < end <= chars@.len()
                &&& start_col < end
                &&& digits_end(chars@, end as int)
                &&& forall|j: int| start_col < j < end ==> !digits_end(chars@, j)
                &&& start == number_start(chars@, end as int)
                &&& is_digit(chars@[start as int]) || (chars@[start as int] == '-' && start + 1
                    < end)
                &&& forall|j: int| start < j < end ==> is_digit(#[trigger] chars@[j])
            },
            None => forall|j: int| start_col < j <= chars@.len() ==> !digits_end(chars@, j),
        },
{
    let n: usize = chars.len();
    let mut i: usize = 0;
    while i < n
        invariant
            n == chars@.len(),
            i <= n,
            i == 0 || i == n || !is_digit(chars@[i as int]) || !is_digit(chars@[i - 1]),
            forall|j: int| start_col < j <= i ==> !digits_end(chars@, j),
        decreases n - i,
    {
        if chars[i].is_ascii_digit() {
            let digit_start: usize = i;
            while i < n && chars[i].is_ascii_digit()
                invariant
                    n == chars@.len(),
                    digit_start <= i <= n,
                    is_digit(chars@[digit_start as int]),
                    forall|j: int| digit_start <= j < i ==> is_digit(#[trigger] chars@[j]),
                decreases n - i,
            {
                i += 1;
            }
            assert(digits_end(chars@, i as int));
            assert forall|j: int| digit_start < j < i implies !digits_end(chars@, j) by {
                assert(is_digit(chars@[j]));
            }
            let start: usize = if digit_start > 0 && chars[digit_start - 1] == '-' {
                digit_start - 1
            } else {
                digit_start
            };
            if i > start_col {
                proof {
                    let ends = |j: int| digits_end(chars@, j);
                    let begins = |j: int| digits_begin(chars@, j);
                    lemma_last_where(begins, 0, i as int);
                    assert(begins(digit_start as int));
                    let found = last_where(begins, 0, i as int)->0;
                    if found > digit_start {
                        assert(begins(found));
                        assert(is_digit(chars@[found - 1]));
                    }
                    lemma_first_where(ends, start_col + 1, chars@.len() as int + 1);
                    assert(ends(i as int));
                    let first = first_where(ends, start_col + 1, chars@.len() as int + 1)->0;
                    assert(ends(first));
                }
                return Some((start, i));
            }
        } else {
            i += 1;
        }
    }
    proof {
        let ends = |j: int| digits_end(chars@, j);
        lemma_first_where(ends, start_col + 1, chars@.len() as int + 1);
        if let Some(found) = first_where(ends, start_col + 1, chars@.len() as int + 1) {
            assert(ends(found));
        }
    }
    None
}

/// A WORD, which only white space delimits, begins at `i`.
pub open spec fn big_word_begins(line: Seq<char>, i: int) -> bool {
    &&& 0 <= i < line.len()
    &&& !is_white(line[i])
    &&& i == 0 || is_white(line[i - 1])
}

/// Where the first WORD behind `col` begins.
pub open spec fn next_big_word(line: Seq<char>, col: int) -> Option<int> {
    first_where(
        |i: int| big_word_begins(line, i),
        least(col, line.len() as int) + 1,
        line.len() as int,
    )
}

/// Where the last WORD before `col` begins.
pub open spec fn previous_big_word(line: Seq<char>, col: int) -> Option<int> {
    last_where(|i: int| big_word_begins(line, i), 0, least(col, line.len() as int))
}

/// Finds the first WORD of the line that begins behind `start_col`. Unlike a (small) word, a WORD
/// is only delimited by white space: `foo(a).bar` is one WORD.
pub fn find_big_word_start_forward(line: &str, start_col: usize) -> (col: Option<usize>)
    ensures
        as_col(col) == next_big_word(line@, start_col as int),
        match col {
            Some(i) => {
                &&& start_col < i < line@.len()
                &&& big_word_begins(line@, i as int)
                &&& forall|j: int| start_col < j < i ==> !big_word_begins(line@, j)
            },
            None => forall|j: int| start_col < j < line@.len() ==> !big_word_begins(line@, j),
        },
{
    let chars: Vec<char> = chars_of(line);
    let n: usize = chars.len();
    let ghost begins = |j: int| big_word_begins(line@, j);
    let first: usize = if start_col < n {
        start_col
    } else {
        n
    };
    let mut i: usize = first;
    while i < n && !chars[i].is_whitespace()
        invariant
            chars@ == line@,
            n == chars@.len(),
            first <= i <= n,
            forall|j: int| first <= j < i ==> !is_white(#[trigger] line@[j]),
        decreases n - i,
    {
        i += 1;
    }
    let ghost gap = i as int;
    while i < n && chars[i].is_whitespace()
        invariant
            chars@ == line@,
            n == chars@.len(),
            first <= gap <= i <= n,
            gap == n || is_white(line@[gap]),
            forall|j: int| first <= j < gap ==> !is_white(#[trigger] line@[j]),
            forall|j: int| gap <= j < i ==> is_white(#[trigger] line@[j]),
        decreases n - i,
    {
        i += 1;
    }
    proof {
        assert forall|j: int| first < j < i implies !#[trigger] big_word_begins(line@, j) by {
            if j < gap {
                assert(!is_white(line@[j - 1]));
            } else if j == gap && gap < n {
                assert(is_white(line@[gap]));
            }
        }
        if i < n {
            assert(gap < i);
            assert(is_white(line@[i - 1]));
            assert(begins(i as int));
        }
        lemma_first_where(begins, first + 1, n as int);
        if let Some(found) = first_where(begins, first + 1, n as int) {
            assert(begins(found));
        }
    }
    if i < n {
        Some(i)
    } else {
        None
    }
}

/// Finds the last WORD of the line that begins before `start_col`.
pub fn find_big_word_start_backward(line: &str, start_col: usize) -> (col: Option<usize>)
    ensures
        as_col(col) == previous_big_word(line@, start_col as int),
        match col {
            Some(i) => {
                &&& i < start_col
                &&& big_word_begins(line@, i as int)
                &&& forall|j: int| i < j < start_col ==> !big_word_begins(line@, j)
            },
            None => forall|j: int| 0 <= j < start_col ==> !big_word_begins(line@, j),
        },
{
    let chars: Vec<char> = chars_of(line);
    let ghost begins = |j: int| big_word_begins(line@, j);
    let p: usize = if start_col < chars.len() {
        start_col
    } else {
        chars.len()
    };
    proof {
        lemma_last_where(begins, 0, p as int);
        if let Some(found) = last_where(begins, 0, p as int) {
            assert(begins(found));
        }
    }
    if p == 0 {
        return None;
    }
    let mut i: usize = p - 1;
    while i > 0 && chars[i].is_whitespace()
        invariant
            chars@ == line@,
            i < p <= chars@.len(),
            forall|j: int| i < j < p ==> is_white(#[trigger] line@[j]),
        decreases i,
    {
        i -= 1;
    }
    let ghost last = i as int;
    if chars[i].is_whitespace() {
        assert forall|j: int| 0 <= j < p implies !#[trigger] begins(j) by {
            assert(is_white(line@[j]));
        }
        return None;
    }
    while i > 0 && !chars[i - 1].is_whitespace()
        invariant
            chars@ == line@,
            i <= last < p <= chars@.len(),
            forall|j: int| i <= j <= last ==> !is_white(#[trigger] line@[j]),
        decreases i,
    {
        i -= 1;
    }
    proof {
        assert forall|j: int| i < j < p implies !#[trigger] big_word_begins(line@, j) by {
            if j <= last {
                assert(!is_white(line@[j - 1]));
            } else {
                assert(is_white(line@[j]));
            }
        }
        assert(begins(i as int));
    }
    Some(i)
}

/// Two characters belong to one text object: both white or both not for WORDs (`big`), of one kind
/// for words.
pub open spec fn same_class(a: char, b: char, big: bool) -> bool {
    if big {
        is_white(a) == is_white(b)
    } else {
        kind_of(a) == kind_of(b)
    }
}

/// A run of characters of one class begins at `i`.
pub open spec fn run_begins(line: Seq<char>, i: int, big: bool) -> bool {
    &&& 0 <= i < line.len()
    &&& i == 0 || !same_class(line[i - 1], line[i], big)
}

/// A run of characters of one class has its last character at `i`.
pub open spec fn run_ends(line: Seq<char>, i: int, big: bool) -> bool {
    &&& 0 <= i < line.len()
    &&& i + 1 == line.len() || !same_class(line[i + 1], line[i], big)
}

/// The first and the last position of the run of one class that holds `col`.
pub open spec fn run_around(line: Seq<char>, col: int, big: bool) -> (int, int) {
    (
        last_where(|i: int| run_begins(line, i, big), 0, col + 1)->0,
        first_where(|i: int| run_ends(line, i, big), col, line.len() as int)->0,
    )
}

/// Whether `a` and `b` belong to one text object.
fn in_same_class(a: char, b: char, big: bool) -> (same: bool)
    ensures
        same == same_class(a, b, big),
{
    if big {
        a.is_whitespace() == b.is_whitespace()
    } else {
        InnerWordKind::of(a) == InnerWordKind::of(b)
    }
}

/// Finds the word (or, where `big`, the WORD), or the run of white space between two of them,
/// that the position `col` is in: its first and its last position.
pub fn find_run_around(chars: &[char], col: usize, big: bool) -> (run: (usize, usize))
    requires
        col < chars@.len(),
    ensures
        (run.0 as int, run.1 as int) == run_around(chars@, col as int, big),
        run.0 <= col <= run.1 < chars@.len(),
        run_begins(chars@, run.0 as int, big),
        run_ends(chars@, run.1 as int, big),
        forall|j: int|
            run.0 <= j <= run.1 ==> same_class(#[trigger] chars@[j], chars@[col as int], big),
{
    let n: usize = chars.len();
    let mut start: usize = col;
    while start > 0 && in_same_class(chars[start - 1], chars[col], big)
        invariant
            start <= col < chars@.len(),
            forall|j: int|
                start <= j <= col ==> same_class(#[trigger] chars@[j], chars@[col as int], big),
        decreases start,
    {
        start -= 1;
    }
    let mut end: usize = col;
    while end + 1 < n && in_same_class(chars[end + 1], chars[col], big)
        invariant
            n == chars@.len(),
            col <= end < n,
            forall|j: int|
                col <= j <= end ==> same_class(#[trigger] chars@[j], chars@[col as int], big),
        decreases chars@.len() - end,
    {
        end += 1;
    }
    proof {
        let begins = |i: int| run_begins(chars@, i, big);
        lemma_last_where(begins, 0, col + 1);
        assert(begins(start as int));
        let first = last_where(begins, 0, col + 1)->0;
        if first > start {
            assert(begins(first));
            assert(same_class(chars@[first - 1], chars@[col as int], big));
        }
        let ends = |i: int| run_ends(chars@, i, big);
        lemma_first_where(ends, col as int, chars@.len() as int);
        assert(ends(end as int));
        let last = first_where(ends, col as int, chars@.len() as int)->0;
        if last < end {
            assert(ends(last));
            assert(same_class(chars@[last + 1], chars@[col as int], big));
        }
    }
    (start, end)
}

/// How many of the first `end` characters are `quote`.
pub open spec fn quotes_before(line: Seq<char>, quote: char, end: int) -> int
    decreases end,
{
    if end <= 0 {
        0
    } else {
        quotes_before(line, quote, end - 1) + if line[end - 1] == quote {
            1int
        } else {
            0
        }
    }
}

/// A quote stands at `i`.
pub open spec fn is_quote(line: Seq<char>, quote: char, i: int) -> bool {
    0 <= i < line.len() && line[i] == quote
}

/// A quote that closes a pair stands at `i`: quotes pair up from the start of the line.
pub open spec fn closes_quote(line: Seq<char>, quote: char, i: int) -> bool {
    &&& is_quote(line, quote, i)
    &&& quotes_before(line, quote, i) % 2 == 1
}

/// The first pair of quotes on the line that does not close before `col`.
pub open spec fn quote_pair(line: Seq<char>, quote: char, col: int) -> Option<(int, int)> {
    match first_where(|i: int| closes_quote(line, quote, i), col, line.len() as int) {
        Some(close) => Some((last_where(|i: int| is_quote(line, quote, i), 0, close)->0, close)),
        None => None,
    }
}

/// Finds the first pair of quotes on the line whose closing quote is at `col` or behind it: the
/// positions of the two quotes. Escaped quotes count like any other.
pub fn find_quote_pair(chars: &[char], quote: char, col: usize) -> (pair: Option<(usize, usize)>)
    ensures
        as_span(pair) == quote_pair(chars@, quote, col as int),
        match pair {
            Some((open, close)) => {
                &&& open < close < chars@.len()
                &&& col <= close
                &&& chars@[open as int] == quote
                &&& closes_quote(chars@, quote, close as int)
                &&& forall|j: int| open < j < close ==> #[trigger] chars@[j] != quote
                &&& forall|j: int| col <= j < close ==> !closes_quote(chars@, quote, j)
            },
            None => forall|j: int| col <= j < chars@.len() ==> !closes_quote(chars@, quote, j),
        },
{
    let mut open: Option<usize> = None;
    let mut i: usize = 0;
    while i < chars.len()
        invariant
            i <= chars@.len(),
            quotes_before(chars@, quote, i as int) % 2 == (if open is Some {
                1int
            } else {
                0
            }),
            match open {
                Some(at) => {
                    &&& at < i
                    &&& chars@[at as int] == quote
                    &&& forall|j: int| at < j < i ==> #[trigger] chars@[j] != quote
                },
                None => true,
            },
            forall|j: int| col <= j < i ==> !closes_quote(chars@, quote, j),
        decreases chars@.len() - i,
    {
        if chars[i] == quote {
            if let Some(at) = open {
                assert(closes_quote(chars@, quote, i as int));
                if i >= col {
                    proof {
                        let closes = |j: int| closes_quote(chars@, quote, j);
                        lemma_first_where(closes, col as int, chars@.len() as int);
                        assert(closes(i as int));
                        let found = first_where(closes, col as int, chars@.len() as int)->0;
                        assert(closes(found));
                        let opens = |j: int| is_quote(chars@, quote, j);
                        lemma_last_where(opens, 0, i as int);
                        assert(opens(at as int));
                        let last = last_where(opens, 0, i as int)->0;
                        assert(opens(last));
                    }
                    return Some((at, i));
                }
                open = None;
            } else {
                open = Some(i);
            }
        }
        i += 1;
    }
    proof {
        let closes = |j: int| closes_quote(chars@, quote, j);
        lemma_first_where(closes, col as int, chars@.len() as int);
        if let Some(found) = first_where(closes, col as int, chars@.len() as int) {
            assert(closes(found));
        }
    }
    None
}

} // verus!
