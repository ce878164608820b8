//! What adding to a number in the text does.

use crate::chars::is_digit;
use crate::command::{command_of, Command, Transition};
use crate::find::{
    digits_begin, digits_end, first_where, last_where, lemma_first_where, lemma_last_where,
    number_span,
};
use crate::key::{Input, Key};
use crate::lemmas::{lemma_number_span, lemma_without_part};
use crate::mode::Mode;
use crate::model::{advanced, chomped, holds, lines_of, split, Layout, Motion, TextState, Yank};
use crate::number::{
    bumped, decimal, digit, digits_of, digits_value, fill_width, is_number, magnitude, number_text,
    number_value, saturated, zeros,
};
use crate::objects::jump_end;
use crate::vim::{effect, Effect};
use vstd::arithmetic::power::{lemma_pow0, lemma_pow1, lemma_pow_adds, pow};
use vstd::prelude::*;

verus! {

/// All characters are digits.
pub open spec fn all_digits(text: Seq<char>) -> bool {
    forall|i: int| 0 <= i < text.len() ==> is_digit(#[trigger] text[i])
}

/// What is written of a number reads as that number.
proof fn lemma_decimal(n: int)
    requires
        n >= 0,
    ensures
        decimal(n).len() > 0,
        all_digits(decimal(n)),
        digits_value(decimal(n)) == n,
    decreases n,
{
    let text = decimal(n);
    if n >= 10 {
        lemma_decimal(n / 10);
        assert(text.drop_last() =~= decimal(n / 10));
        assert(text.last() == digit(n % 10));
        assert forall|i: int| 0 <= i < text.len() implies is_digit(#[trigger] text[i]) by {
            if i < text.len() - 1 {
                assert(text[i] == decimal(n / 10)[i]);
            }
        }
    } else {
        assert(text.drop_last() =~= Seq::empty());
        assert(digits_value(text.drop_last()) == 0);
    }
}

/// Leading zeros do not count.
proof fn lemma_zeros(count: int, digits: Seq<char>)
    ensures
        digits_value(zeros(count) + digits) == digits_value(digits),
    decreases digits.len() + zeros(count).len(),
{
    let text = zeros(count) + digits;
    if digits.len() > 0 {
        lemma_zeros(count, digits.drop_last());
        assert(text.drop_last() =~= zeros(count) + digits.drop_last());
        assert(text.last() == digits.last());
    } else if count > 0 {
        lemma_zeros(count - 1, digits);
        assert(text =~= zeros(count));
        assert(text.drop_last() =~= zeros(count - 1) + digits);
        assert(text.last() == '0');
    } else {
        assert(text =~= digits);
    }
}

/// Nothing but zero is written with a zero first.
proof fn lemma_first_digit(n: int)
    requires
        n > 0,
    ensures
        decimal(n).len() > 0,
        decimal(n)[0] != '0',
    decreases n,
{
    if n >= 10 {
        lemma_first_digit(n / 10);
    }
}

/// A number that is written without leading zeros is not filled up.
proof fn lemma_no_fill(value: int)
    ensures
        fill_width(number_text(value, 0)) == 0,
{
    let text = number_text(value, 0);
    let digits = decimal(magnitude(value));
    lemma_decimal(magnitude(value));
    lemma_number_text(value, 0);
    assert(zeros(0 - digits.len()) =~= Seq::empty());
    if value < 0 {
        lemma_first_digit(-value);
        assert(text.skip(1) =~= digits);
        assert(text[0] == '-');
    } else {
        assert(text =~= digits);
        assert(is_digit(text[0]));
        if value > 0 {
            lemma_first_digit(value);
        }
    }
}

/// A number that is written, with or without leading zeros, reads as that number.
proof fn lemma_number_text(value: int, width: int)
    ensures
        is_number(number_text(value, width)),
        number_value(number_text(value, width)) == value,
        digits_of(number_text(value, width)) == zeros(
            width - decimal(magnitude(value)).len(),
        ) + decimal(magnitude(value)),
{
    let text = number_text(value, width);
    let digits = decimal(magnitude(value));
    let front = zeros(width - digits.len());
    let filled = front + digits;
    lemma_decimal(magnitude(value));
    lemma_zeros(width - digits.len(), digits);
    assert forall|i: int| 0 <= i < filled.len() implies is_digit(#[trigger] filled[i]) by {
        if i >= front.len() {
            assert(filled[i] == digits[i - front.len()]);
        }
    }
    if value < 0 {
        assert(text[0] == '-');
        assert(text.skip(1) =~= filled);
    } else {
        assert(text =~= filled);
        assert(is_digit(filled[0]));
    }
}

/// Adding to a number gives a number, whose value is the sum, or the nearest one that a machine
/// integer holds.
pub proof fn law_sum(text: Seq<char>, delta: int)
    requires
        is_number(text),
        i64::MIN <= number_value(text) <= i64::MAX,
    ensures
        bumped(text, delta) is Some,
        ({
            let new = bumped(text, delta)->0;
            &&& is_number(new)
            &&& number_value(new) == saturated(number_value(text) + delta)
        }),
{
    lemma_number_text(saturated(number_value(text) + delta), fill_width(text));
}

/// A number written with leading zeros keeps its width, unless the sum needs more digits.
pub proof fn law_width(text: Seq<char>, delta: int)
    requires
        is_number(text),
        i64::MIN <= number_value(text) <= i64::MAX,
        fill_width(text) > 0,
        decimal(magnitude(saturated(number_value(text) + delta))).len() <= fill_width(text),
    ensures
        bumped(text, delta) is Some,
        digits_of(bumped(text, delta)->0).len() == digits_of(text).len(),
{
    lemma_number_text(saturated(number_value(text) + delta), fill_width(text));
}

/// Adding to a number and taking the same away again gives the number back, where it was written as
/// numbers are written here and the sum is not out of range. One with leading zeros must keep its
/// width.
pub proof fn law_add_and_take_away(text: Seq<char>, delta: int)
    requires
        is_number(text),
        text == number_text(number_value(text), fill_width(text)),
        i64::MIN <= number_value(text) <= i64::MAX,
        i64::MIN <= number_value(text) + delta <= i64::MAX,
        fill_width(text) > 0 ==> fill_width(
            number_text(number_value(text) + delta, fill_width(text)),
        ) == fill_width(text),
    ensures
        bumped(text, delta) is Some,
        bumped(bumped(text, delta)->0, -delta) == Some(text),
{
    lemma_number_text(number_value(text) + delta, fill_width(text));
    if fill_width(text) == 0 {
        lemma_no_fill(number_value(text) + delta);
    }
}

/// A text without line feeds is one line.
proof fn lemma_one_line(text: Seq<char>)
    requires
        !text.contains('\n'),
    ensures
        split(text) == seq![text],
    decreases text.len(),
{
    if text.len() > 0 {
        let front = text.drop_last();
        assert forall|i: int| 0 <= i < front.len() implies front[i] != '\n' by {
            assert(text[i] == front[i]);
            assert(text.contains(text[i]));
        }
        lemma_one_line(front);
        assert(text.contains(text[text.len() - 1]));
        assert(front.push(text.last()) =~= text);
        assert(split(text) =~= seq![text]);
    } else {
        assert(text =~= Seq::empty());
    }
}

/// A number is one line.
proof fn lemma_number_is_one_line(text: Seq<char>)
    requires
        is_number(text),
    ensures
        lines_of(text) == seq![text],
{
    let digits = digits_of(text);
    let skipped = text.len() - digits.len();
    assert forall|i: int| 0 <= i < text.len() implies text[i] != '\n' && text[i] != '\r' by {
        if i >= skipped {
            assert(text[i] == digits[i - skipped]);
        }
    }
    lemma_one_line(text);
    assert(chomped(text) == text);
    assert(lines_of(text) =~= seq![text]);
}

/// The first number that ends behind the cursor is in the range of a machine integer, and its first
/// character is reached for certain.
pub open spec fn holds_number(text: TextState) -> bool {
    match number_span(text.line(), text.cursor.1) {
        Some((start, end)) => {
            &&& i64::MIN <= number_value(text.line().subrange(start, end)) <= i64::MAX
            &&& text.reaches((text.cursor.0, start))
        },
        None => false,
    }
}

/// The step back from behind a number `new` that was written at column `start` is certain.
pub open spec fn steps_onto(text: TextState, start: int, new: Seq<char>) -> bool {
    &&& text.layout.shows('0')
    &&& text.layout.unwrapped() || new.len() > 1 || start == 0 || text.layout.shows(
        text.line()[start - 1],
    )
}

/// Adding to the first number of the line that ends behind the cursor writes the sum in its place,
/// and yanks the number. The rest of the text is as it was, and the cursor is on the last digit,
/// where the step back onto it is certain.
#[verifier::rlimit(30)]
pub proof fn law_incremented(text: TextState, delta: int)
    requires
        holds(text.lines, text.cursor),
        holds_number(text),
    ensures
        ({
            let after = text.incremented(delta);
            let row = text.cursor.0;
            let line = text.line();
            let (start, end) = number_span(line, text.cursor.1)->0;
            let number = line.subrange(start, end);
            let new = bumped(number, delta)->0;
            &&& is_number(number)
            &&& 0 <= start < end <= line.len() && text.cursor.1 < end
            &&& is_number(new)
            &&& number_value(new) == saturated(number_value(number) + delta)
            &&& after.lines == text.lines.update(row, line.take(start) + new + line.skip(end))
            &&& after.anchor is None
            &&& after.yank == Yank::Piece(number)
            &&& after.layout == text.layout
            &&& steps_onto(text, start, new) ==> after.cursor == (row, start + new.len() - 1)
        }),
{
    reveal(TextState::incremented);
    let row = text.cursor.0;
    let line = text.line();
    lemma_number_span(line, text.cursor.1);
    let (start, end) = number_span(line, text.cursor.1)->0;
    let number = line.subrange(start, end);
    law_sum(number, delta);
    let new = bumped(number, delta)->0;
    lemma_number_is_one_line(new);
    let at = text.unanchored();
    assert(at.reaches((row, start)));
    let there = at.jumped((row, start));
    assert(there == at.with_cursor((row, start)));
    assert(advanced(there.lines, there.cursor, end - start) == (row, end));
    lemma_without_part(text.lines, row, start, end);
    let gone = there.deleted(end - start);
    let rest = line.take(start) + line.skip(end);
    assert(gone.lines == text.lines.update(row, rest));
    assert(gone.lines[row] == rest);
    assert(rest.take(start) =~= line.take(start));
    assert(rest.skip(start) =~= line.skip(end));
    let typed = gone.typed(new);
    let written = line.take(start) + new + line.skip(end);
    assert(typed.lines =~= text.lines.update(row, written));
    assert(typed.cursor == (row, start + new.len()));
    assert(typed.lines[row] == written);
    if steps_onto(text, start, new) {
        let last = start + new.len() - 1;
        assert(written[last] == new[new.len() - 1]);
        lemma_number_shows(text, new);
        assert(text.layout.shows(written[last]));
        if new.len() > 1 {
            assert(written[last - 1] == new[new.len() - 2]);
        } else if start > 0 {
            assert(written[last - 1] == line[start - 1]);
        }
        assert(typed.layout.steps_back(written, start + new.len()));
    }
}

/// The characters of a number are shown, where a digit is.
proof fn lemma_number_shows(text: TextState, number: Seq<char>)
    requires
        is_number(number),
        text.layout.shows('0'),
    ensures
        forall|i: int| 0 <= i < number.len() ==> text.layout.shows(#[trigger] number[i]),
{
    let digits = digits_of(number);
    let skipped = number.len() - digits.len();
    assert forall|i: int| 0 <= i < number.len() implies text.layout.shows(#[trigger] number[i]) by {
        if i >= skipped {
            assert(number[i] == digits[i - skipped]);
        }
    }
}

/// A number that was written at `start`, not behind a digit or a sign, is found there.
proof fn lemma_span_written(line: Seq<char>, start: int, end: int, new: Seq<char>)
    requires
        0 <= start < end <= line.len(),
        digits_end(line, end),
        is_number(new),
        start > 0 ==> !is_digit(line[start - 1]) && line[start - 1] != '-',
    ensures
        number_span(
            line.take(start) + new + line.skip(end),
            start + new.len() - 1,
        ) == Some((start, (start + new.len()) as int)),
{
    let written = line.take(start) + new + line.skip(end);
    let behind = start + new.len();
    let digits = digits_of(new);
    let begin = behind - digits.len();
    assert forall|i: int| begin <= i < behind implies is_digit(#[trigger] written[i]) by {
        assert(written[i] == new[i - start]);
        assert(new[i - start] == digits[i - begin]);
    }
    if begin > start {
        assert(written[start] == new[0]);
    }
    if start > 0 {
        assert(written[start - 1] == line[start - 1]);
    }
    if behind < written.len() {
        assert(written[behind] == line[end]);
    }
    assert(digits_end(written, behind));
    let ends = |i: int| digits_end(written, i);
    assert(ends(behind));
    let begins = |i: int| digits_begin(written, i);
    assert(digits_begin(written, begin));
    assert(begins(begin));
    lemma_last_where(begins, 0, behind);
    let found = last_where(begins, 0, behind)->0;
    assert(begins(found));
    if found > begin {
        assert(is_digit(written[found - 1]));
    }
}

/// What is written at a place does not change that it is reached.
proof fn lemma_reaches_still(text: TextState, after: TextState, place: (int, int))
    requires
        after.layout == text.layout,
        0 <= place.1 < text.lines[place.0].len(),
        forall|i: int|
            0 <= i < place.1 ==> #[trigger] after.lines[place.0][i] == text.lines[place.0][i],
        place.1 < after.lines[place.0].len(),
        text.layout.shows_between(text.lines[place.0], 0, text.lines[place.0].len() as int)
            ==> text.layout.shows_between(
            after.lines[place.0],
            0,
            after.lines[place.0].len() as int,
        ),
        text.reaches(place),
    ensures
        after.reaches(place),
{
    let line = text.lines[place.0];
    let written = after.lines[place.0];
    let layout = text.layout;
    let shown = layout.unwrapped() && layout.shows_between(written, 0, written.len() as int);
    if !(place.0 <= 0xffff && place.1 <= 0xffff) && !shown {
        assert forall|i: int| jump_end(place) <= i < place.1 implies layout.steps_forward(
            written,
            i,
        ) by {
            assert(layout.steps_forward(line, i));
            assert(written[i] == line[i]);
        }
    }
}

/// Where a text shows anything, it still does with a number in it.
proof fn lemma_shows_still(layout: Layout, line: Seq<char>, written: Seq<char>, at: int)
    requires
        layout.shows_between(line, 0, line.len() as int),
        0 <= at < written.len(),
        is_digit(written[at]),
    ensures
        layout.shows_between(written, 0, written.len() as int),
{
    assert(layout.shows(written[at]));
}

/// Adding to a number in a text and taking the same away again gives the lines back, where the
/// number was written as numbers are written here, not directly behind a digit or a sign, and the
/// sum is not out of range. A number with leading zeros must keep its width, and the cursor must be
/// on the last digit of the sum.
pub proof fn law_increment_and_back(text: TextState, delta: int)
    requires
        holds(text.lines, text.cursor),
        holds_number(text),
        ({
            let line = text.line();
            let (start, end) = number_span(line, text.cursor.1)->0;
            let number = line.subrange(start, end);
            let value = number_value(number);
            let width = fill_width(number);
            &&& number == number_text(value, width)
            &&& i64::MIN <= value + delta <= i64::MAX
            &&& width > 0 ==> fill_width(number_text(value + delta, width)) == width
            &&& start > 0 ==> !is_digit(line[start - 1]) && line[start - 1] != '-'
            &&& text.incremented(delta).cursor == (
                text.cursor.0,
                start + number_text(value + delta, width).len() - 1,
            )
        }),
    ensures
        text.incremented(delta).incremented(-delta).lines == text.lines,
{
    let row = text.cursor.0;
    let line = text.line();
    lemma_number_span(line, text.cursor.1);
    let (start, end) = number_span(line, text.cursor.1)->0;
    let number = line.subrange(start, end);
    law_add_and_take_away(number, delta);
    law_incremented(text, delta);
    let new = bumped(number, delta)->0;
    assert(new == number_text(number_value(number) + delta, fill_width(number)));
    let first = text.incremented(delta);
    assert(first.reaches((row, start))) by {
        let written = line.take(start) + new + line.skip(end);
        assert forall|i: int| 0 <= i < start implies #[trigger] written[i] == line[i] by {}
        assert(first.lines[row] == written);
        let last = start + new.len() - 1;
        let digits = digits_of(new);
        assert(written[last] == new[new.len() - 1]);
        assert(new[new.len() - 1] == digits[digits.len() - 1]);
        if text.layout.shows_between(line, 0, line.len() as int) {
            lemma_shows_still(text.layout, line, written, last);
        }
        lemma_reaches_still(text, first, (row, start));
    }
    lemma_put_number_back(first, text.lines, row, start, end, new, -delta);
}

/// Where the number `new` stands in place of one that it is `delta` away from, adding `delta` gives
/// the lines with that one back.
#[verifier::rlimit(30)]
proof fn lemma_put_number_back(
    text: TextState,
    lines: Seq<Seq<char>>,
    row: int,
    start: int,
    end: int,
    new: Seq<char>,
    delta: int,
)
    requires
        0 <= row < lines.len(),
        0 <= start < end <= lines[row].len(),
        digits_end(lines[row], end),
        start > 0 ==> !is_digit(lines[row][start - 1]) && lines[row][start - 1] != '-',
        is_number(new),
        i64::MIN <= number_value(new) <= i64::MAX,
        bumped(new, delta) == Some(lines[row].subrange(start, end)),
        text.lines == lines.update(row, lines[row].take(start) + new + lines[row].skip(end)),
        text.cursor == (row, start + new.len() - 1),
        text.reaches((row, start)),
    ensures
        text.incremented(delta).lines == lines,
{
    let line = lines[row];
    let written = line.take(start) + new + line.skip(end);
    let behind: int = start + new.len();
    let number = line.subrange(start, end);
    assert(text.line() == written);
    assert(number_span(written, behind - 1) == Some((start, behind))) by {
        lemma_span_written(line, start, end, new);
    }
    assert(written.subrange(start, behind) =~= new);
    assert(text.incremented(delta).lines == text.lines.update(
        row,
        written.take(start) + number + written.skip(behind),
    )) by {
        law_incremented(text, delta);
    }
    assert(written.take(start) + number + written.skip(behind) =~= line);
    assert(text.lines.update(row, line) =~= lines);
}

/// Ctrl-A adds one to the first number of the line that ends behind the cursor, and Ctrl-X takes
/// one away: the sum stands in its place, the rest of the line is as it was, and the cursor is on
/// the last digit, where the step back onto it is certain.
pub proof fn law_increment(
    pending: Input,
    input: Input,
    clipboard: Option<Seq<char>>,
    text: TextState,
)
    requires
        input.ctrl,
        input.key == Key::Char('a') || input.key == Key::Char('x'),
        text.wf(),
        holds_number(text),
    ensures
        ({
            let after = effect(Mode::Normal, pending, input, clipboard, text);
            let row = text.cursor.0;
            let line = text.line();
            let (start, end) = number_span(line, text.cursor.1)->0;
            let number = line.subrange(start, end);
            let delta: int = if input.key == Key::Char('a') {
                1
            } else {
                -1
            };
            let new = bumped(number, delta)->0;
            &&& 0 <= start < end <= line.len() && text.cursor.1 < end
            &&& number_value(new) == saturated(number_value(number) + delta)
            &&& after.text.lines == text.lines.update(row, line.take(start) + new + line.skip(end))
            &&& steps_onto(text, start, new) ==> after.text.cursor == (
                row,
                start + new.len() - 1,
            )
            &&& after.text.anchor is None
            &&& after.transition == Transition::Nop
            &&& after.copied is None
        }),
{
    let delta: int = if input.key == Key::Char('a') {
        1
    } else {
        -1
    };
    law_incremented(text, delta);
    let command = command_of(Mode::Normal, pending, input);
    assert(command.aimed(Mode::Normal, text) == text.incremented(delta)) by {
        reveal(Command::aimed);
    }
}

/// Ctrl-X takes back what Ctrl-A has added.
pub proof fn law_ctrl_a_ctrl_x(
    pending: Input,
    add: Input,
    other: Input,
    take: Input,
    clipboard: Option<Seq<char>>,
    text: TextState,
)
    requires
        add.key == Key::Char('a') && add.ctrl,
        take.key == Key::Char('x') && take.ctrl,
        text.wf(),
        holds_number(text),
        ({
            let line = text.line();
            let (start, end) = number_span(line, text.cursor.1)->0;
            let number = line.subrange(start, end);
            let value = number_value(number);
            let width = fill_width(number);
            &&& number == number_text(value, width)
            &&& value < i64::MAX
            &&& width > 0 ==> fill_width(number_text(value + 1, width)) == width
            &&& start > 0 ==> !is_digit(line[start - 1]) && line[start - 1] != '-'
            &&& text.incremented(1).cursor == (
                text.cursor.0,
                start + number_text(value + 1, width).len() - 1,
            )
        }),
    ensures
        effect(
            Mode::Normal,
            other,
            take,
            clipboard,
            effect(Mode::Normal, pending, add, clipboard, text).text,
        ).text.lines == text.lines,
{
    law_increment_and_back(text, 1);
    let first = text.incremented(1);
    assert(command_of(Mode::Normal, pending, add).aimed(Mode::Normal, text) == first) by {
        reveal(Command::aimed);
    }
    assert(command_of(Mode::Normal, other, take).aimed(Mode::Normal, first) == first.incremented(
        -1,
    )) by {
        reveal(Command::aimed);
    }
}

/// Where no number ends behind the cursor, or the one that does is too large for a machine
/// integer, Ctrl-A and Ctrl-X change nothing.
pub proof fn law_no_number(
    pending: Input,
    input: Input,
    clipboard: Option<Seq<char>>,
    text: TextState,
)
    requires
        input.ctrl,
        input.key == Key::Char('a') || input.key == Key::Char('x'),
        match number_span(text.line(), text.cursor.1) {
            Some((start, end)) => !(i64::MIN <= number_value(text.line().subrange(start, end))
                <= i64::MAX),
            None => true,
        },
    ensures
        ({
            let after = effect(Mode::Normal, pending, input, clipboard, text);
            after.text == text && after.transition == Transition::Nop && after.copied is None
        }),
{
    let command = command_of(Mode::Normal, pending, input);
    assert(command.aimed(Mode::Normal, text) == text) by {
        reveal(Command::aimed);
        reveal(TextState::incremented);
    }
}

/// A digit is worth its distance from `0`. Digits are worth ten times as much for each digit behind
/// them.
pub proof fn law_digits_value(c: char, front: Seq<char>, back: Seq<char>)
    ensures
        digits_value(seq![c]) == c as int - '0' as int,
        digits_value(front + back) == digits_value(front) * pow(10, back.len()) + digits_value(
            back,
        ),
    decreases back.len(),
{
    assert(seq![c].drop_last() =~= Seq::empty());
    assert(digits_value(Seq::<char>::empty()) == 0);
    if back.len() == 0 {
        assert(front + back =~= front);
        lemma_pow0(10);
    } else {
        let rest = back.drop_last();
        law_digits_value(c, front, rest);
        assert((front + back).drop_last() =~= front + rest);
        assert((front + back).last() == back.last());
        lemma_pow1(10);
        lemma_pow_adds(10, rest.len(), 1);
        let value = digits_value(front);
        let power = pow(10, rest.len());
        assert(value * power * 10 == value * (power * 10)) by (nonlinear_arith);
    }
}

/// A number is worth what its digits are, or less than nothing where a minus sign is before them.
pub proof fn law_number_value(digits: Seq<char>)
    requires
        digits.len() > 0,
        all_digits(digits),
    ensures
        is_number(digits),
        is_number(seq!['-'] + digits),
        number_value(digits) == digits_value(digits),
        number_value(seq!['-'] + digits) == -digits_value(digits),
{
    assert(is_digit(digits[0]));
    assert((seq!['-'] + digits).skip(1) =~= digits);
}

/// The number on the line from column `start` up to `end` is the first one that ends behind column
/// `col`: digits, as far as they go, with the minus sign before them where there is one, and no
/// digit is between `col` and them.
pub open spec fn first_number(line: Seq<char>, start: int, end: int, col: int) -> bool {
    let begin = if line[start] == '-' {
        start + 1
    } else {
        start
    };
    &&& 0 <= start <= begin < end <= line.len()
    &&& col < end
    &&& forall|i: int| begin <= i < end ==> is_digit(#[trigger] line[i])
    &&& end == line.len() || !is_digit(line[end])
    &&& line[start] == '-' || start == 0 || (line[start - 1] != '-' && !is_digit(line[start - 1]))
    &&& forall|i: int| col <= i < begin ==> !is_digit(#[trigger] line[i])
}

/// What is written for `value` in place of a number with the digits `old`: a minus sign where it is
/// negative, and its digits. They keep their width where `old` has leading zeros, unless more are
/// needed; else there are no leading zeros.
pub open spec fn writes(new: Seq<char>, value: int, old: Seq<char>) -> bool {
    let negative = value < 0;
    let digits = if negative {
        new.skip(1)
    } else {
        new
    };
    &&& negative ==> new.len() > 0 && new[0] == '-'
    &&& digits.len() > 0
    &&& all_digits(digits)
    &&& digits_value(digits) == if negative {
        -value
    } else {
        value
    }
    &&& if old.len() > 1 && old[0] == '0' {
        digits.len() >= old.len() && (digits.len() > old.len() ==> digits[0] != '0')
    } else {
        digits.len() > 1 ==> digits[0] != '0'
    }
}

/// Adding to the first number that ends behind the cursor writes the sum, as far as a machine
/// integer reaches, in place of the number, which is yanked. The rest of the text stays as it is,
/// and the cursor is on the last digit, where the step back onto it is certain. A number that no
/// machine integer holds stays.
pub proof fn law_add_to_first_number(text: TextState, delta: int, start: int, end: int)
    requires
        text.wf(),
        first_number(text.line(), start, end, text.cursor.1),
    ensures
        adds_to(text, text.incremented(delta), delta, start, end),
{
    let row = text.cursor.0;
    let line = text.line();
    law_number_span(line, start, end, text.cursor.1);
    let number = line.subrange(start, end);
    assert(number[0] == line[start]);
    let digits = line.subrange(
        if line[start] == '-' {
            start + 1
        } else {
            start
        },
        end,
    );
    if line[start] == '-' {
        assert(number.skip(1) =~= digits);
        assert(number =~= seq!['-'] + digits);
    }
    assert(all_digits(digits));
    let value = number_value(number);
    if i64::MIN <= value <= i64::MAX && text.reaches((row, start)) {
        law_incremented(text, delta);
        let new = bumped(number, delta)->0;
        let written = line.take(start) + new + line.skip(end);
        assert(written.subrange(start, written.len() - (line.len() - end)) =~= new);
        law_bumped(line[start] == '-', digits, delta);
        assert(text.incremented(delta) == (TextState {
            cursor: (row, start),
            anchor: None,
            ..text
        }).deleted(end - start).typed(new).moved(Motion::Back)) by {
            reveal(TextState::incremented);
            assert(text.unanchored().reaches((row, start)));
        }
    } else if !(i64::MIN <= value <= i64::MAX) {
        reveal(TextState::incremented);
    }
}

/// `after` is the text with `delta` added to the number on the cursor's line from column `start` up
/// to `end`.
pub open spec fn adds_to(
    text: TextState,
    after: TextState,
    delta: int,
    start: int,
    end: int,
) -> bool {
    let row = text.cursor.0;
    let line = text.lines[row];
    let negative = line[start] == '-';
    let digits = line.subrange(
        if negative {
            start + 1
        } else {
            start
        },
        end,
    );
    let value = if negative {
        -digits_value(digits)
    } else {
        digits_value(digits)
    };
    let sum = value + delta;
    let written = after.lines[row];
    let new = written.subrange(start, written.len() - (line.len() - end));
    &&& i64::MIN <= value <= i64::MAX && text.reaches((row, start)) ==> {
        &&& after.lines == text.lines.update(row, line.take(start) + new + line.skip(end))
        &&& i64::MIN <= sum <= i64::MAX ==> writes(new, sum, digits)
        &&& sum > i64::MAX ==> writes(new, i64::MAX as int, digits)
        &&& sum < i64::MIN ==> writes(new, i64::MIN as int, digits)
        &&& steps_onto(text, start, new) ==> after.cursor == (row, start + new.len() - 1)
        &&& after.anchor is None
        &&& after.yank == Yank::Piece(line.subrange(start, end))
        &&& after == (TextState {
            cursor: (row, start),
            anchor: None,
            ..text
        }).deleted(end - start).typed(new).moved(Motion::Back)
    }
    &&& !(i64::MIN <= value <= i64::MAX) ==> after == text
}

/// Ctrl-A adds one to the first number that ends behind the cursor, and Ctrl-X takes one away.
pub proof fn law_increment_first_number(
    pending: Input,
    input: Input,
    clipboard: Option<Seq<char>>,
    text: TextState,
    start: int,
    end: int,
)
    requires
        input.ctrl,
        input.key == Key::Char('a') || input.key == Key::Char('x'),
        text.wf(),
        first_number(text.line(), start, end, text.cursor.1),
    ensures
        ({
            let after = effect(Mode::Normal, pending, input, clipboard, text);
            let delta: int = if input.key == Key::Char('a') {
                1
            } else {
                -1
            };
            &&& adds_to(text, after.text, delta, start, end)
            &&& after.transition == Transition::Nop
            &&& after.copied is None
        }),
{
    let delta: int = if input.key == Key::Char('a') {
        1
    } else {
        -1
    };
    law_add_to_first_number(text, delta, start, end);
    let command = command_of(Mode::Normal, pending, input);
    assert(command.aimed(Mode::Normal, text) == text.incremented(delta)) by {
        reveal(Command::aimed);
    }
}

/// A number is written as its sign, where it is negative, and its digits, with zeros before them
/// up to the width.
pub proof fn law_number_text(value: int, width: int)
    ensures
        ({
            let text = number_text(value, width);
            let digits = if value < 0 {
                text.skip(1)
            } else {
                text
            };
            &&& value < 0 ==> text.len() > 0 && text[0] == '-'
            &&& digits.len() > 0
            &&& all_digits(digits)
            &&& digits_value(digits) == if value < 0 {
                -value
            } else {
                value
            }
            &&& digits.len() >= width
            &&& digits.len() > width && digits.len() > 1 ==> digits[0] != '0'
        }),
{
    let text = number_text(value, width);
    let plain = decimal(magnitude(value));
    lemma_decimal(magnitude(value));
    lemma_number_text(value, width);
    let digits = digits_of(text);
    if value < 0 {
        assert(text[0] == '-');
    } else {
        assert(text =~= zeros(width - plain.len()) + plain);
        assert(is_digit(text[0]));
    }
    if magnitude(value) > 0 {
        lemma_first_digit(magnitude(value));
    }
    if plain.len() >= width {
        assert(digits =~= plain);
    }
}

/// Adding to a number writes the sum, as far as a machine integer reaches, in the way that the
/// number is written. It fails for a number that no machine integer holds.
pub proof fn law_bumped(negative: bool, digits: Seq<char>, delta: int)
    requires
        digits.len() > 0,
        all_digits(digits),
    ensures
        ({
            let number = if negative {
                seq!['-'] + digits
            } else {
                digits
            };
            let value = if negative {
                -digits_value(digits)
            } else {
                digits_value(digits)
            };
            let sum = value + delta;
            let new = bumped(number, delta);
            &&& new is Some <==> i64::MIN <= value <= i64::MAX
            &&& new is Some ==> {
                &&& i64::MIN <= sum <= i64::MAX ==> writes(new->0, sum, digits)
                &&& sum > i64::MAX ==> writes(new->0, i64::MAX as int, digits)
                &&& sum < i64::MIN ==> writes(new->0, i64::MIN as int, digits)
            }
        }),
{
    let number = if negative {
        seq!['-'] + digits
    } else {
        digits
    };
    if negative {
        assert(number.skip(1) =~= digits);
    } else {
        assert(is_digit(digits[0]));
    }
    law_number_text(saturated(number_value(number) + delta), fill_width(number));
}

/// A search for a number finds the first one that ends behind the position.
pub proof fn law_number_span(line: Seq<char>, start: int, end: int, col: int)
    requires
        0 <= col,
        first_number(line, start, end, col),
    ensures
        number_span(line, col) == Some((start, end)),
        is_number(line.subrange(start, end)),
{
    let begin = if line[start] == '-' {
        start + 1
    } else {
        start
    };
    let ends = |i: int| digits_end(line, i);
    let begins = |i: int| digits_begin(line, i);
    assert(is_digit(line[begin]) && is_digit(line[end - 1]));
    assert(ends(end));
    lemma_first_where(ends, col + 1, line.len() as int + 1);
    let found = first_where(ends, col + 1, line.len() as int + 1)->0;
    assert(ends(found));
    if found < end {
        assert(is_digit(line[found - 1]));
        if found > begin {
            assert(is_digit(line[found]));
        }
    }
    assert(begins(begin));
    lemma_last_where(begins, 0, end);
    let last = last_where(begins, 0, end)->0;
    assert(begins(last));
    if last > begin {
        assert(is_digit(line[last - 1]));
    }
    lemma_number_span(line, col);
}

/// Where no digit is at the position or behind it, no number is found.
pub proof fn law_no_number_span(line: Seq<char>, col: int)
    requires
        0 <= col,
        forall|i: int| col <= i < line.len() ==> !is_digit(#[trigger] line[i]),
    ensures
        number_span(line, col) is None,
{
    let ends = |i: int| digits_end(line, i);
    lemma_first_where(ends, col + 1, line.len() as int + 1);
    if let Some(found) = first_where(ends, col + 1, line.len() as int + 1) {
        assert(ends(found));
        assert(is_digit(line[found - 1]));
    }
}

/// Where no digit is at the cursor or behind it on its line, Ctrl-A and Ctrl-X change nothing.
pub proof fn law_no_digit_ahead(
    pending: Input,
    input: Input,
    clipboard: Option<Seq<char>>,
    text: TextState,
)
    requires
        input.ctrl,
        input.key == Key::Char('a') || input.key == Key::Char('x'),
        text.wf(),
        forall|i: int|
            text.cursor.1 <= i < text.line().len() ==> !is_digit(#[trigger] text.line()[i]),
    ensures
        effect(Mode::Normal, pending, input, clipboard, text) == (Effect {
            text,
            transition: Transition::Nop,
            copied: None,
        }),
{
    law_no_number_span(text.line(), text.cursor.1);
    law_no_number(pending, input, clipboard, text);
}

} // verus!
