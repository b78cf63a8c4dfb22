//! Laws of numbers, lines, margins and segments.

use crate::text::{
    all_digits, decimal, digit, digits_value, is_white_space, last_segment, line_with_prefix, lines,
    parse_number, run_length, texts, trim, trim_end, trim_start, without_plus, without_return,
};
use vstd::arithmetic::power::{lemma_pow0, lemma_pow1, lemma_pow_adds, pow};
use vstd::prelude::*;

verus! {

/// The character is one of the ten decimal digits.
pub open spec fn is_digit(c: char) -> bool {
    '0' <= c <= '9'
}

/// The last character of a decimal is the units: one more digit makes the number
/// ten times as large and adds the digit.
pub proof fn law_last_digit_is_the_units(text: Seq<char>, c: char)
    requires
        is_digit(c),
    ensures
        digits_value(Seq::empty()) == 0,
        digits_value(text.push(c)) == 10 * digits_value(text) + (c as nat - '0' as nat),
{
    assert(text.push(c).drop_last() =~= text);
}

/// The value of digits is their place value: each digit counts ten times as much
/// as the one behind it.
pub proof fn law_digits_have_place_values(front: Seq<char>, c: char, back: Seq<char>)
    requires
        forall|i: int| 0 <= i < front.len() ==> is_digit(#[trigger] front[i]),
        is_digit(c),
        forall|i: int| 0 <= i < back.len() ==> is_digit(#[trigger] back[i]),
    ensures
        digits_value(front + back) == digits_value(front) * pow(10, back.len()) + digits_value(
            back,
        ),
        digits_value(seq![c] + back) == (c as nat - '0' as nat) * pow(10, back.len())
            + digits_value(back),
    decreases back.len(),
{
    assert(digits_value(seq![c]) == c as nat - '0' as nat) by {
        law_last_digit_is_the_units(Seq::empty(), c);
        assert(Seq::<char>::empty().push(c) =~= seq![c]);
    }
    if back.len() == 0 {
        assert(front + back =~= front);
        assert(seq![c] + back =~= seq![c]);
        lemma_pow0(10);
    } else {
        let shorter = back.drop_last();
        let last = back.last();
        law_digits_have_place_values(front, c, shorter);
        assert((front + back).drop_last() =~= front + shorter);
        assert((seq![c] + back).drop_last() =~= seq![c] + shorter);
        lemma_pow_adds(10, shorter.len(), 1);
        lemma_pow1(10);
        let p = pow(10, shorter.len());
        let f = digits_value(front) as int;
        let d = c as int - '0' as int;
        assert(f * (p * 10) == (f * p) * 10) by (nonlinear_arith);
        assert(d * (p * 10) == (d * p) * 10) by (nonlinear_arith);
    }
}

/// A decimal is a text of digits, with no zero in front but for the number zero
/// itself, and its value is the number.
pub proof fn law_decimal_writes_the_number(number: nat)
    ensures
        decimal(number).len() > 0,
        forall|i: int| 0 <= i < decimal(number).len() ==> is_digit(#[trigger] decimal(number)[i]),
        decimal(number)[0] == '0' ==> decimal(number).len() == 1,
        digits_value(decimal(number)) == number,
    decreases number,
{
    if number < 10 {
        assert(decimal(number) =~= seq![digit(number)]);
        assert(decimal(number).drop_last() =~= Seq::empty());
        assert(digits_value(Seq::empty()) == 0);
    } else {
        let shorter = decimal(number / 10);
        law_decimal_writes_the_number(number / 10);
        let text = decimal(number);
        assert(text =~= shorter.push(digit(number % 10)));
        assert(text.drop_last() =~= shorter);
        assert forall|i: int| 0 <= i < text.len() implies is_digit(#[trigger] text[i]) by {
            if i < shorter.len() {
                assert(text[i] == shorter[i]);
            }
        }
        assert(text[0] == shorter[0]);
        if shorter[0] == '0' {
            assert(shorter.drop_last() =~= Seq::empty());
            assert(digits_value(Seq::<char>::empty()) == 0);
            assert(digits_value(shorter) == 0);
        }
    }
}

/// There is only one such text: digits without a zero in front are the decimal
/// of their value.
pub proof fn law_digits_are_the_decimal_of_their_value(text: Seq<char>)
    requires
        text.len() > 0,
        forall|i: int| 0 <= i < text.len() ==> is_digit(#[trigger] text[i]),
        text[0] == '0' ==> text.len() == 1,
    ensures
        decimal(digits_value(text)) == text,
    decreases text.len(),
{
    let last = text.last();
    let shorter = text.drop_last();
    let unit = (last as nat - '0' as nat) as nat;
    assert(is_digit(last));
    assert(digit(unit) == last);
    if text.len() == 1 {
        assert(shorter =~= Seq::empty());
        assert(digits_value(Seq::<char>::empty()) == 0);
        assert(digits_value(text) == unit);
        assert(text =~= seq![last]);
    } else {
        assert forall|i: int| 0 <= i < shorter.len() implies is_digit(#[trigger] shorter[i]) by {
            assert(shorter[i] == text[i]);
        }
        law_digits_are_the_decimal_of_their_value(shorter);
        let value = digits_value(shorter);
        assert(value > 0) by {
            if value == 0 {
                assert(decimal(0) == seq![digit(0)]);
                assert(shorter[0] == '0');
            }
        }
        assert(digits_value(text) == value * 10 + unit);
        assert((value * 10 + unit) / 10 == value && (value * 10 + unit) % 10 == unit);
        assert(decimal(digits_value(text)) == shorter.push(last));
        assert(shorter.push(last) =~= text);
    }
}

/// A number is written by digits alone, with or without one plus sign in front
/// of them, and it is read as their value where that fits; nothing else is read
/// as a number.
pub proof fn law_numbers_are_read(text: Seq<char>)
    ensures
        text.len() > 0 && (forall|i: int| 0 <= i < text.len() ==> is_digit(#[trigger] text[i]))
            ==> {
            &&& digits_value(text) <= usize::MAX ==> parse_number(text) == Some(
                digits_value(text) as usize,
            )
            &&& digits_value(text) > usize::MAX ==> parse_number(text) is None
            &&& parse_number(seq!['+'] + text) == parse_number(text)
        },
        parse_number(text) is Some ==> {
            &&& text.len() > 0
            &&& text[0] == '+' ==> text.len() > 1
            &&& text[0] == '+' || is_digit(text[0])
            &&& forall|i: int| 1 <= i < text.len() ==> is_digit(#[trigger] text[i])
        },
{
    if text.len() > 0 && (forall|i: int| 0 <= i < text.len() ==> is_digit(#[trigger] text[i])) {
        assert(is_digit(text[0]));
        assert(without_plus(text) == text);
        assert((seq!['+'] + text).skip(1) =~= text);
        assert(without_plus(seq!['+'] + text) == text);
        assert(all_digits(text)) by {
            assert forall|i: int| 0 <= i < text.len() implies '0' <= #[trigger] text[i]
                <= '9' by {
                assert(is_digit(text[i]));
            }
        }
    }
    if parse_number(text) is Some {
        let digits = without_plus(text);
        assert forall|i: int| 1 <= i < text.len() implies is_digit(#[trigger] text[i]) by {
            if text[0] == '+' {
                assert(text[i] == digits[i - 1]);
            } else {
                assert(text[i] == digits[i]);
            }
        }
        if text[0] != '+' {
            assert(digits[0] == text[0]);
        }
    }
}

/// A number is read back from its decimal, whatever white space stands on both
/// sides.
pub proof fn law_decimal_is_read_back(number: usize, left: Seq<char>, right: Seq<char>)
    requires
        forall|i: int| 0 <= i < left.len() ==> is_white_space(#[trigger] left[i]),
        forall|i: int| 0 <= i < right.len() ==> is_white_space(#[trigger] right[i]),
    ensures
        parse_number(trim(left + decimal(number as nat) + right)) == Some(number),
{
    let digits = decimal(number as nat);
    law_decimal_writes_the_number(number as nat);
    assert(is_digit(digits[0]) && is_digit(digits[digits.len() - 1]));
    law_margins_are_trimmed(left, digits, right);
    law_numbers_are_read(digits);
}

/// The run before a stop is what stands before its first occurrence.
proof fn lemma_run_ends_at_the_stop(line: Seq<char>, stop: char, rest: Seq<char>)
    requires
        forall|i: int| 0 <= i < line.len() ==> #[trigger] line[i] != stop,
    ensures
        run_length(line + seq![stop] + rest, stop) == line.len(),
        run_length(line, stop) == line.len(),
    decreases line.len(),
{
    let text = line + seq![stop] + rest;
    if line.len() == 0 {
        assert(text[0] == stop);
    } else {
        let shorter = line.skip(1);
        assert forall|i: int| 0 <= i < shorter.len() implies #[trigger] shorter[i] != stop by {
            assert(shorter[i] == line[i + 1]);
        }
        lemma_run_ends_at_the_stop(shorter, stop, rest);
        assert(text.skip(1) =~= shorter + seq![stop] + rest);
        assert(text[0] == line[0]);
    }
}

/// A text is cut into lines at its line feeds: what stands before one is a line,
/// without the one carriage return that may end it, and the rest is cut in the
/// same way. What is left without a line feed is a line as it stands, and an
/// empty text has none.
pub proof fn law_lines_end_at_line_feeds(line: Seq<char>, rest: Seq<char>)
    requires
        forall|i: int| 0 <= i < line.len() ==> #[trigger] line[i] != '\n',
    ensures
        lines(line + seq!['\r', '\n'] + rest) == seq![line] + lines(rest),
        line.len() == 0 || line.last() != '\r' ==> lines(line + seq!['\n'] + rest) == seq![line]
            + lines(rest),
        line.len() > 0 ==> lines(line) == seq![line],
        lines(Seq::empty()) == Seq::<Seq<char>>::empty(),
{
    let returned = line.push('\r');
    assert forall|i: int| 0 <= i < returned.len() implies #[trigger] returned[i] != '\n' by {
        if i < line.len() {
            assert(returned[i] == line[i]);
        }
    }
    lemma_run_ends_at_the_stop(returned, '\n', rest);
    lemma_run_ends_at_the_stop(line, '\n', rest);
    let one = line + seq!['\r', '\n'] + rest;
    assert(one =~= returned + seq!['\n'] + rest);
    assert(one.take(returned.len() as int) =~= returned);
    assert(one.skip(returned.len() as int + 1) =~= rest);
    assert(without_return(returned) =~= line);
    let two = line + seq!['\n'] + rest;
    assert(two.take(line.len() as int) =~= line);
    assert(two.skip(line.len() as int + 1) =~= rest);
}

/// The line that is found is one of the lines and starts with the prefix, and no
/// line before it does; where none is found, no line does.
pub proof fn law_first_line_with_prefix_is_found(lines: Seq<Seq<char>>, prefix: Seq<char>)
    ensures
        match line_with_prefix(lines, prefix) {
            Some(line) => exists|i: int|
                {
                    &&& 0 <= i < lines.len()
                    &&& #[trigger] lines[i] == line
                    &&& line.len() >= prefix.len()
                    &&& line.take(prefix.len() as int) == prefix
                    &&& forall|k: int|
                        0 <= k < i && lines[k].len() >= prefix.len() ==> (#[trigger] lines[k]).take(
                            prefix.len() as int,
                        ) != prefix
                },
            None => forall|k: int|
                0 <= k < lines.len() && lines[k].len() >= prefix.len() ==> (
                #[trigger] lines[k]).take(prefix.len() as int) != prefix,
        },
    decreases lines.len(),
{
    if lines.len() > 0 {
        let rest = lines.skip(1);
        let first = lines[0];
        if prefix.is_prefix_of(first) {
            assert(first.take(prefix.len() as int) =~= prefix);
            assert(lines[0] == first);
        } else {
            law_first_line_with_prefix_is_found(rest, prefix);
            assert(first.len() >= prefix.len() ==> first.take(prefix.len() as int) != prefix) by {
                if first.len() >= prefix.len() && first.take(prefix.len() as int) == prefix {
                    assert(prefix =~= first.subrange(0, prefix.len() as int));
                }
            }
            match line_with_prefix(rest, prefix) {
                Some(line) => {
                    let i = choose|i: int|
                        {
                            &&& 0 <= i < rest.len()
                            &&& #[trigger] rest[i] == line
                            &&& line.len() >= prefix.len()
                            &&& line.take(prefix.len() as int) == prefix
                            &&& forall|k: int|
                                0 <= k < i && rest[k].len() >= prefix.len() ==> (
                                #[trigger] rest[k]).take(prefix.len() as int) != prefix
                        };
                    assert(lines[i + 1] == line);
                    assert forall|k: int|
                        0 <= k < i + 1 && lines[k].len() >= prefix.len() implies (
                    #[trigger] lines[k]).take(prefix.len() as int) != prefix by {
                        if k > 0 {
                            assert(rest[k - 1] == lines[k]);
                        }
                    }
                },
                None => {
                    assert forall|k: int|
                        0 <= k < lines.len() && lines[k].len() >= prefix.len() implies (
                    #[trigger] lines[k]).take(prefix.len() as int) != prefix by {
                        if k > 0 {
                            assert(rest[k - 1] == lines[k]);
                        }
                    }
                },
            }
        }
    }
}

/// White space is what Unicode counts as such: tab to carriage return, the
/// space, the next-line and no-break spaces, and the spaces and separators of
/// the higher planes.
pub proof fn law_white_space(c: char)
    ensures
        is_white_space(c) <==> {
            let n = c as nat;
            ||| 9 <= n <= 13
            ||| n == 32
            ||| n == 133
            ||| n == 160
            ||| n == 5760
            ||| 8192 <= n <= 8202
            ||| n == 8232
            ||| n == 8233
            ||| n == 8239
            ||| n == 8287
            ||| n == 12288
        },
{
}

/// What begins with white space is trimmed from the left.
proof fn lemma_left_margin(left: Seq<char>, core: Seq<char>)
    requires
        forall|i: int| 0 <= i < left.len() ==> is_white_space(#[trigger] left[i]),
        core.len() == 0 || !is_white_space(core[0]),
    ensures
        trim_start(left + core) == core,
    decreases left.len(),
{
    let text = left + core;
    if left.len() == 0 {
        assert(text =~= core);
    } else {
        let shorter = left.skip(1);
        assert forall|i: int| 0 <= i < shorter.len() implies is_white_space(
            #[trigger] shorter[i],
        ) by {
            assert(shorter[i] == left[i + 1]);
        }
        lemma_left_margin(shorter, core);
        assert(text[0] == left[0]);
        assert(text.skip(1) =~= shorter + core);
    }
}

/// What ends with white space is trimmed from the right.
proof fn lemma_right_margin(core: Seq<char>, right: Seq<char>)
    requires
        forall|i: int| 0 <= i < right.len() ==> is_white_space(#[trigger] right[i]),
        core.len() == 0 || !is_white_space(core.last()),
    ensures
        trim_end(core + right) == core,
    decreases right.len(),
{
    let text = core + right;
    if right.len() == 0 {
        assert(text =~= core);
    } else {
        let shorter = right.drop_last();
        assert forall|i: int| 0 <= i < shorter.len() implies is_white_space(
            #[trigger] shorter[i],
        ) by {
            assert(shorter[i] == right[i]);
        }
        lemma_right_margin(core, shorter);
        assert(text.last() == right[right.len() - 1]);
        assert(text.drop_last() =~= core + shorter);
    }
}

/// Trimming takes away the white space at both ends, and nothing else.
pub proof fn law_margins_are_trimmed(left: Seq<char>, core: Seq<char>, right: Seq<char>)
    requires
        forall|i: int| 0 <= i < left.len() ==> is_white_space(#[trigger] left[i]),
        forall|i: int| 0 <= i < right.len() ==> is_white_space(#[trigger] right[i]),
        core.len() == 0 || (!is_white_space(core[0]) && !is_white_space(core.last())),
    ensures
        trim(left + core + right) == core,
{
    if core.len() == 0 {
        let margins = left + right;
        assert(left + core + right =~= margins + core);
        assert forall|i: int| 0 <= i < margins.len() implies is_white_space(
            #[trigger] margins[i],
        ) by {
            if i < left.len() {
                assert(margins[i] == left[i]);
            } else {
                assert(margins[i] == right[i - left.len()]);
            }
        }
        lemma_left_margin(margins, core);
    } else {
        assert(left + core + right =~= left + (core + right));
        assert((core + right)[0] == core[0]);
        lemma_left_margin(left, core + right);
        lemma_right_margin(core, right);
    }
}

/// The last segment is what stands behind the last slash: the whole text where
/// there is none.
pub proof fn law_last_segment_stands_behind_the_last_slash(front: Seq<char>, segment: Seq<char>)
    requires
        forall|i: int| 0 <= i < segment.len() ==> #[trigger] segment[i] != '/',
    ensures
        last_segment(front + seq!['/'] + segment) == segment,
        last_segment(segment) == segment,
    decreases segment.len(),
{
    let text = front + seq!['/'] + segment;
    if segment.len() == 0 {
        assert(text.last() == '/');
        assert(last_segment(text) =~= segment);
        assert(last_segment(segment) =~= segment);
    } else {
        let shorter = segment.drop_last();
        assert forall|i: int| 0 <= i < shorter.len() implies #[trigger] shorter[i] != '/' by {
            assert(shorter[i] == segment[i]);
        }
        law_last_segment_stands_behind_the_last_slash(front, shorter);
        assert(segment[segment.len() - 1] == segment.last());
        assert(text.last() == segment.last());
        assert(text.drop_last() =~= front + seq!['/'] + shorter);
        assert(shorter.push(segment.last()) =~= segment);
    }
}

/// The texts of a list of strings stand in the order of the strings, one for
/// each.
pub proof fn law_texts_are_those_of_the_strings(strings: Seq<String>)
    ensures
        texts(strings).len() == strings.len(),
        forall|i: int| 0 <= i < strings.len() ==> #[trigger] texts(strings)[i] == strings[i]@,
{
}

} // verus!
