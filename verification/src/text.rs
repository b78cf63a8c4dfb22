//! Texts as sequences of characters: lines, margins, decimal numbers and the
//! segments of a path.

use vstd::prelude::*;
use vstd::string::{StrSliceExecFns, StringExecFns};

verus! {

/// The texts of a list of strings.
pub open spec fn texts(strings: Seq<String>) -> Seq<Seq<char>> {
    strings.map_values(|string: String| string@)
}

/// How many characters stand before the first `stop`: all of them where there
/// is none.
pub open spec fn run_length(text: Seq<char>, stop: char) -> nat
    decreases text.len(),
{
    if text.len() == 0 || text[0] == stop {
        0
    } else {
        1 + run_length(text.skip(1), stop)
    }
}

/// A line without the carriage return at its end.
pub open spec fn without_return(line: Seq<char>) -> Seq<char> {
    if line.len() > 0 && line.last() == '\r' {
        line.drop_last()
    } else {
        line
    }
}

/// The lines of a text. A line ends with a line feed, or with a carriage return
/// and a line feed, and these are no part of it; the last line needs no end.
pub open spec fn lines(text: Seq<char>) -> Seq<Seq<char>>
    decreases text.len(),
{
    if text.len() == 0 {
        Seq::empty()
    } else {
        let end = run_length(text, '\n');
        if end >= text.len() {
            seq![text]
        } else {
            seq![without_return(text.take(end as int))] + lines(text.skip(end as int + 1))
        }
    }
}

/// The first line that starts with `prefix`.
pub open spec fn line_with_prefix(lines: Seq<Seq<char>>, prefix: Seq<char>) -> Option<Seq<char>>
    decreases lines.len(),
{
    if lines.len() == 0 {
        None
    } else if prefix.is_prefix_of(lines[0]) {
        Some(lines[0])
    } else {
        line_with_prefix(lines.skip(1), prefix)
    }
}

/// The characters that Unicode counts as white space.
pub open spec fn is_white_space(c: char) -> bool {
    ||| '\u{9}' <= c <= '\u{d}'
    ||| c == ' '
    ||| c == '\u{85}'
    ||| c == '\u{a0}'
    ||| c == '\u{1680}'
    ||| '\u{2000}' <= c <= '\u{200a}'
    ||| c == '\u{2028}'
    ||| c == '\u{2029}'
    ||| c == '\u{202f}'
    ||| c == '\u{205f}'
    ||| c == '\u{3000}'
}

/// A text without the white space at its start.
pub open spec fn trim_start(text: Seq<char>) -> Seq<char>
    decreases text.len(),
{
    if text.len() > 0 && is_white_space(text[0]) {
        trim_start(text.skip(1))
    } else {
        text
    }
}

/// A text without the white space at its end.
pub open spec fn trim_end(text: Seq<char>) -> Seq<char>
    decreases text.len(),
{
    if text.len() > 0 && is_white_space(text.last()) {
        trim_end(text.drop_last())
    } else {
        text
    }
}

/// A text without the white space at its start and at its end.
pub open spec fn trim(text: Seq<char>) -> Seq<char> {
    trim_end(trim_start(text))
}

/// The digits are decimal.
pub open spec fn all_digits(text: Seq<char>) -> bool {
    forall|i: int| 0 <= i < text.len() ==> '0' <= #[trigger] text[i] <= '9'
}

/// The number that decimal digits write.
pub open spec fn digits_value(text: Seq<char>) -> nat
    decreases text.len(),
{
    if text.len() == 0 {
        0
    } else {
        digits_value(text.drop_last()) * 10 + (text.last() as nat - '0' as nat) as nat
    }
}

/// A text without a plus sign at its start.
pub open spec fn without_plus(text: Seq<char>) -> Seq<char> {
    if text.len() > 0 && text[0] == '+' {
        text.skip(1)
    } else {
        text
    }
}

/// The number that a text writes: decimal digits, with or without a plus sign
/// before them, for a number that fits `usize`.
pub open spec fn parse_number(text: Seq<char>) -> Option<usize> {
    let digits = without_plus(text);
    if digits.len() > 0 && all_digits(digits) && digits_value(digits) <= usize::MAX {
        Some(digits_value(digits) as usize)
    } else {
        None
    }
}

/// A decimal digit.
pub open spec fn digit(value: nat) -> char {
    ('0' as nat + value) as char
}

/// A number in decimal, without leading zeros.
pub open spec fn decimal(number: nat) -> Seq<char>
    decreases number,
{
    if number < 10 {
        seq![digit(number)]
    } else {
        decimal(number / 10).push(digit(number % 10))
    }
}

/// What stands behind the last `/`: the whole text where there is none.
pub open spec fn last_segment(text: Seq<char>) -> Seq<char>
    decreases text.len(),
{
    if text.len() == 0 || text.last() == '/' {
        Seq::empty()
    } else {
        last_segment(text.drop_last()).push(text.last())
    }
}

/// The characters of a text, one by one.
pub(crate) fn chars_of(text: &str) -> (chars: Vec<char>)
    ensures
        chars@ == text@,
{
    let mut chars: Vec<char> = Vec::new();
    for c in it: text.chars()
        invariant
            it.seq() == text@,
            chars@ == text@.take(it.index() as int),
    {
        chars.push(c);
    }
    chars
}

/// The place of the first `stop` at or after `from`.
fn find_char(chars: &Vec<char>, from: usize, stop: char) -> (place: usize)
    requires
        from <= chars.len(),
    ensures
        place == from + run_length(chars@.skip(from as int), stop),
        place <= chars.len(),
        place < chars.len() ==> chars@[place as int] == stop,
{
    let mut place: usize = from;
    while place < chars.len() && chars[place] != stop
        invariant
            from <= place <= chars.len(),
            from + run_length(chars@.skip(from as int), stop) == place + run_length(
                chars@.skip(place as int),
                stop,
            ),
        decreases chars.len() - place,
    {
        assert(chars@.skip(place as int).skip(1) =~= chars@.skip(place + 1));
        place = place + 1;
    }
    place
}

/// Whether `chars` holds `prefix` from `from` on, before `to`.
fn has_prefix(chars: &Vec<char>, from: usize, to: usize, prefix: &Vec<char>) -> (found: bool)
    requires
        from <= to <= chars.len(),
    ensures
        found == prefix@.is_prefix_of(chars@.subrange(from as int, to as int)),
{
    if to - from < prefix.len() {
        return false;
    }
    let mut i: usize = 0;
    while i < prefix.len()
        invariant
            i <= prefix.len() <= to - from,
            from <= to <= chars.len(),
            forall|k: int| 0 <= k < i ==> prefix@[k] == chars@[from + k],
        decreases prefix.len() - i,
    {
        if chars[from + i] != prefix[i] {
            assert(chars@.subrange(from as int, to as int)[i as int] == chars@[from + i]);
            return false;
        }
        i = i + 1;
    }
    assert(prefix@ =~= chars@.subrange(from as int, to as int).take(prefix@.len() as int));
    true
}

/// Whether Unicode counts a character as white space.
fn white_space(c: char) -> (yes: bool)
    ensures
        yes == is_white_space(c),
{
    ('\u{9}' <= c && c <= '\u{d}') || c == ' ' || c == '\u{85}' || c == '\u{a0}' || c
        == '\u{1680}' || ('\u{2000}' <= c && c <= '\u{200a}') || c == '\u{2028}' || c == '\u{2029}'
        || c == '\u{202f}' || c == '\u{205f}' || c == '\u{3000}'
}

/// The part of `chars` between `from` and `to` that is left when the white
/// space at both ends is taken away.
fn trimmed(chars: &Vec<char>, from: usize, to: usize) -> (range: (usize, usize))
    requires
        from <= to <= chars.len(),
    ensures
        from <= range.0 <= range.1 <= to,
        chars@.subrange(range.0 as int, range.1 as int) == trim(
            chars@.subrange(from as int, to as int),
        ),
{
    let mut start: usize = from;
    while start < to && white_space(chars[start])
        invariant
            from <= start <= to <= chars.len(),
            trim_start(chars@.subrange(from as int, to as int)) == trim_start(
                chars@.subrange(start as int, to as int),
            ),
        decreases to - start,
    {
        assert(chars@.subrange(start as int, to as int).skip(1) =~= chars@.subrange(
            start + 1,
            to as int,
        ));
        start = start + 1;
    }
    let mut end: usize = to;
    while start < end && white_space(chars[end - 1])
        invariant
            from <= start <= end <= to <= chars.len(),
            trim_end(chars@.subrange(start as int, to as int)) == trim_end(
                chars@.subrange(start as int, end as int),
            ),
        decreases end - start,
    {
        assert(chars@.subrange(start as int, end as int).drop_last() =~= chars@.subrange(
            start as int,
            end - 1,
        ));
        end = end - 1;
    }
    (start, end)
}

/// More digits write no smaller a number.
proof fn lemma_digits_value_grows(text: Seq<char>, shorter: int)
    requires
        0 <= shorter <= text.len(),
    ensures
        digits_value(text.take(shorter)) <= digits_value(text),
    decreases text.len(),
{
    if shorter < text.len() {
        lemma_digits_value_grows(text.drop_last(), shorter);
        assert(text.drop_last().take(shorter) =~= text.take(shorter));
    } else {
        assert(text.take(shorter) =~= text);
    }
}

/// The number that the characters between `from` and `to` write.
fn number_at(chars: &Vec<char>, from: usize, to: usize) -> (number: Option<usize>)
    requires
        from <= to <= chars.len(),
    ensures
        number == parse_number(chars@.subrange(from as int, to as int)),
{
    let ghost text = chars@.subrange(from as int, to as int);
    let mut start: usize = from;
    if from < to && chars[from] == '+' {
        start = from + 1;
    }
    let ghost digits = without_plus(text);
    assert(digits =~= chars@.subrange(start as int, to as int));
    if start == to {
        return None;
    }
    let mut value: usize = 0;
    let mut i: usize = start;
    while i < to
        invariant
            from <= start <= i <= to <= chars.len(),
            digits == without_plus(text),
            digits == chars@.subrange(start as int, to as int),
            text == chars@.subrange(from as int, to as int),
            value == digits_value(digits.take(i - start)),
            all_digits(digits.take(i - start)),
        decreases to - i,
    {
        let c: char = chars[i];
        assert(digits[i - start] == c);
        if !('0' <= c && c <= '9') {
            return None;
        }
        let unit: usize = (c as u32 - '0' as u32) as usize;
        proof {
            let longer = digits.take(i - start + 1);
            assert(longer.drop_last() =~= digits.take(i - start));
            assert(longer.last() == c);
            assert(digits_value(longer) == value * 10 + unit);
            assert(all_digits(longer)) by {
                assert forall|k: int| 0 <= k < longer.len() implies '0' <= #[trigger] longer[k]
                    <= '9' by {
                    if k < i - start {
                        assert(longer[k] == digits.take(i - start)[k]);
                    }
                }
            }
            lemma_digits_value_grows(digits, i - start + 1);
        }
        if value > usize::MAX / 10 || value * 10 > usize::MAX - unit {
            return None;
        }
        value = value * 10 + unit;
        i = i + 1;
    }
    assert(digits.take(to - start) =~= digits);
    Some(value)
}

/// The number behind `prefix` in the first line of `text` that starts with it.
pub(crate) fn number_behind(text: &str, prefix: &str) -> (number: Option<usize>)
    ensures
        number == match line_with_prefix(lines(text@), prefix@) {
            Some(line) => parse_number(trim(line.skip(prefix@.len() as int))),
            None => None,
        },
{
    let chars = chars_of(text);
    let wanted = chars_of(prefix);
    let mut start: usize = 0;
    assert(chars@.skip(0) =~= chars@);
    while start < chars.len()
        invariant
            start <= chars.len(),
            chars@ == text@,
            wanted@ == prefix@,
            line_with_prefix(lines(text@), prefix@) == line_with_prefix(
                lines(chars@.skip(start as int)),
                prefix@,
            ),
        decreases chars.len() - start,
    {
        let ghost rest = chars@.skip(start as int);
        let end = find_char(&chars, start, '\n');
        let mut line_end: usize = end;
        if end < chars.len() && end > start && chars[end - 1] == '\r' {
            line_end = end - 1;
        }
        let ghost line = chars@.subrange(start as int, line_end as int);
        proof {
            if end < chars.len() {
                assert(rest.take(end - start) =~= chars@.subrange(start as int, end as int));
                assert(line =~= without_return(rest.take(end - start)));
                assert(rest.skip(end - start + 1) =~= chars@.skip(end + 1));
                assert(lines(rest) == seq![line] + lines(chars@.skip(end + 1)));
                assert(lines(rest).skip(1) =~= lines(chars@.skip(end + 1)));
            } else {
                assert(line =~= rest);
                assert(lines(rest) == seq![line]);
                assert(lines(rest).skip(1) =~= Seq::empty());
            }
            assert(lines(rest)[0] == line);
        }
        if has_prefix(&chars, start, line_end, &wanted) {
            let (from, to) = trimmed(&chars, start + wanted.len(), line_end);
            assert(line.skip(prefix@.len() as int) =~= chars@.subrange(
                start + wanted.len(),
                line_end as int,
            ));
            return number_at(&chars, from, to);
        }
        if end >= chars.len() {
            assert(line_with_prefix(lines(rest).skip(1), prefix@) is None);
            return None;
        }
        start = end + 1;
    }
    assert(chars@.skip(start as int) =~= Seq::empty());
    None
}

/// A decimal digit as a text.
fn digit_text(value: usize) -> (text: &'static str)
    requires
        value < 10,
    ensures
        text@ == seq![digit(value as nat)],
{
    proof {
        reveal_strlit("0");
        reveal_strlit("1");
        reveal_strlit("2");
        reveal_strlit("3");
        reveal_strlit("4");
        reveal_strlit("5");
        reveal_strlit("6");
        reveal_strlit("7");
        reveal_strlit("8");
        reveal_strlit("9");
    }
    match value {
        0 => "0",
        1 => "1",
        2 => "2",
        3 => "3",
        4 => "4",
        5 => "5",
        6 => "6",
        7 => "7",
        8 => "8",
        _ => "9",
    }
}

/// A number in decimal.
pub(crate) fn decimal_text(number: usize) -> (text: String)
    ensures
        text@ == decimal(number as nat),
    decreases number,
{
    if number < 10 {
        digit_text(number).to_owned()
    } else {
        let mut text = decimal_text(number / 10);
        text.append(digit_text(number % 10));
        text
    }
}

/// What stands behind the last `/` of a text.
pub(crate) fn last_segment_of(text: &str) -> (segment: String)
    ensures
        segment@ == last_segment(text@),
{
    let length = text.unicode_len();
    let mut start: usize = length;
    assert(text@.take(length as int) =~= text@);
    while start > 0 && text.get_char(start - 1) != '/'
        invariant
            start <= length == text@.len(),
            last_segment(text@) == last_segment(text@.take(start as int)) + text@.skip(
                start as int,
            ),
        decreases start,
    {
        assert(text@.take(start as int).drop_last() =~= text@.take(start - 1));
        assert(last_segment(text@.take(start - 1)).push(text@[start - 1]) + text@.skip(start as int)
            =~= last_segment(text@.take(start - 1)) + text@.skip(start - 1));
        start = start - 1;
    }
    text.substring_char(start, length).to_owned()
}

} // verus!
