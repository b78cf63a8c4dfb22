//! Laws of the framing: where a header ends, which length it gives, and what one
//! step of decoding takes out.

use crate::codec::{
    blank_line_at, declared_length, frame, header_ends_at, lossy, repaired_text, Progress,
};
use crate::laws::texts::{
    is_digit, law_decimal_writes_the_number, law_first_line_with_prefix_is_found, law_lines_end_at_line_feeds, law_margins_are_trimmed,
    law_numbers_are_read,
};
use crate::text::{
    decimal, digits_value, is_white_space, line_with_prefix, lines, parse_number, trim,
};
use vstd::prelude::*;
use vstd::utf8::{
    decode_utf8, encode_utf8, encode_utf8_decode_utf8, encode_utf8_valid_utf8, valid_utf8,
};

verus! {

/// The line starts with the name of the length field.
pub open spec fn gives_length(line: Seq<char>) -> bool {
    line.len() >= 16 && line.take(16) == "Content-Length: "@
}

/// A carriage return and a line feed, twice, stand at this place.
pub open spec fn two_line_ends_at(bytes: Seq<u8>, place: int) -> bool {
    0 <= place && place + 4 <= bytes.len() && bytes.subrange(place, place + 4) == seq![
        13u8,
        10u8,
        13u8,
        10u8,
    ]
}

/// A frame is the length of the body in decimal, behind the name of the field
/// and before an empty line, and then the body as it stands.
pub proof fn law_frame_gives_the_length_of_its_body(body: Seq<u8>)
    ensures
        exists|digits: Seq<char>|
            {
                &&& digits.len() > 0
                &&& forall|i: int| 0 <= i < digits.len() ==> is_digit(#[trigger] digits[i])
                &&& digits[0] == '0' ==> digits.len() == 1
                &&& #[trigger] digits_value(digits) == body.len()
                &&& frame(body) == encode_utf8("Content-Length: "@ + digits + "\r\n\r\n"@) + body
            },
{
    let digits = decimal(body.len());
    law_decimal_writes_the_number(body.len());
    assert(digits_value(digits) == body.len());
    assert(frame(body) == encode_utf8("Content-Length: "@ + digits + "\r\n\r\n"@) + body);
}

/// A header ends where two line ends stand for the first time, and nowhere else.
pub proof fn law_header_ends_at_the_first_empty_line(bytes: Seq<u8>, place: int)
    ensures
        header_ends_at(bytes, place) <==> {
            &&& two_line_ends_at(bytes, place)
            &&& forall|earlier: int|
                0 <= earlier < place ==> !#[trigger] two_line_ends_at(bytes, earlier)
        },
{
    assert forall|at: int| blank_line_at(bytes, at) == #[trigger] two_line_ends_at(bytes, at) by {
        if 0 <= at && at + 4 <= bytes.len() {
            let four = bytes.subrange(at, at + 4);
            assert(four[0] == bytes[at] && four[1] == bytes[at + 1] && four[2] == bytes[at + 2]
                && four[3] == bytes[at + 3]);
            if blank_line_at(bytes, at) {
                assert(four =~= seq![13u8, 10u8, 13u8, 10u8]);
            }
            if two_line_ends_at(bytes, at) {
                assert(four[0] == 13 && four[1] == 10 && four[2] == 13 && four[3] == 10);
            }
        }
    }
    if header_ends_at(bytes, place) {
        assert(two_line_ends_at(bytes, place));
        assert forall|earlier: int| 0 <= earlier < place implies !#[trigger] two_line_ends_at(
            bytes,
            earlier,
        ) by {
            assert(!blank_line_at(bytes, earlier));
        }
    }
    if two_line_ends_at(bytes, place) && (forall|earlier: int|
        0 <= earlier < place ==> !#[trigger] two_line_ends_at(bytes, earlier)) {
        assert(blank_line_at(bytes, place));
        assert forall|earlier: int| 0 <= earlier < place implies !#[trigger] blank_line_at(
            bytes,
            earlier,
        ) by {
            assert(!two_line_ends_at(bytes, earlier));
        }
    }
}

/// The first line of a header that starts with the field gives the length: the
/// digits behind the name, with white space round them, read in decimal. No other
/// line plays a part, and without such a line there is no length.
pub proof fn law_first_length_field_counts(
    header: Seq<char>,
    at: int,
    left: Seq<char>,
    digits: Seq<char>,
    right: Seq<char>,
)
    requires
        forall|i: int| 0 <= i < left.len() ==> is_white_space(#[trigger] left[i]),
        forall|i: int| 0 <= i < right.len() ==> is_white_space(#[trigger] right[i]),
        digits.len() > 0,
        forall|i: int| 0 <= i < digits.len() ==> is_digit(#[trigger] digits[i]),
        0 <= at < lines(header).len(),
        lines(header)[at] == "Content-Length: "@ + (left + digits + right),
        forall|k: int| 0 <= k < at ==> !gives_length(#[trigger] lines(header)[k]),
    ensures
        digits_value(digits) <= usize::MAX ==> declared_length(header) == Some(
            digits_value(digits) as usize,
        ),
        digits_value(digits) > usize::MAX ==> declared_length(header) is None,
{
    law_first_length_field_decides(header, at, left + digits + right);
    assert(is_digit(digits[0]) && is_digit(digits[digits.len() - 1]));
    law_margins_are_trimmed(left, digits, right);
    law_numbers_are_read(digits);
}

/// The first line of a header that starts with the field decides, whatever
/// stands behind the name: where that is no number, there is no length.
pub proof fn law_first_length_field_decides(header: Seq<char>, at: int, value: Seq<char>)
    requires
        0 <= at < lines(header).len(),
        lines(header)[at] == "Content-Length: "@ + value,
        forall|k: int| 0 <= k < at ==> !gives_length(#[trigger] lines(header)[k]),
    ensures
        declared_length(header) == parse_number(trim(value)),
{
    let field = "Content-Length: "@;
    let all = lines(header);
    reveal_strlit("Content-Length: ");
    assert(field.len() == 16);
    assert((field + value).take(16) =~= field);
    assert((field + value).skip(16) =~= value);
    assert(gives_length(all[at]));
    law_first_line_with_prefix_is_found(all, field);
    match line_with_prefix(all, field) {
        Some(found) => {
            let i = choose|i: int|
                {
                    &&& 0 <= i < all.len()
                    &&& #[trigger] all[i] == found
                    &&& found.len() >= field.len()
                    &&& found.take(field.len() as int) == field
                    &&& forall|k: int|
                        0 <= k < i && all[k].len() >= field.len() ==> (#[trigger] all[k]).take(
                            field.len() as int,
                        ) != field
                };
            assert(gives_length(all[i]));
            assert(i == at) by {
                if i > at {
                    assert(all[at].take(16) == field);
                }
            }
        },
        None => {},
    }
}

/// Without a line that starts with the field there is no length.
pub proof fn law_no_length_without_a_field(header: Seq<char>)
    ensures
        (forall|k: int| 0 <= k < lines(header).len() ==> !gives_length(#[trigger] lines(header)[k]))
            ==> declared_length(header) is None,
{
    let field = "Content-Length: "@;
    reveal_strlit("Content-Length: ");
    assert(field.len() == 16);
    law_first_line_with_prefix_is_found(lines(header), field);
    if line_with_prefix(lines(header), field) is Some {
        let i = choose|i: int|
            0 <= i < lines(header).len() && gives_length(#[trigger] lines(header)[i]);
        assert(gives_length(lines(header)[i]));
    }
}

/// The header that is written gives the length that was written, read in
/// decimal, and it does so among any other fields.
pub proof fn law_written_length_is_declared(length: usize, other: Seq<char>)
    requires
        forall|i: int| 0 <= i < other.len() ==> #[trigger] other[i] != '\n',
        !gives_length(other),
    ensures
        declared_length("Content-Length: "@ + decimal(length as nat)) == Some(length),
        declared_length(other + "\r\n"@ + "Content-Length: "@ + decimal(length as nat)) == Some(
            length,
        ),
{
    let field = "Content-Length: "@;
    let digits = decimal(length as nat);
    let none = Seq::<char>::empty();
    let text = field + digits;
    reveal_strlit("Content-Length: ");
    reveal_strlit("\r\n");
    assert(field.len() == 16);
    law_decimal_writes_the_number(length as nat);
    assert forall|i: int| 0 <= i < text.len() implies #[trigger] text[i] != '\n' by {
        if i >= 16 {
            assert(is_digit(digits[i - 16]));
        } else {
            assert(text[i] == field[i]);
        }
    }
    law_lines_end_at_line_feeds(text, none);
    assert(none + digits + none =~= digits);
    law_first_length_field_counts(text, 0, none, digits, none);
    let both = other + "\r\n"@ + field + digits;
    assert("\r\n"@ =~= seq!['\r', '\n']);
    assert(both =~= other + seq!['\r', '\n'] + text);
    law_lines_end_at_line_feeds(other, text);
    assert(lines(both) =~= seq![other, text]);
    law_first_length_field_counts(both, 1, none, digits, none);
}

/// A text that has been encoded is the text of its bytes; bytes that are no
/// UTF-8 are repaired.
pub proof fn law_text_of_bytes(text: Seq<char>, bytes: Seq<u8>)
    ensures
        lossy(encode_utf8(text)) == text,
        valid_utf8(bytes) ==> lossy(bytes) == decode_utf8(bytes),
        !valid_utf8(bytes) ==> lossy(bytes) == repaired_text(bytes),
{
    encode_utf8_valid_utf8(text);
    encode_utf8_decode_utf8(text);
}

/// A header ends in one place.
proof fn lemma_one_end(bytes: Seq<u8>, place: int)
    requires
        header_ends_at(bytes, place),
    ensures
        (choose|p: int| header_ends_at(bytes, p)) == place,
{
    let found = choose|p: int| header_ends_at(bytes, p);
    assert(header_ends_at(bytes, found));
    if found < place {
        assert(!blank_line_at(bytes, found));
    }
    if place < found {
        assert(!blank_line_at(bytes, place));
    }
}

/// One step of decoding, from a fresh start: once the header is complete and
/// gives a length, that many bytes behind it are taken out as soon as they are
/// there; what follows them stays. Of a body that is not yet complete the length
/// is kept, and of a header that gives no length nothing is touched.
pub proof fn law_body_is_taken_by_its_length(
    head: Seq<u8>,
    length: usize,
    body: Seq<u8>,
    rest: Seq<u8>,
)
    requires
        header_ends_at(head + seq![13u8, 10u8, 13u8, 10u8] + body + rest, head.len() as int),
    ensures
        ({
            let bytes = head + seq![13u8, 10u8, 13u8, 10u8] + body + rest;
            let start = Progress { content_length: None, bytes };
            &&& declared_length(lossy(head)) == Some(length) && body.len() == length ==> {
                &&& start.output() == Some(lossy(body))
                &&& start.next() == Progress { content_length: None, bytes: rest }
            }
            &&& declared_length(lossy(head)) == Some(length) && body.len() + rest.len() < length
                ==> {
                &&& start.output() is None
                &&& start.next() == Progress { content_length: Some(length), bytes: body + rest }
            }
            &&& declared_length(lossy(head)) is None ==> {
                &&& start.output() is None
                &&& start.next() == start
            }
        }),
{
    let bytes = head + seq![13u8, 10u8, 13u8, 10u8] + body + rest;
    let start = Progress { content_length: None, bytes };
    lemma_one_end(bytes, head.len() as int);
    assert(bytes.take(head.len() as int) =~= head);
    assert(bytes.skip(head.len() as int + 4) =~= body + rest);
    assert((body + rest).take(body.len() as int) =~= body);
    assert((body + rest).skip(body.len() as int) =~= rest);
}

/// One step of decoding, once the length is known: the body is taken out as soon
/// as it is there, and until then nothing is touched. Without the end of a header
/// nothing is touched either.
pub proof fn law_step_waits_for_what_is_missing(length: usize, body: Seq<u8>, rest: Seq<u8>)
    ensures
        body.len() == length ==> {
            let start = Progress { content_length: Some(length), bytes: body + rest };
            &&& start.output() == Some(lossy(body))
            &&& start.next() == Progress { content_length: None, bytes: rest }
        },
        body.len() < length ==> {
            let start = Progress { content_length: Some(length), bytes: body };
            &&& start.output() is None
            &&& start.next() == start
        },
        (forall|place: int| !#[trigger] header_ends_at(body, place)) ==> {
            let start = Progress { content_length: None, bytes: body };
            &&& start.output() is None
            &&& start.next() == start
        },
{
    assert((body + rest).take(body.len() as int) =~= body);
    assert((body + rest).skip(body.len() as int) =~= rest);
}

} // verus!
