//! The framing of the base protocol: a header that gives the length of the
//! body, an empty line, and the body, which is a JSON text.

use crate::json::{json_of, json_parse, json_text, parse_json, print_json, Json, MAX_DEPTH};
use crate::text::{
    all_digits, decimal, decimal_text, digit, digits_value, is_white_space, line_with_prefix, lines,
    number_behind, parse_number, run_length, trim, without_plus,
};
use bytes::BytesMut;
use serde_json::Value;
use vstd::prelude::*;
use vstd::string::StringExecFns;
use vstd::utf8::{
    decode_utf8, encode_utf8, encode_utf8_decode_utf8, encode_utf8_valid_utf8,
    is_ascii_chars_encode_utf8, valid_utf8,
};

verus! {

/// The byte buffer of the `bytes` crate.
#[verifier::external_type_specification]
#[verifier::external_body]
pub struct ExBytesMut(bytes::BytesMut);

/// The bytes that a buffer holds.
pub uninterp spec fn bytes_of(buffer: bytes::BytesMut) -> Seq<u8>;

/// What `String::from_utf8_lossy` makes of bytes that are not UTF-8.
pub uninterp spec fn repaired_text(bytes: Seq<u8>) -> Seq<char>;

/// `<BytesMut as Deref>::deref`: the bytes in the buffer.
#[verifier::external_body]
fn buffer_bytes(buffer: &BytesMut) -> (bytes: &[u8])
    ensures
        bytes@ == bytes_of(*buffer),
{
    buffer
}

/// `<BytesMut as Buf>::advance`: drops bytes from the front. It panics where
/// there are fewer.
#[verifier::external_body]
fn drop_front(buffer: &mut BytesMut, count: usize)
    requires
        count <= bytes_of(*old(buffer)).len(),
    ensures
        bytes_of(*final(buffer)) == bytes_of(*old(buffer)).skip(count as int),
{
    bytes::Buf::advance(buffer, count)
}

/// `BytesMut::extend_from_slice`: adds bytes at the end.
#[verifier::external_body]
fn add_back(buffer: &mut BytesMut, bytes: &[u8])
    ensures
        bytes_of(*final(buffer)) == bytes_of(*old(buffer)) + bytes@,
{
    buffer.extend_from_slice(bytes)
}

/// `String::from_utf8_lossy`: the text that the bytes encode; where they are
/// not UTF-8, replacement characters stand for what is wrong in them.
#[verifier::external_body]
fn text_lossy(bytes: &[u8]) -> (text: String)
    ensures
        text@ == (if valid_utf8(bytes@) {
            decode_utf8(bytes@)
        } else {
            repaired_text(bytes@)
        }),
{
    String::from_utf8_lossy(bytes).into_owned()
}

/// The text of bytes that should be UTF-8.
pub open spec fn lossy(bytes: Seq<u8>) -> Seq<char> {
    if valid_utf8(bytes) {
        decode_utf8(bytes)
    } else {
        repaired_text(bytes)
    }
}

/// The name of the header field that gives the length of the body.
pub open spec fn length_field() -> Seq<char> {
    "Content-Length: "@
}

/// The header of a body of this many bytes, with the empty line behind it.
pub open spec fn header(length: nat) -> Seq<char> {
    length_field() + decimal(length) + "\r\n\r\n"@
}

/// A body with its header.
pub open spec fn frame(body: Seq<u8>) -> Seq<u8> {
    encode_utf8(header(body.len())) + body
}

/// A line end and an empty line stand at this place.
pub open spec fn blank_line_at(bytes: Seq<u8>, place: int) -> bool {
    &&& 0 <= place
    &&& place + 4 <= bytes.len()
    &&& bytes[place] == 13
    &&& bytes[place + 1] == 10
    &&& bytes[place + 2] == 13
    &&& bytes[place + 3] == 10
}

/// The header ends at this place: the first blank line stands there.
pub open spec fn header_ends_at(bytes: Seq<u8>, place: int) -> bool {
    &&& blank_line_at(bytes, place)
    &&& forall|earlier: int| 0 <= earlier < place ==> !#[trigger] blank_line_at(bytes, earlier)
}

/// The length of the body that a header gives.
pub open spec fn declared_length(header: Seq<char>) -> Option<usize> {
    match line_with_prefix(lines(header), length_field()) {
        Some(line) => parse_number(trim(line.skip(length_field().len() as int))),
        None => None,
    }
}

/// Where a decoder stands: the length of the body that comes next, once its
/// header has been read, and the bytes that have not been used.
pub struct Progress {
    pub content_length: Option<usize>,
    pub bytes: Seq<u8>,
}

impl Progress {
    /// With the header read and dropped, where it is complete and gives a
    /// length; as it was otherwise.
    pub open spec fn after_header(self) -> Progress {
        if self.content_length is None && exists|place: int| header_ends_at(self.bytes, place) {
            let place = choose|place: int| header_ends_at(self.bytes, place);
            match declared_length(lossy(self.bytes.take(place))) {
                Some(length) => Progress {
                    content_length: Some(length),
                    bytes: self.bytes.skip(place + 4),
                },
                None => self,
            }
        } else {
            self
        }
    }

    /// The body is there.
    pub open spec fn has_body(self) -> bool {
        self.content_length matches Some(length) && self.bytes.len() >= length
    }

    /// The text of the body.
    pub open spec fn body(self) -> Seq<char> {
        lossy(self.bytes.take(self.content_length->0 as int))
    }

    /// With the body dropped.
    pub open spec fn after_body(self) -> Progress {
        Progress { content_length: None, bytes: self.bytes.skip(self.content_length->0 as int) }
    }

    /// What one step of decoding leaves.
    pub open spec fn next(self) -> Progress {
        if self.after_header().has_body() {
            self.after_header().after_body()
        } else {
            self.after_header()
        }
    }

    /// The text of the body that one step of decoding takes out, where it is
    /// complete.
    pub open spec fn output(self) -> Option<Seq<char>> {
        if self.after_header().has_body() {
            Some(self.after_header().body())
        } else {
            None
        }
    }

    /// With more bytes at the end.
    pub open spec fn with(self, more: Seq<u8>) -> Progress {
        Progress { content_length: self.content_length, bytes: self.bytes + more }
    }
}

/// A body that is not JSON.
#[derive(Debug)]
pub struct InvalidBody(pub serde_json::Error);

/// Reads and writes framed JSON values.
pub struct LspCodec {
    content_length: Option<usize>,
}

impl View for LspCodec {
    type V = Option<usize>;

    closed spec fn view(&self) -> Option<usize> {
        self.content_length
    }
}

impl Default for LspCodec {
    fn default() -> (codec: LspCodec)
        ensures
            codec@ is None,
    {
        LspCodec { content_length: None }
    }
}

/// A header ends at one place only.
proof fn lemma_header_end_is_unique(bytes: Seq<u8>, one: int, other: int)
    requires
        header_ends_at(bytes, one),
        header_ends_at(bytes, other),
    ensures
        one == other,
{
}

/// The place where the header ends, where it is complete.
fn find_header_end(bytes: &[u8]) -> (place: Option<usize>)
    ensures
        match place {
            Some(place) => header_ends_at(bytes@, place as int),
            None => forall|place: int| !header_ends_at(bytes@, place),
        },
{
    let mut place: usize = 0;
    while place < bytes.len() && bytes.len() - place >= 4
        invariant
            place <= bytes@.len(),
            forall|earlier: int| 0 <= earlier < place ==> !#[trigger] blank_line_at(bytes@, earlier),
        decreases bytes@.len() - place,
    {
        if bytes[place] == 13 && bytes[place + 1] == 10 && bytes[place + 2] == 13 && bytes[place
            + 3] == 10 {
            return Some(place);
        }
        assert(!blank_line_at(bytes@, place as int));
        place = place + 1;
    }
    None
}

impl LspCodec {
    /// Takes the next value out of the bytes that have arrived, where it is
    /// complete. The bytes of a value that is no JSON are dropped with it.
    pub fn decode(&mut self, src: &mut BytesMut) -> (result: Result<Option<Value>, InvalidBody>)
        ensures
            ({
                let before = Progress { content_length: old(self)@, bytes: bytes_of(*old(src)) };
                let after = Progress { content_length: final(self)@, bytes: bytes_of(*final(src)) };
                &&& after == before.next()
                &&& match before.output() {
                    None => result matches Ok(None),
                    Some(body) => match json_parse(body) {
                        Some(json) => result is Ok && result->Ok_0 is Some && json_of(
                            result->Ok_0->0,
                        ) == json,
                        None => result is Err,
                    },
                }
                &&& forall|json: Json|
                    before.output() == Some(#[trigger] json_text(json)) && json.reproducible(
                        MAX_DEPTH as nat,
                    ) ==> result is Ok && result->Ok_0 is Some && json_of(result->Ok_0->0) == json
            }),
            // What `encode` has written is read back.
            forall|json: Json, rest: Seq<u8>|
                old(self)@ is None && bytes_of(*old(src)) == #[trigger] (frame(
                    encode_utf8(json_text(json)),
                ) + rest) && json.reproducible(MAX_DEPTH as nat) ==> {
                    &&& result is Ok
                    &&& result->Ok_0 is Some
                    &&& json_of(result->Ok_0->0) == json
                    &&& bytes_of(*final(src)) == rest
                },
    {
        let ghost before = Progress { content_length: self@, bytes: bytes_of(*src) };
        let total: usize = buffer_bytes(src).len();
        proof {
            assert forall|json: Json, rest: Seq<u8>|
                before.content_length is None && before.bytes == #[trigger] (frame(
                    encode_utf8(json_text(json)),
                ) + rest) implies before.output() == Some(json_text(json)) && before.next().bytes
                == rest by {
                law_frame_is_read_back(json_text(json), rest);
            }
        }
        if self.content_length.is_none() {
            let place = find_header_end(buffer_bytes(src));
            match place {
                Some(place) => {
                    proof {
                        let found = choose|place: int| header_ends_at(before.bytes, place);
                        lemma_header_end_is_unique(before.bytes, place as int, found);
                    }
                    let bytes = buffer_bytes(src);
                    assert(place + 4 <= total);
                    let text = text_lossy(&bytes[0..place]);
                    assert(before.bytes.subrange(0, place as int) =~= before.bytes.take(
                        place as int,
                    ));
                    match number_behind(text.as_str(), "Content-Length: ") {
                        Some(length) => {
                            self.content_length = Some(length);
                            drop_front(src, place + 4);
                        },
                        None => {},
                    }
                },
                None => {
                    return Ok(None);
                },
            }
        }
        let ghost middle = before.after_header();
        assert(middle == Progress { content_length: self@, bytes: bytes_of(*src) });
        match self.content_length {
            Some(length) => {
                let bytes = buffer_bytes(src);
                if bytes.len() >= length {
                    let text = text_lossy(&bytes[0..length]);
                    assert(middle.bytes.subrange(0, length as int) =~= middle.bytes.take(
                        length as int,
                    ));
                    drop_front(src, length);
                    self.content_length = None;
                    match parse_json(text.as_str()) {
                        Ok(value) => Ok(Some(value)),
                        Err(error) => Err(InvalidBody(error)),
                    }
                } else {
                    Ok(None)
                }
            },
            None => Ok(None),
        }
    }

    /// Adds a value, framed, to the bytes that are to be sent.
    pub fn encode(&mut self, item: Value, dst: &mut BytesMut) -> (result: Result<(), InvalidBody>)
        ensures
            result is Ok,
            final(self)@ == old(self)@,
            bytes_of(*final(dst)) == bytes_of(*old(dst)) + frame(
                encode_utf8(json_text(json_of(item))),
            ),
    {
        let body = match print_json(&item) {
            Ok(text) => text,
            Err(error) => {
                return Err(InvalidBody(error));
            },
        };
        let bytes = body.as_str().as_bytes();
        let mut headers = "Content-Length: ".to_owned();
        headers.append(decimal_text(bytes.len()).as_str());
        headers.append("\r\n\r\n");
        add_back(dst, headers.as_str().as_bytes());
        add_back(dst, bytes);
        assert(bytes_of(*dst) =~= bytes_of(*old(dst)) + frame(bytes@));
        Ok(())
    }
}

/// A decimal number is made of digits, and they write that number.
proof fn lemma_decimal(number: nat)
    ensures
        decimal(number).len() > 0,
        all_digits(decimal(number)),
        digits_value(decimal(number)) == number,
    decreases number,
{
    if number < 10 {
        assert(decimal(number).drop_last() =~= Seq::empty());
        assert(digits_value(decimal(number).drop_last()) == 0);
        assert(decimal(number).last() == digit(number));
    } else {
        lemma_decimal(number / 10);
        let shorter = decimal(number / 10);
        assert(decimal(number).drop_last() =~= shorter);
        assert(decimal(number).last() == digit(number % 10));
        assert forall|i: int| 0 <= i < decimal(number).len() implies '0' <= #[trigger] decimal(
            number,
        )[i] <= '9' by {
            if i < shorter.len() {
                assert(decimal(number)[i] == shorter[i]);
            }
        }
    }
}

/// There is no such character, and so the run goes to the end.
proof fn lemma_run_to_end(text: Seq<char>, stop: char)
    requires
        !text.contains(stop),
    ensures
        run_length(text, stop) == text.len(),
    decreases text.len(),
{
    if text.len() > 0 {
        assert(text.contains(text[0]));
        assert forall|c: char| text.skip(1).contains(c) implies text.contains(c) by {
            let i = choose|i: int| 0 <= i < text.skip(1).len() && text.skip(1)[i] == c;
            assert(text[i + 1] == c);
        }
        lemma_run_to_end(text.skip(1), stop);
    }
}

/// The header of a body gives the body's length.
proof fn lemma_declared_length(length: nat)
    requires
        length <= usize::MAX,
    ensures
        declared_length(length_field() + decimal(length)) == Some(length as usize),
{
    let digits = decimal(length);
    let text = length_field() + digits;
    lemma_decimal(length);
    reveal_strlit("Content-Length: ");
    assert(length_field().len() == 16);
    assert(!text.contains('\n')) by {
        if text.contains('\n') {
            let i = choose|i: int| 0 <= i < text.len() && text[i] == '\n';
            if i >= 16 {
                assert(digits[i - 16] == '\n');
            } else {
                assert(length_field()[i] == '\n');
            }
        }
    }
    lemma_run_to_end(text, '\n');
    assert(lines(text) == seq![text]);
    assert(length_field() =~= text.take(16));
    assert(length_field().is_prefix_of(text));
    assert(line_with_prefix(lines(text), length_field()) == Some(text));
    assert(text.skip(16) =~= digits);
    assert(!is_white_space(digits[0]) && !is_white_space(digits.last()));
    assert(trim(digits) == digits);
    assert(without_plus(digits) == digits);
}

/// The header of a body, as bytes: one for each character, with the first blank
/// line at its end, whatever follows.
proof fn lemma_header_bytes(length: nat, rest: Seq<u8>)
    ensures
        ({
            let field = length_field() + decimal(length);
            let bytes = encode_utf8(header(length));
            &&& bytes.len() == field.len() + 4
            &&& header_ends_at(bytes + rest, field.len() as int)
            &&& bytes.take(field.len() as int) == encode_utf8(field)
        }),
{
    let field = length_field() + decimal(length);
    let full = header(length);
    let bytes = encode_utf8(full);
    lemma_decimal(length);
    reveal_strlit("Content-Length: ");
    reveal_strlit("\r\n\r\n");
    assert(length_field().len() == 16);
    assert("\r\n\r\n"@.len() == 4);
    assert forall|i: int| 0 <= i < field.len() implies '\u{20}' <= #[trigger] field[i]
        <= '\u{7f}' by {
        if i >= 16 {
            assert(field[i] == decimal(length)[i - 16]);
        } else {
            assert(field[i] == length_field()[i]);
        }
    }
    assert forall|i: int| 0 <= i < full.len() implies '\0' <= #[trigger] full[i] <= '\u{7f}' by {
        if i < field.len() {
            assert(full[i] == field[i]);
        } else {
            assert(full[i] == "\r\n\r\n"@[i - field.len()]);
        }
    }
    is_ascii_chars_encode_utf8(full);
    is_ascii_chars_encode_utf8(field);
    assert forall|i: int| 0 <= i < field.len() implies bytes[i] == #[trigger] encode_utf8(
        field,
    )[i] by {
        assert(full[i] == field[i]);
    }
    assert(bytes.take(field.len() as int) =~= encode_utf8(field));
    let place = field.len() as int;
    let all = bytes + rest;
    assert(full[place] == '\r' && full[place + 1] == '\n' && full[place + 2] == '\r' && full[place
        + 3] == '\n');
    assert(bytes[place] == 13 && bytes[place + 1] == 10 && bytes[place + 2] == 13 && bytes[place
        + 3] == 10);
    assert(blank_line_at(all, place));
    assert forall|earlier: int| 0 <= earlier < place implies !#[trigger] blank_line_at(
        all,
        earlier,
    ) by {
        assert(full[earlier] == field[earlier]);
        assert(all[earlier] == bytes[earlier]);
        assert(full[earlier] as u8 >= 32);
    }
}

/// What has been framed is read back: from a fresh start one step takes the
/// text out again, and leaves what follows the frame.
pub proof fn law_frame_is_read_back(text: Seq<char>, rest: Seq<u8>)
    requires
        encode_utf8(text).len() <= usize::MAX,
    ensures
        ({
            let start = Progress { content_length: None, bytes: frame(encode_utf8(text)) + rest };
            &&& start.output() == Some(text)
            &&& start.next() == Progress { content_length: None, bytes: rest }
        }),
{
    let body = encode_utf8(text);
    let field = length_field() + decimal(body.len());
    let head = encode_utf8(header(body.len()));
    let start = Progress { content_length: None, bytes: frame(body) + rest };
    assert(start.bytes =~= head + (body + rest));
    lemma_header_bytes(body.len(), body + rest);
    lemma_declared_length(body.len());
    let place = choose|place: int| header_ends_at(start.bytes, place);
    lemma_header_end_is_unique(start.bytes, place, field.len() as int);
    assert(start.bytes.take(place) =~= head.take(place));
    encode_utf8_valid_utf8(field);
    encode_utf8_decode_utf8(field);
    assert(lossy(start.bytes.take(place)) == field);
    assert(start.bytes.skip(place + 4) =~= body + rest);
    assert((body + rest).take(body.len() as int) =~= body);
    assert((body + rest).skip(body.len() as int) =~= rest);
    encode_utf8_valid_utf8(text);
    encode_utf8_decode_utf8(text);
}

/// It does not matter in which pieces the bytes arrive: where a step finds no
/// complete value, the step that follows once more bytes are there does what
/// one step on all the bytes would have done.
pub proof fn law_pieces_do_not_matter(start: Progress, more: Seq<u8>)
    requires
        start.output() is None,
    ensures
        start.next().with(more).output() == start.with(more).output(),
        start.next().with(more).next() == start.with(more).next(),
{
    if start.content_length is None && exists|place: int| header_ends_at(start.bytes, place) {
        let place = choose|place: int| header_ends_at(start.bytes, place);
        let whole = start.with(more);
        assert(whole.bytes.take(place) =~= start.bytes.take(place));
        assert forall|earlier: int| 0 <= earlier < place implies !#[trigger] blank_line_at(
            whole.bytes,
            earlier,
        ) by {
            assert(!blank_line_at(start.bytes, earlier));
        }
        assert(header_ends_at(whole.bytes, place));
        let found = choose|place: int| header_ends_at(whole.bytes, place);
        lemma_header_end_is_unique(whole.bytes, place, found);
        assert(whole.bytes.skip(place + 4) =~= start.bytes.skip(place + 4) + more);
        if start.after_header().content_length is Some {
            assert(start.next().with(more) == whole.after_header());
            assert(whole.after_header().after_header() == whole.after_header());
        }
    }
}

} // verus!
