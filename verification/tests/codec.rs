use bytes::BytesMut;
use lsp_muxd::codec::LspCodec;
use serde_json::Value;

fn json(text: &str) -> Value {
    serde_json::from_str(text).unwrap()
}

fn buffer(bytes: &[u8]) -> BytesMut {
    BytesMut::from(bytes)
}

#[test]
fn encode_writes_the_header_and_the_compact_body() {
    let mut codec = LspCodec::default();
    let mut dst = BytesMut::new();
    codec.encode(json("{ \"a\" : [1, 2] }"), &mut dst).unwrap();
    assert_eq!(&dst[..], &b"Content-Length: 11\r\n\r\n{\"a\":[1,2]}"[..]);
}

#[test]
fn encode_appends_to_what_is_there() {
    let mut codec = LspCodec::default();
    let mut dst = buffer(b"xyz");
    codec.encode(Value::Null, &mut dst).unwrap();
    assert_eq!(&dst[..], &b"xyzContent-Length: 4\r\n\r\nnull"[..]);
}

#[test]
fn the_length_counts_bytes_and_not_characters() {
    let mut codec = LspCodec::default();
    let mut dst = BytesMut::new();
    codec.encode(json("\"\u{e4}\u{20ac}\""), &mut dst).unwrap();
    assert_eq!(&dst[..], "Content-Length: 7\r\n\r\n\"\u{e4}\u{20ac}\"".as_bytes());
    assert_eq!(codec.decode(&mut dst).unwrap(), Some(json("\"\u{e4}\u{20ac}\"")));
    assert!(dst.is_empty());
}

#[test]
fn what_is_encoded_is_decoded_and_the_rest_stays() {
    let mut codec = LspCodec::default();
    let mut bytes = BytesMut::new();
    let first = json("{\"jsonrpc\":\"2.0\",\"id\":1,\"result\":{\"x\":[true,null,-5]}}");
    let second = json("[18446744073709551615,\"\\n\\\"\"]");
    codec.encode(first.clone(), &mut bytes).unwrap();
    codec.encode(second.clone(), &mut bytes).unwrap();
    bytes.extend_from_slice(b"Conte");
    assert_eq!(codec.decode(&mut bytes).unwrap(), Some(first));
    assert_eq!(codec.decode(&mut bytes).unwrap(), Some(second));
    assert_eq!(codec.decode(&mut bytes).unwrap(), None);
    assert_eq!(&bytes[..], &b"Conte"[..]);
}

#[test]
fn bytes_may_arrive_one_by_one() {
    let mut codec = LspCodec::default();
    let mut whole = BytesMut::new();
    let value = json("{\"method\":\"exit\"}");
    codec.encode(value.clone(), &mut whole).unwrap();
    let mut src = BytesMut::new();
    for (i, byte) in whole.iter().enumerate() {
        src.extend_from_slice(&[*byte]);
        let decoded = codec.decode(&mut src).unwrap();
        if i + 1 < whole.len() {
            assert_eq!(decoded, None);
        } else {
            assert_eq!(decoded, Some(value.clone()));
        }
    }
    assert!(src.is_empty());
}

#[test]
fn an_incomplete_header_is_left_alone() {
    let mut codec = LspCodec::default();
    let mut src = buffer(b"Content-Length: 2\r\n");
    assert_eq!(codec.decode(&mut src).unwrap(), None);
    assert_eq!(&src[..], &b"Content-Length: 2\r\n"[..]);
}

#[test]
fn a_complete_header_is_dropped_before_the_body_comes() {
    let mut codec = LspCodec::default();
    let mut src = buffer(b"Content-Length: 4\r\n\r\nnu");
    assert_eq!(codec.decode(&mut src).unwrap(), None);
    assert_eq!(&src[..], &b"nu"[..]);
    src.extend_from_slice(b"ll!");
    assert_eq!(codec.decode(&mut src).unwrap(), Some(Value::Null));
    assert_eq!(&src[..], &b"!"[..]);
}

#[test]
fn other_fields_and_margins_are_passed_over() {
    let mut codec = LspCodec::default();
    let mut src = buffer(b"Content-Type: x\r\nContent-Length:   +2 \t\r\nOther: y\r\n\r\n42");
    assert_eq!(codec.decode(&mut src).unwrap(), Some(Value::from(42u64)));
}

#[test]
fn a_header_without_a_length_stays_in_the_buffer() {
    for header in [
        &b"Content-Type: x\r\n\r\n42"[..],
        &b"content-length: 2\r\n\r\n42"[..],
        &b"Content-Length: -2\r\n\r\n42"[..],
        &b"Content-Length: 2x\r\n\r\n42"[..],
        &b"Content-Length: \r\n\r\n42"[..],
        &b"Content-Length: 99999999999999999999\r\n\r\n42"[..],
    ] {
        let mut codec = LspCodec::default();
        let mut src = buffer(header);
        assert_eq!(codec.decode(&mut src).unwrap(), None);
        assert_eq!(&src[..], header);
    }
}

#[test]
fn the_first_length_counts() {
    let mut codec = LspCodec::default();
    let mut src = buffer(b"Content-Length: 1\r\nContent-Length: 2\r\n\r\n42");
    assert_eq!(codec.decode(&mut src).unwrap(), Some(Value::from(4u64)));
    assert_eq!(&src[..], &b"2"[..]);
}

#[test]
fn a_body_that_is_no_json_is_an_error_and_is_dropped() {
    let mut codec = LspCodec::default();
    let mut src = buffer(b"Content-Length: 3\r\n\r\n{x}Content-Length: 1\r\n\r\n7");
    assert!(codec.decode(&mut src).is_err());
    assert_eq!(codec.decode(&mut src).unwrap(), Some(Value::from(7u64)));
}

#[test]
fn an_empty_body_is_an_error() {
    let mut codec = LspCodec::default();
    let mut src = buffer(b"Content-Length: 0\r\n\r\n");
    assert!(codec.decode(&mut src).is_err());
    assert!(src.is_empty());
}

#[test]
fn bytes_that_are_not_utf8_are_repaired() {
    let mut codec = LspCodec::default();
    let mut src = buffer(b"Content-Length: 4\r\n\r\n\"a\xff\"");
    assert_eq!(codec.decode(&mut src).unwrap(), Some(Value::from("a\u{fffd}")));
    let mut src = buffer(b"X: \xff\r\nContent-Length: 1\r\n\r\n1");
    assert_eq!(codec.decode(&mut src).unwrap(), Some(Value::from(1u64)));
}

#[test]
fn values_of_the_greatest_depth_are_read_back() {
    let mut value = Value::from(1u64);
    for _ in 0..lsp_muxd::json::MAX_DEPTH {
        value = Value::from(vec![value]);
    }
    let mut codec = LspCodec::default();
    let mut bytes = BytesMut::new();
    codec.encode(value.clone(), &mut bytes).unwrap();
    assert_eq!(codec.decode(&mut bytes).unwrap(), Some(value.clone()));
    codec.encode(Value::from(vec![value]), &mut bytes).unwrap();
    assert!(codec.decode(&mut bytes).is_err());
}
