use lsp_muxd::rpc::{Id, Message, NotAMessage, Request, Response, RpcError};
use serde_json::Value;

fn json(text: &str) -> Value {
    serde_json::from_str(text).unwrap()
}

fn read(text: &str) -> Result<Message, NotAMessage> {
    Message::from_value(json(text))
}

fn request(method: &str, id: Option<Id>, params: Option<Value>) -> Message {
    Message::Request(Request { method: method.to_string(), id, params })
}

fn failure(id: Id, code: i64, message: &str, data: Option<Value>) -> Message {
    let error = RpcError { code, message: message.to_string(), data };
    Message::Response(Response { id, outcome: Err(error) })
}

#[test]
fn requests_are_read() {
    assert_eq!(
        read("{\"jsonrpc\":\"2.0\",\"id\":7,\"method\":\"m\",\"params\":[1]}"),
        Ok(request("m", Some(Id::Number(7)), Some(json("[1]"))))
    );
    assert_eq!(
        read("{\"jsonrpc\":\"2.0\",\"id\":\"seven\",\"method\":\"m\"}"),
        Ok(request("m", Some(Id::String("seven".to_string())), None))
    );
    assert_eq!(
        read("{\"jsonrpc\":\"2.0\",\"id\":null,\"method\":\"m\",\"params\":null}"),
        Ok(request("m", Some(Id::Null), Some(Value::Null)))
    );
}

#[test]
fn notifications_are_requests_without_an_id() {
    assert_eq!(
        read("{\"jsonrpc\":\"2.0\",\"method\":\"exit\"}"),
        Ok(request("exit", None, None))
    );
}

#[test]
fn a_missing_method_is_empty_and_unknown_members_are_passed_over() {
    assert_eq!(
        read("{\"jsonrpc\":\"2.0\",\"id\":1,\"more\":true}"),
        Ok(request("", Some(Id::Number(1)), None))
    );
}

#[test]
fn requests_can_be_arrays() {
    assert_eq!(
        read("[\"2.0\",\"m\",{\"a\":1},3]"),
        Ok(request("m", Some(Id::Number(3)), Some(json("{\"a\":1}"))))
    );
    assert_eq!(read("[\"2.0\",\"m\"]"), Ok(request("m", None, None)));
    assert_eq!(read("[\"2.0\",\"m\",1,2,3]"), Err(NotAMessage));
    assert_eq!(read("[]"), Err(NotAMessage));
}

#[test]
fn what_is_no_message_is_refused() {
    for text in [
        "{\"method\":\"m\",\"id\":1}",
        "{\"jsonrpc\":\"1.0\",\"method\":\"m\",\"id\":1}",
        "{\"jsonrpc\":2.0,\"method\":\"m\"}",
        "{\"jsonrpc\":\"2.0\",\"method\":5}",
        "{\"jsonrpc\":\"2.0\",\"method\":\"m\",\"id\":1.5}",
        "{\"jsonrpc\":\"2.0\",\"method\":\"m\",\"id\":9223372036854775808}",
        "{\"jsonrpc\":\"2.0\",\"method\":\"m\",\"id\":[]}",
        "null",
        "5",
        "\"2.0\"",
    ] {
        assert_eq!(read(text), Err(NotAMessage), "{}", text);
    }
}

#[test]
fn responses_are_read() {
    assert_eq!(
        read("{\"jsonrpc\":\"2.0\",\"id\":7,\"result\":null}"),
        Ok(Message::Response(Response { id: Id::Number(7), outcome: Ok(Value::Null) }))
    );
    assert_eq!(
        read("{\"jsonrpc\":\"2.0\",\"id\":-9223372036854775808,\"result\":{\"a\":2}}"),
        Ok(Message::Response(Response {
            id: Id::Number(i64::MIN),
            outcome: Ok(json("{\"a\":2}"))
        }))
    );
    assert_eq!(
        read("{\"jsonrpc\":\"2.0\",\"id\":\"x\",\"error\":{\"code\":-32600,\"message\":\"bad\",\"data\":[0]}}"),
        Ok(failure(Id::String("x".to_string()), -32600, "bad", Some(json("[0]"))))
    );
}

#[test]
fn a_result_counts_more_than_an_error() {
    assert_eq!(
        read("{\"jsonrpc\":\"2.0\",\"id\":1,\"result\":5,\"error\":{\"code\":1,\"message\":\"m\"}}"),
        Ok(Message::Response(Response { id: Id::Number(1), outcome: Ok(json("5")) }))
    );
}

#[test]
fn a_response_with_a_method_is_still_a_response() {
    assert_eq!(
        read("{\"jsonrpc\":\"2.0\",\"id\":1,\"method\":\"m\",\"result\":5}"),
        Ok(Message::Response(Response { id: Id::Number(1), outcome: Ok(json("5")) }))
    );
}

#[test]
fn an_ill_formed_error_makes_it_a_request() {
    for error in [
        "{\"code\":1}",
        "{\"message\":\"m\"}",
        "{\"code\":\"1\",\"message\":\"m\"}",
        "{\"code\":1,\"message\":\"m\",\"other\":0}",
        "null",
        "[1,\"m\"]",
    ] {
        let text = format!("{{\"jsonrpc\":\"2.0\",\"id\":1,\"error\":{}}}", error);
        assert_eq!(read(&text), Ok(request("", Some(Id::Number(1)), None)), "{}", error);
    }
}

#[test]
fn an_error_can_be_an_array_and_null_data_count_as_none() {
    assert_eq!(
        read("{\"jsonrpc\":\"2.0\",\"id\":1,\"error\":[5,\"m\",true]}"),
        Ok(failure(Id::Number(1), 5, "m", Some(Value::Bool(true))))
    );
    assert_eq!(
        read("{\"jsonrpc\":\"2.0\",\"id\":1,\"error\":{\"code\":5,\"message\":\"m\",\"data\":null}}"),
        Ok(failure(Id::Number(1), 5, "m", None))
    );
}

#[test]
fn requests_are_written() {
    assert_eq!(
        request("m", Some(Id::Number(7)), Some(json("[1]"))).to_value(),
        json("{\"jsonrpc\":\"2.0\",\"id\":7,\"method\":\"m\",\"params\":[1]}")
    );
    assert_eq!(
        request("m", Some(Id::Null), None).to_value(),
        json("{\"jsonrpc\":\"2.0\",\"id\":null,\"method\":\"m\"}")
    );
    assert_eq!(
        request("m", None, Some(Value::Null)).to_value(),
        json("{\"jsonrpc\":\"2.0\",\"method\":\"m\",\"params\":null}")
    );
}

#[test]
fn responses_are_written() {
    assert_eq!(
        Message::Response(Response { id: Id::Number(2), outcome: Ok(Value::Null) }).to_value(),
        json("{\"jsonrpc\":\"2.0\",\"id\":2,\"result\":null}")
    );
    assert_eq!(
        failure(Id::String("q".to_string()), -32601, "none", None).to_value(),
        json("{\"jsonrpc\":\"2.0\",\"id\":\"q\",\"error\":{\"code\":-32601,\"message\":\"none\"}}")
    );
    assert_eq!(
        failure(Id::Null, 1, "m", Some(Value::Null)).to_value(),
        json("{\"jsonrpc\":\"2.0\",\"id\":null,\"error\":{\"code\":1,\"message\":\"m\",\"data\":null}}")
    );
}

#[test]
fn what_is_written_is_read_back() {
    for message in [
        request("textDocument/hover", Some(Id::Number(-3)), Some(json("{\"a\":[1,2.5]}"))),
        request("", Some(Id::String(String::new())), None),
        request("exit", None, Some(Value::Null)),
        Message::Response(Response { id: Id::Null, outcome: Ok(json("[]")) }),
        failure(Id::Number(i64::MAX), i64::MIN, "", Some(json("{}"))),
        failure(Id::Number(0), -32700, "parse", None),
    ] {
        assert_eq!(Message::from_value(message.clone().to_value()), Ok(message));
    }
}

#[test]
fn an_error_with_null_data_is_read_back_without() {
    let message = failure(Id::Number(1), 1, "m", Some(Value::Null));
    assert_eq!(
        Message::from_value(message.to_value()),
        Ok(failure(Id::Number(1), 1, "m", None))
    );
}

#[test]
fn a_response_needs_an_id() {
    assert_eq!(read("{\"jsonrpc\":\"2.0\",\"result\":1}"), Ok(request("", None, None)));
    assert_eq!(read("{\"jsonrpc\":\"2.0\",\"id\":true,\"result\":1}"), Err(NotAMessage));
    assert_eq!(read("{\"jsonrpc\":\"1.0\",\"id\":1,\"result\":1}"), Err(NotAMessage));
    assert_eq!(read("[\"2.0\",1,2]"), Err(NotAMessage));
}

#[test]
fn codes_of_errors_are_integers_and_are_kept() {
    let codes =
        [-32700, -32603, -32602, -32601, -32600, -32800, -32801, -1, 0, 1, i64::MAX, i64::MIN];
    for code in codes {
        let message = failure(Id::Number(1), code, "m", None);
        assert_eq!(Message::from_value(message.clone().to_value()), Ok(message));
    }
    for code in ["9223372036854775808", "1.0", "null"] {
        let text = format!(
            "{{\"jsonrpc\":\"2.0\",\"id\":1,\"error\":{{\"code\":{},\"message\":\"m\"}}}}",
            code
        );
        assert_eq!(read(&text), Ok(request("", Some(Id::Number(1)), None)), "{}", code);
    }
}
