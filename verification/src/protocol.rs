//! The messages of the line protocol: one JSON-RPC message on each line.

use crate::json::{
    json_of, number_value, object_value, opt_json_of, string_value, value_or_null, Json,
};
use serde_json::Value;
use vstd::prelude::*;

verus! {

/// Identifies a client.
pub type ClientId = u64;

/// The id that a client gave one of its requests.
pub type RequestId = u64;

/// The id under which the server knows a request.
pub type ServerRequestId = u64;

/// A JSON-RPC message.
#[derive(Debug)]
pub struct JsonRpcMessage {
    pub jsonrpc: String,
    pub content: JsonRpcContent,
}

/// What a message holds besides its version.
#[derive(Debug)]
pub enum JsonRpcContent {
    Request { id: Value, method: String, params: Option<Value> },
    Response { id: Value, result: Option<Value>, error: Option<Value> },
    Notification { method: String, params: Option<Value> },
}

pub enum ContentView {
    Request { id: Json, method: Seq<char>, params: Option<Json> },
    Response { id: Json, result: Option<Json>, error: Option<Json> },
    Notification { method: Seq<char>, params: Option<Json> },
}

impl View for JsonRpcContent {
    type V = ContentView;

    open spec fn view(&self) -> ContentView {
        match self {
            JsonRpcContent::Request { id, method, params } => ContentView::Request {
                id: json_of(*id),
                method: method@,
                params: opt_json_of(*params),
            },
            JsonRpcContent::Response { id, result, error } => ContentView::Response {
                id: json_of(*id),
                result: opt_json_of(*result),
                error: opt_json_of(*error),
            },
            JsonRpcContent::Notification { method, params } => ContentView::Notification {
                method: method@,
                params: opt_json_of(*params),
            },
        }
    }
}

/// What comes of waiting for the next line.
#[derive(Debug)]
pub enum LineEvent {
    /// The other side has closed the connection.
    Closed,
    /// A line, with the message in it where it is one.
    Line(Option<JsonRpcMessage>),
    /// The line could not be read.
    Failed,
}

pub enum LineEventView {
    Closed,
    Line(Option<ContentView>),
    Failed,
}

impl View for LineEvent {
    type V = LineEventView;

    open spec fn view(&self) -> LineEventView {
        match self {
            LineEvent::Closed => LineEventView::Closed,
            LineEvent::Line(Some(message)) => LineEventView::Line(Some(message.content@)),
            LineEvent::Line(None) => LineEventView::Line(None),
            LineEvent::Failed => LineEventView::Failed,
        }
    }
}

/// An object with these members.
pub open spec fn object(pairs: Seq<(Seq<char>, Json)>) -> Json {
    Json::Object(Json::members(pairs))
}

/// A request to the server as JSON.
pub open spec fn request_json(id: ServerRequestId, method: Seq<char>, params: Option<Json>) -> Json {
    object(
        seq![
            ("jsonrpc"@, Json::Text("2.0"@)),
            ("id"@, Json::Integer(id as int)),
            ("method"@, Json::Text(method)),
            ("params"@, Json::or_null(params)),
        ],
    )
}

/// A notification as JSON.
pub open spec fn notification_json(method: Seq<char>, params: Json) -> Json {
    object(
        seq![
            ("jsonrpc"@, Json::Text("2.0"@)),
            ("method"@, Json::Text(method)),
            ("params"@, params),
        ],
    )
}

/// A response to a client as JSON: result and error are there in any case.
pub open spec fn response_json(id: RequestId, result: Option<Json>, error: Option<Json>) -> Json {
    object(
        seq![
            ("jsonrpc"@, Json::Text("2.0"@)),
            ("id"@, Json::Integer(id as int)),
            ("result"@, Json::or_null(result)),
            ("error"@, Json::or_null(error)),
        ],
    )
}

/// The contents of named values.
pub open spec fn pairs_of(pairs: Seq<(String, Value)>) -> Seq<(Seq<char>, Json)> {
    pairs.map_values(|pair: (String, Value)| (pair.0@, json_of(pair.1)))
}

/// A text as a JSON value.
pub(crate) fn text_value(text: &str) -> (value: Value)
    ensures
        json_of(value) == Json::Text(text@),
{
    string_value(text.to_owned())
}

/// A request to the server.
pub fn request_value(id: ServerRequestId, method: String, params: Option<Value>) -> (value: Value)
    ensures
        json_of(value) == request_json(id, method@, opt_json_of(params)),
{
    let pairs = vec![
        ("jsonrpc".to_owned(), text_value("2.0")),
        ("id".to_owned(), number_value(id)),
        ("method".to_owned(), string_value(method)),
        ("params".to_owned(), value_or_null(params)),
    ];
    assert(pairs_of(pairs@) =~= seq![
        ("jsonrpc"@, Json::Text("2.0"@)),
        ("id"@, Json::Integer(id as int)),
        ("method"@, Json::Text(method@)),
        ("params"@, Json::or_null(opt_json_of(params))),
    ]);
    object_value(pairs)
}

/// A notification.
pub fn notification_value(method: String, params: Value) -> (value: Value)
    ensures
        json_of(value) == notification_json(method@, json_of(params)),
{
    let pairs = vec![
        ("jsonrpc".to_owned(), text_value("2.0")),
        ("method".to_owned(), string_value(method)),
        ("params".to_owned(), params),
    ];
    assert(pairs_of(pairs@) =~= seq![
        ("jsonrpc"@, Json::Text("2.0"@)),
        ("method"@, Json::Text(method@)),
        ("params"@, json_of(params)),
    ]);
    object_value(pairs)
}

/// A response to a client.
pub fn response_value(id: RequestId, result: Option<Value>, error: Option<Value>) -> (value: Value)
    ensures
        json_of(value) == response_json(id, opt_json_of(result), opt_json_of(error)),
{
    let pairs = vec![
        ("jsonrpc".to_owned(), text_value("2.0")),
        ("id".to_owned(), number_value(id)),
        ("result".to_owned(), value_or_null(result)),
        ("error".to_owned(), value_or_null(error)),
    ];
    assert(pairs_of(pairs@) =~= seq![
        ("jsonrpc"@, Json::Text("2.0"@)),
        ("id"@, Json::Integer(id as int)),
        ("result"@, Json::or_null(opt_json_of(result))),
        ("error"@, Json::or_null(opt_json_of(error))),
    ]);
    object_value(pairs)
}

} // verus!
