//! JSON-RPC messages: what they hold, how they are written as JSON, and which
//! JSON values are messages.

use crate::json::{clone_opt_value, clone_value, json_of, opt_json_of, Json};
use serde_json::Value;
use tower_lsp::jsonrpc;
use vstd::prelude::*;

verus! {

/// What correlates a request with its response.
#[derive(Debug, PartialEq)]
pub enum Id {
    Number(i64),
    String(String),
    Null,
}

/// A request, or a notification where there is no id.
#[derive(Debug, PartialEq)]
pub struct Request {
    pub method: String,
    pub id: Option<Id>,
    pub params: Option<Value>,
}

/// Why a request failed.
#[derive(Debug, PartialEq)]
pub struct RpcError {
    pub code: i64,
    pub message: String,
    pub data: Option<Value>,
}

/// The answer to a request.
#[derive(Debug, PartialEq)]
pub struct Response {
    pub id: Id,
    pub outcome: Result<Value, RpcError>,
}

/// An incoming or outgoing JSON-RPC message.
#[derive(Debug, PartialEq)]
pub enum Message {
    /// A response message.
    Response(Response),
    /// A request or notification message.
    Request(Request),
}

/// A JSON value that is no message.
#[derive(Clone, Copy, Debug, PartialEq, Eq, Structural)]
pub struct NotAMessage;

pub enum IdView {
    Number(i64),
    String(Seq<char>),
    Null,
}

pub struct RequestView {
    pub method: Seq<char>,
    pub id: Option<IdView>,
    pub params: Option<Json>,
}

pub struct RpcErrorView {
    pub code: i64,
    pub message: Seq<char>,
    pub data: Option<Json>,
}

pub struct ResponseView {
    pub id: IdView,
    pub outcome: Result<Json, RpcErrorView>,
}

pub enum MessageView {
    Response(ResponseView),
    Request(RequestView),
}

impl View for Id {
    type V = IdView;

    open spec fn view(&self) -> IdView {
        match self {
            Id::Number(number) => IdView::Number(*number),
            Id::String(text) => IdView::String(text@),
            Id::Null => IdView::Null,
        }
    }
}

/// The view of an optional id.
pub open spec fn opt_id_view(id: Option<Id>) -> Option<IdView> {
    match id {
        Some(id) => Some(id@),
        None => None,
    }
}

impl View for Request {
    type V = RequestView;

    open spec fn view(&self) -> RequestView {
        RequestView {
            method: self.method@,
            id: opt_id_view(self.id),
            params: opt_json_of(self.params),
        }
    }
}

impl View for RpcError {
    type V = RpcErrorView;

    open spec fn view(&self) -> RpcErrorView {
        RpcErrorView { code: self.code, message: self.message@, data: opt_json_of(self.data) }
    }
}

/// The view of what a request came to.
pub open spec fn outcome_view(outcome: Result<Value, RpcError>) -> Result<Json, RpcErrorView> {
    match outcome {
        Ok(value) => Ok(json_of(value)),
        Err(error) => Err(error@),
    }
}

impl View for Response {
    type V = ResponseView;

    open spec fn view(&self) -> ResponseView {
        ResponseView { id: self.id@, outcome: outcome_view(self.outcome) }
    }
}

impl View for Message {
    type V = MessageView;

    open spec fn view(&self) -> MessageView {
        match self {
            Message::Response(response) => MessageView::Response(response@),
            Message::Request(request) => MessageView::Request(request@),
        }
    }
}

impl Clone for Id {
    fn clone(&self) -> (copy: Self)
        ensures
            copy@ == self@,
    {
        match self {
            Id::Number(number) => Id::Number(*number),
            Id::String(text) => Id::String(text.clone()),
            Id::Null => Id::Null,
        }
    }
}

impl Clone for Request {
    fn clone(&self) -> (copy: Self)
        ensures
            copy@ == self@,
    {
        let id = match &self.id {
            Some(id) => Some(id.clone()),
            None => None,
        };
        Request { method: self.method.clone(), id, params: clone_opt_value(&self.params) }
    }
}

impl Clone for RpcError {
    fn clone(&self) -> (copy: Self)
        ensures
            copy@ == self@,
    {
        RpcError {
            code: self.code,
            message: self.message.clone(),
            data: clone_opt_value(&self.data),
        }
    }
}

/// A copy of what a request came to.
pub fn clone_outcome(outcome: &Result<Value, RpcError>) -> (copy: Result<Value, RpcError>)
    ensures
        outcome_view(copy) == outcome_view(*outcome),
{
    match outcome {
        Ok(value) => Ok(clone_value(value)),
        Err(error) => Err(error.clone()),
    }
}

impl Clone for Response {
    fn clone(&self) -> (copy: Self)
        ensures
            copy@ == self@,
    {
        Response { id: self.id.clone(), outcome: clone_outcome(&self.outcome) }
    }
}

impl Clone for Message {
    fn clone(&self) -> (copy: Self)
        ensures
            copy@ == self@,
    {
        match self {
            Message::Response(response) => Message::Response(response.clone()),
            Message::Request(request) => Message::Request(request.clone()),
        }
    }
}

impl IdView {
    /// An id as JSON.
    pub open spec fn json(self) -> Json {
        match self {
            IdView::Number(number) => Json::Integer(number as int),
            IdView::String(text) => Json::Text(text),
            IdView::Null => Json::Null,
        }
    }

    /// The id that a JSON value is: a string, `null`, or an integer of 64 bits
    /// with a sign.
    pub open spec fn read(json: Json) -> Option<IdView> {
        match json {
            Json::Integer(n) => if i64::MIN <= n <= i64::MAX {
                Some(IdView::Number(n as i64))
            } else {
                None
            },
            Json::Text(text) => Some(IdView::String(text)),
            Json::Null => Some(IdView::Null),
            _ => None,
        }
    }
}

/// `members`, with one more where there is a value for it.
pub open spec fn with_member(
    members: Map<Seq<char>, Json>,
    name: Seq<char>,
    value: Option<Json>,
) -> Map<Seq<char>, Json> {
    match value {
        Some(json) => members.insert(name, json),
        None => members,
    }
}

/// The member of this name, where there is one.
pub open spec fn member(members: Map<Seq<char>, Json>, name: Seq<char>) -> Option<Json> {
    if members.contains_key(name) {
        Some(members[name])
    } else {
        None
    }
}

/// The item at this place, where there is one.
pub open spec fn item(items: Seq<Json>, index: int) -> Option<Json> {
    if 0 <= index < items.len() {
        Some(items[index])
    } else {
        None
    }
}

/// The member that says which version of JSON-RPC a message speaks.
pub open spec fn version_json() -> Json {
    Json::Text("2.0"@)
}

impl RequestView {
    /// A request as JSON: without `params` or `id` where it has none.
    pub open spec fn json(self) -> Json {
        let named = Map::<Seq<char>, Json>::empty().insert("jsonrpc"@, version_json()).insert(
            "method"@,
            Json::Text(self.method),
        );
        let id = match self.id {
            Some(id) => Some(id.json()),
            None => None,
        };
        Json::Object(with_member(with_member(named, "params"@, self.params), "id"@, id))
    }

    /// The request with these four parts: the version must be the one that is
    /// spoken here; a method that is missing is empty; an id that is there must
    /// be an id.
    pub open spec fn assemble(
        version: Option<Json>,
        method: Option<Json>,
        params: Option<Json>,
        id: Option<Json>,
    ) -> Option<RequestView> {
        let name = match method {
            None => Some(Seq::<char>::empty()),
            Some(Json::Text(text)) => Some(text),
            Some(_) => None,
        };
        let read = match id {
            None => Some(None),
            Some(json) => match IdView::read(json) {
                Some(id) => Some(Some(id)),
                None => None,
            },
        };
        if version == Some(version_json()) && name is Some && read is Some {
            Some(RequestView { method: name->0, id: read->0, params })
        } else {
            None
        }
    }

    /// The request that a JSON value is: an object with its parts as members,
    /// or an array of at most these four parts in this order.
    pub open spec fn read(json: Json) -> Option<RequestView> {
        match json {
            Json::Object(members) => RequestView::assemble(
                member(members, "jsonrpc"@),
                member(members, "method"@),
                member(members, "params"@),
                member(members, "id"@),
            ),
            Json::Array(items) => if items.len() <= 4 {
                RequestView::assemble(item(items, 0), item(items, 1), item(items, 2), item(items, 3))
            } else {
                None
            },
            _ => None,
        }
    }
}

impl RpcErrorView {
    /// An error as JSON: without `data` where it has none.
    pub open spec fn json(self) -> Json {
        let named = Map::<Seq<char>, Json>::empty().insert(
            "code"@,
            Json::Integer(self.code as int),
        ).insert("message"@, Json::Text(self.message));
        Json::Object(with_member(named, "data"@, self.data))
    }

    /// The error with these parts; data that are `null` count as none.
    pub open spec fn assemble(code: Option<Json>, message: Option<Json>, data: Option<Json>) -> Option<
        RpcErrorView,
    > {
        match (code, message) {
            (Some(Json::Integer(n)), Some(Json::Text(text))) => if i64::MIN <= n <= i64::MAX {
                Some(
                    RpcErrorView {
                        code: n as i64,
                        message: text,
                        data: if data == Some(Json::Null) {
                            None
                        } else {
                            data
                        },
                    },
                )
            } else {
                None
            },
            _ => None,
        }
    }

    /// The error that a JSON value is: an object with its parts as members and
    /// no others, or an array of the three parts in this order.
    pub open spec fn read(json: Json) -> Option<RpcErrorView> {
        match json {
            Json::Object(members) => if forall|name: Seq<char>| #[trigger]
                members.contains_key(name) ==> name == "code"@ || name == "message"@ || name
                    == "data"@ {
                RpcErrorView::assemble(
                    member(members, "code"@),
                    member(members, "message"@),
                    member(members, "data"@),
                )
            } else {
                None
            },
            Json::Array(items) => if items.len() == 3 {
                RpcErrorView::assemble(item(items, 0), item(items, 1), item(items, 2))
            } else {
                None
            },
            _ => None,
        }
    }
}

impl ResponseView {
    /// A response as JSON: it has a `result` or an `error`.
    pub open spec fn json(self) -> Json {
        let named = Map::<Seq<char>, Json>::empty().insert("jsonrpc"@, version_json()).insert(
            "id"@,
            self.id.json(),
        );
        match self.outcome {
            Ok(result) => Json::Object(named.insert("result"@, result)),
            Err(error) => Json::Object(named.insert("error"@, error.json())),
        }
    }

    /// The response that a JSON value is: an object with a version, an id, and
    /// a result or, failing that, an error.
    pub open spec fn read(json: Json) -> Option<ResponseView> {
        match json {
            Json::Object(members) => if member(members, "jsonrpc"@) == Some(version_json())
                && members.contains_key("id"@) && IdView::read(members["id"@]) is Some {
                let id = IdView::read(members["id"@])->0;
                if members.contains_key("result"@) {
                    Some(ResponseView { id, outcome: Ok(members["result"@]) })
                } else if members.contains_key("error"@) && RpcErrorView::read(
                    members["error"@],
                ) is Some {
                    Some(
                        ResponseView { id, outcome: Err(RpcErrorView::read(members["error"@])->0) },
                    )
                } else {
                    None
                }
            } else {
                None
            },
            _ => None,
        }
    }
}

impl MessageView {
    /// A message as JSON.
    pub open spec fn json(self) -> Json {
        match self {
            MessageView::Response(response) => response.json(),
            MessageView::Request(request) => request.json(),
        }
    }

    /// The message that a JSON value is: a response where it can be read as
    /// one, and else a request.
    pub open spec fn read(json: Json) -> Option<MessageView> {
        match ResponseView::read(json) {
            Some(response) => Some(MessageView::Response(response)),
            None => match RequestView::read(json) {
                Some(request) => Some(MessageView::Request(request)),
                None => None,
            },
        }
    }
}

/// `serde_json::from_value` to a `tower_lsp::jsonrpc::Request`, which is then
/// taken apart: it reads an object, or an array of the fields in their order.
#[verifier::external_body]
pub(crate) fn read_request(value: Value) -> (result: Result<Request, serde_json::Error>)
    ensures
        match RequestView::read(json_of(value)) {
            Some(request) => result is Ok && result->Ok_0@ == request,
            None => result is Err,
        },
{
    serde_json::from_value::<jsonrpc::Request>(value).map(
        |request| {
            let (method, id, params) = request.into_parts();
            let id = id.map(|id| match id {
                jsonrpc::Id::Number(number) => Id::Number(number),
                jsonrpc::Id::String(text) => Id::String(text),
                jsonrpc::Id::Null => Id::Null,
            });
            Request { method: method.into_owned(), id, params }
        },
    )
}

/// `serde_json::from_value` to a `tower_lsp::jsonrpc::Response`, which is then
/// taken apart: it reads an object that has a result or a well-formed error.
#[verifier::external_body]
pub(crate) fn read_response(value: Value) -> (result: Result<Response, serde_json::Error>)
    ensures
        match ResponseView::read(json_of(value)) {
            Some(response) => result is Ok && result->Ok_0@ == response,
            None => result is Err,
        },
{
    serde_json::from_value::<jsonrpc::Response>(value).map(
        |response| {
            let (id, body) = response.into_parts();
            let id = match id {
                jsonrpc::Id::Number(number) => Id::Number(number),
                jsonrpc::Id::String(text) => Id::String(text),
                jsonrpc::Id::Null => Id::Null,
            };
            let outcome = body.map_err(|e| RpcError { code: e.code.code(), message: e.message.into_owned(), data: e.data });
            Response { id, outcome }
        },
    )
}

/// `serde_json::to_value` on the `tower_lsp::jsonrpc::Request` that is built of
/// these parts: it never fails, since the members are named by strings.
#[verifier::external_body]
pub(crate) fn write_request(request: Request) -> (result: Result<Value, serde_json::Error>)
    ensures
        result is Ok,
        json_of(result->Ok_0) == request@.json(),
{
    let mut builder = jsonrpc::Request::build(request.method);
    if let Some(params) = request.params {
        builder = builder.params(params);
    }
    if let Some(id) = request.id {
        builder = match id {
            Id::Number(number) => builder.id(number),
            Id::String(text) => builder.id(text),
            Id::Null => builder.id(jsonrpc::Id::Null),
        };
    }
    serde_json::to_value(builder.finish())
}

/// `serde_json::to_value` on the `tower_lsp::jsonrpc::Response` that is made of
/// these parts: it never fails, since the members are named by strings.
#[verifier::external_body]
pub(crate) fn write_response(response: Response) -> (result: Result<Value, serde_json::Error>)
    ensures
        result is Ok,
        json_of(result->Ok_0) == response@.json(),
{
    let id = match response.id {
        Id::Number(number) => jsonrpc::Id::Number(number),
        Id::String(text) => jsonrpc::Id::String(text),
        Id::Null => jsonrpc::Id::Null,
    };
    let body = response.outcome.map_err(
        |e| jsonrpc::Error { code: e.code.into(), message: e.message.into(), data: e.data },
    );
    serde_json::to_value(jsonrpc::Response::from_parts(id, body))
}

impl Request {
    /// The request as JSON.
    pub fn to_value(self) -> (value: Value)
        ensures
            json_of(value) == self@.json(),
    {
        write_request(self).unwrap()
    }
}

impl Message {
    /// Reads a message: a response where the value can be read as one, and else
    /// a request or notification.
    pub fn from_value(value: Value) -> (result: Result<Message, NotAMessage>)
        ensures
            match MessageView::read(json_of(value)) {
                Some(message) => result is Ok && result->Ok_0@ == message,
                None => result == Err::<Message, NotAMessage>(NotAMessage),
            },
    {
        let again = clone_value(&value);
        match read_response(value) {
            Ok(response) => Ok(Message::Response(response)),
            Err(_) => match read_request(again) {
                Ok(request) => Ok(Message::Request(request)),
                Err(_) => Err(NotAMessage),
            },
        }
    }

    /// The message as JSON.
    pub fn to_value(self) -> (value: Value)
        ensures
            json_of(value) == self@.json(),
    {
        match self {
            Message::Response(response) => write_response(response).unwrap(),
            Message::Request(request) => request.to_value(),
        }
    }
}

/// The names of the members of a message are different.
proof fn lemma_member_names()
    ensures
        "jsonrpc"@ != "method"@,
        "jsonrpc"@ != "params"@,
        "jsonrpc"@ != "id"@,
        "jsonrpc"@ != "result"@,
        "jsonrpc"@ != "error"@,
        "method"@ != "params"@,
        "method"@ != "id"@,
        "method"@ != "result"@,
        "method"@ != "error"@,
        "params"@ != "id"@,
        "params"@ != "result"@,
        "params"@ != "error"@,
        "id"@ != "result"@,
        "id"@ != "error"@,
        "result"@ != "error"@,
        "code"@ != "message"@,
        "code"@ != "data"@,
        "message"@ != "data"@,
{
    reveal_strlit("jsonrpc");
    reveal_strlit("method");
    reveal_strlit("params");
    reveal_strlit("id");
    reveal_strlit("result");
    reveal_strlit("error");
    reveal_strlit("code");
    reveal_strlit("message");
    reveal_strlit("data");
    assert("jsonrpc"@.len() == 7 && "id"@.len() == 2 && "error"@.len() == 5);
    assert("method"@.len() == 6 && "params"@.len() == 6 && "result"@.len() == 6);
    assert("method"@[0] == 'm' && "params"@[0] == 'p' && "result"@[0] == 'r');
    assert("code"@.len() == 4 && "message"@.len() == 7 && "data"@.len() == 4);
    assert("code"@[0] == 'c' && "data"@[0] == 'd');
}

/// A request that is written as JSON is read as the same request, and not as a
/// response.
pub proof fn law_written_request_is_read_back(request: RequestView)
    ensures
        MessageView::read(request.json()) == Some(MessageView::Request(request)),
{
    lemma_member_names();
    assert(RequestView::read(request.json())->0 == request);
}

/// A response that is written as JSON is read as the same response, unless its
/// error carries `null` as data: that is read as an error without data.
pub proof fn law_written_response_is_read_back(response: ResponseView)
    requires
        response.outcome matches Err(error) ==> error.data != Some(Json::Null),
    ensures
        MessageView::read(response.json()) == Some(MessageView::Response(response)),
{
    lemma_member_names();
    match response.outcome {
        Ok(_) => {},
        Err(error) => {
            assert(RpcErrorView::read(error.json())->0 == error);
        },
    }
    assert(ResponseView::read(response.json())->0 == response);
}

} // verus!
