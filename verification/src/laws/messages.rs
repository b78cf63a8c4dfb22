//! Laws of JSON and of the messages: how each is written, and what is read as
//! which.

use crate::json::{json_of, opt_json_of, Json};
use crate::lsp::{folder_change, opt_url_text, url_text, WorkspaceFolder, WorkspaceFolderView};
use crate::rpc::{
    opt_id_view, outcome_view, Id, IdView, Message, MessageView, Request, RequestView, Response,
    ResponseView, RpcError, RpcErrorView,
};
use crate::text::last_segment;
use serde_json::Value;
use tower_lsp::lsp_types::Url;
use vstd::prelude::*;

verus! {

/// The names of members are all different.
pub(crate) proof fn lemma_names_differ()
    ensures
        "jsonrpc"@ != "method"@,
        "jsonrpc"@ != "params"@,
        "jsonrpc"@ != "id"@,
        "jsonrpc"@ != "result"@,
        "jsonrpc"@ != "error"@,
        "method"@ != "params"@,
        "method"@ != "id"@,
        "method"@ != "result"@,
        "method"@ != "error"@,
        "params"@ != "id"@,
        "params"@ != "result"@,
        "params"@ != "error"@,
        "id"@ != "result"@,
        "id"@ != "error"@,
        "result"@ != "error"@,
        "code"@ != "message"@,
        "code"@ != "data"@,
        "message"@ != "data"@,
        "uri"@ != "name"@,
        "added"@ != "removed"@,
{
    reveal_strlit("jsonrpc");
    reveal_strlit("method");
    reveal_strlit("params");
    reveal_strlit("id");
    reveal_strlit("result");
    reveal_strlit("error");
    reveal_strlit("code");
    reveal_strlit("message");
    reveal_strlit("data");
    reveal_strlit("uri");
    reveal_strlit("name");
    reveal_strlit("added");
    reveal_strlit("removed");
    assert("jsonrpc"@.len() == 7 && "id"@.len() == 2 && "error"@.len() == 5);
    assert("method"@.len() == 6 && "params"@.len() == 6 && "result"@.len() == 6);
    assert("method"@[0] == 'm' && "params"@[0] == 'p' && "result"@[0] == 'r');
    assert("code"@.len() == 4 && "message"@.len() == 7 && "data"@.len() == 4);
    assert("code"@[0] == 'c' && "data"@[0] == 'd');
    assert("uri"@.len() == 3 && "name"@.len() == 4 && "added"@.len() == 5 && "removed"@.len() == 7);
}

/// An object has the members that are listed, and no others: a member that is
/// listed last is there with its value, whatever was listed before under its
/// name, and makes no difference to members of other names.
pub proof fn law_members_are_those_listed(
    pairs: Seq<(Seq<char>, Json)>,
    name: Seq<char>,
    value: Json,
    other: Seq<char>,
)
    ensures
        !Json::members(Seq::empty()).contains_key(name),
        Json::members(pairs.push((name, value))).contains_key(name),
        Json::members(pairs.push((name, value)))[name] == value,
        other != name ==> {
            let longer = Json::members(pairs.push((name, value)));
            &&& longer.contains_key(other) == Json::members(pairs).contains_key(other)
            &&& longer.contains_key(other) ==> longer[other] == Json::members(pairs)[other]
        },
{
    assert(pairs.push((name, value)).drop_last() =~= pairs);
}

/// A value that is there stays as it is, and one that is missing is `null`.
pub proof fn law_missing_values_are_null(json: Json)
    ensures
        Json::or_null(Some(json)) == json,
        Json::or_null(None) == Json::Null,
{
}

/// The JSON value writes this id: a number as an integer, a text as a string.
pub open spec fn writes_id(json: Json, id: IdView) -> bool {
    match id {
        IdView::Number(number) => json == Json::Integer(number as int),
        IdView::String(text) => json == Json::Text(text),
        IdView::Null => json is Null,
    }
}

/// A request is written with its version, its method, and its parameters and its
/// id where it has them, and with nothing else.
pub proof fn law_request_is_written_whole(request: RequestView)
    ensures
        MessageView::Request(request).json() == request.json(),
        request.json() is Object,
        ({
            let members = request.json()->Object_0;
            &&& members.contains_key("jsonrpc"@) && members["jsonrpc"@] == Json::Text("2.0"@)
            &&& members.contains_key("method"@) && members["method"@] == Json::Text(request.method)
            &&& members.contains_key("params"@) == request.params is Some
            &&& request.params matches Some(params) ==> members["params"@] == params
            &&& members.contains_key("id"@) == request.id is Some
            &&& request.id matches Some(id) ==> writes_id(members["id"@], id)
            &&& forall|name: Seq<char>| #[trigger]
                members.contains_key(name) ==> name == "jsonrpc"@ || name == "method"@ || name
                    == "params"@ || name == "id"@
        }),
{
    lemma_names_differ();
}

/// A response is written with its version, its id, and either its result or its
/// error, the error with its code, its message, and its data where it has some,
/// and with nothing else.
pub proof fn law_response_is_written_whole(response: ResponseView)
    ensures
        MessageView::Response(response).json() == response.json(),
        response.json() is Object,
        ({
            let members = response.json()->Object_0;
            &&& members.contains_key("jsonrpc"@) && members["jsonrpc"@] == Json::Text("2.0"@)
            &&& members.contains_key("id"@) && writes_id(members["id"@], response.id)
            &&& members.contains_key("result"@) == response.outcome is Ok
            &&& members.contains_key("error"@) == response.outcome is Err
            &&& response.outcome matches Ok(result) ==> members["result"@] == result
            &&& response.outcome matches Err(error) ==> {
                &&& members["error"@] is Object
                &&& is_error(members["error"@]->Object_0, error)
            }
            &&& forall|name: Seq<char>| #[trigger]
                members.contains_key(name) ==> name == "jsonrpc"@ || name == "id"@ || name
                    == "result"@ || name == "error"@
        }),
{
    lemma_names_differ();
}

/// The members are those of this error, and no others.
pub open spec fn is_error(members: Map<Seq<char>, Json>, error: RpcErrorView) -> bool {
    &&& members.contains_key("code"@) && members["code"@] == Json::Integer(error.code as int)
    &&& members.contains_key("message"@) && members["message"@] == Json::Text(error.message)
    &&& members.contains_key("data"@) == error.data is Some
    &&& error.data matches Some(data) ==> members["data"@] == data
    &&& forall|name: Seq<char>| #[trigger]
        members.contains_key(name) ==> name == "code"@ || name == "message"@ || name == "data"@
}

/// What has a version, an id and a result is a response with that result,
/// whatever else it has; without a result, what has a well-formed error is a
/// response with that error.
pub proof fn law_results_and_errors_make_responses(
    members: Map<Seq<char>, Json>,
    id: IdView,
    error: RpcErrorView,
)
    requires
        members.contains_key("jsonrpc"@) && members["jsonrpc"@] == Json::Text("2.0"@),
        members.contains_key("id"@) && writes_id(members["id"@], id),
        error.data != Some(Json::Null),
    ensures
        members.contains_key("result"@) ==> MessageView::read(Json::Object(members)) == Some(
            MessageView::Response(ResponseView { id, outcome: Ok(members["result"@]) }),
        ),
        !members.contains_key("result"@) && members.contains_key("error"@)
            && members["error"@] is Object && is_error(members["error"@]->Object_0, error)
            ==> MessageView::read(Json::Object(members)) == Some(
            MessageView::Response(ResponseView { id, outcome: Err(error) }),
        ),
{
    lemma_names_differ();
    assert(IdView::read(members["id"@]) == Some(id));
    if members.contains_key("error"@) && members["error"@] is Object && is_error(
        members["error"@]->Object_0,
        error,
    ) {
        assert(RpcErrorView::read(members["error"@]) == Some(error));
    }
}

/// What has a version and neither a result nor an error is a request with its
/// method, its parameters, and its id where it has one; a missing method is
/// empty.
pub proof fn law_methods_make_requests(members: Map<Seq<char>, Json>, request: RequestView)
    requires
        members.contains_key("jsonrpc"@) && members["jsonrpc"@] == Json::Text("2.0"@),
        !members.contains_key("result"@),
        !members.contains_key("error"@),
        members.contains_key("method"@) ==> members["method"@] == Json::Text(request.method),
        !members.contains_key("method"@) ==> request.method.len() == 0,
        members.contains_key("params"@) == request.params is Some,
        request.params matches Some(params) ==> members["params"@] == params,
        members.contains_key("id"@) == request.id is Some,
        request.id matches Some(id) ==> writes_id(members["id"@], id),
    ensures
        MessageView::read(Json::Object(members)) == Some(MessageView::Request(request)),
{
    lemma_names_differ();
    if request.id is Some {
        assert(IdView::read(members["id"@]) == request.id);
    }
    if !members.contains_key("method"@) {
        assert(request.method =~= Seq::<char>::empty());
    }
    let read = RequestView::read(Json::Object(members));
    assert(read is Some);
    assert(read->0.method == request.method && read->0.id == request.id && read->0.params
        == request.params);
}

/// What can be read as a response is one; only what cannot may be a request.
pub proof fn law_responses_come_before_requests(json: Json)
    ensures
        ResponseView::read(json) matches Some(response) ==> MessageView::read(json) == Some(
            MessageView::Response(response),
        ),
        ResponseView::read(json) is None && RequestView::read(json) is Some ==> MessageView::read(
            json,
        ) == Some(MessageView::Request(RequestView::read(json)->0)),
        ResponseView::read(json) is None && RequestView::read(json) is None ==> MessageView::read(
            json,
        ) is None,
{
}

/// An array of the version, the method, the parameters and the id, in this order
/// and as many of them as there are, is a request; a longer one is no message.
pub proof fn law_arrays_are_requests(items: Seq<Json>, request: RequestView)
    requires
        items.len() > 0,
        items[0] == Json::Text("2.0"@),
        items.len() > 1 ==> items[1] == Json::Text(request.method),
        items.len() <= 1 ==> request.method.len() == 0,
        items.len() > 2 ==> request.params == Some(items[2]),
        items.len() <= 2 ==> request.params is None,
        items.len() > 3 ==> request.id is Some && writes_id(items[3], request.id->0),
        items.len() <= 3 ==> request.id is None,
    ensures
        items.len() <= 4 ==> MessageView::read(Json::Array(items)) == Some(
            MessageView::Request(request),
        ),
        items.len() > 4 ==> MessageView::read(Json::Array(items)) is None,
{
    if items.len() <= 1 {
        assert(request.method =~= Seq::<char>::empty());
    }
    if items.len() == 4 {
        assert(IdView::read(items[3]) == request.id);
    }
    if items.len() <= 4 {
        let read = RequestView::read(Json::Array(items));
        assert(read is Some);
        assert(read->0.method == request.method && read->0.id == request.id && read->0.params
            == request.params);
    }
}

/// What is neither an object nor an array is no message; nor is an object that
/// does not say that it speaks this version, or whose id is no id.
pub proof fn law_what_is_no_message(json: Json)
    ensures
        !(json is Object) && !(json is Array) ==> MessageView::read(json) is None,
        json matches Json::Object(members) ==> {
            &&& !members.contains_key("jsonrpc"@) || members["jsonrpc"@] != Json::Text("2.0"@)
                ==> MessageView::read(json) is None
            &&& members.contains_key("id"@) && (forall|id: IdView|
                !#[trigger] writes_id(members["id"@], id)) ==> MessageView::read(json) is None
        },
{
    lemma_names_differ();
    if let Json::Object(members) = json {
        if members.contains_key("id"@) && IdView::read(members["id"@]) is Some {
            assert(writes_id(members["id"@], IdView::read(members["id"@])->0));
        }
    }
}

/// Views show all that their values hold.
pub proof fn law_messages_are_seen_whole(
    id: Id,
    request: Request,
    error: RpcError,
    response: Response,
    value: Value,
)
    ensures
        opt_json_of(Some(value)) == Some(json_of(value)),
        opt_json_of(None) is None,
        match id {
            Id::Number(number) => id@ == IdView::Number(number),
            Id::String(text) => id@ == IdView::String(text@),
            Id::Null => id@ is Null,
        },
        opt_id_view(Some(id)) == Some(id@),
        opt_id_view(None) is None,
        request@.method == request.method@,
        request@.id == opt_id_view(request.id),
        request@.params == opt_json_of(request.params),
        error@.code == error.code,
        error@.message == error.message@,
        error@.data == opt_json_of(error.data),
        outcome_view(Ok(value)) == Ok::<Json, RpcErrorView>(json_of(value)),
        outcome_view(Err(error)) == Err::<Json, RpcErrorView>(error@),
        response@.id == response.id@,
        response@.outcome == outcome_view(response.outcome),
        Message::Request(request)@ == MessageView::Request(request@),
        Message::Response(response)@ == MessageView::Response(response@),
{
}

/// A folder is seen by its URI and its name.
pub proof fn law_folders_are_seen_whole(folder: WorkspaceFolder, url: Url)
    ensures
        folder@.uri == url_text(folder.uri),
        folder@.name == folder.name@,
        opt_url_text(Some(url)) == Some(url_text(url)),
        opt_url_text(None) is None,
{
}

/// The JSON value is a list of one folder, with this URI and this name and
/// nothing else.
pub open spec fn lists_folder(json: Json, uri: Seq<char>, name: Seq<char>) -> bool {
    json matches Json::Array(items) && items.len() == 1 && items[0] == Json::Object(
        map!["uri"@ => Json::Text(uri), "name"@ => Json::Text(name)],
    )
}

/// The JSON value is a notification of changed folders, with the folders that
/// have come and those that have gone.
pub open spec fn announces(json: Json, added: Json, removed: Json) -> bool {
    let event = Json::Object(map!["added"@ => added, "removed"@ => removed]);
    json == Json::Object(
        map![
            "jsonrpc"@ => Json::Text("2.0"@),
            "method"@ => Json::Text("workspace/didChangeWorkspaceFolders"@),
            "params"@ => Json::Object(map!["event"@ => event]),
        ],
    )
}

/// The JSON value tells of one folder that has come, named by the last segment
/// of its URI, and of none that has gone.
pub open spec fn announces_added(json: Json, root: Seq<char>) -> bool {
    exists|added: Json, removed: Json|
        {
            &&& #[trigger] announces(json, added, removed)
            &&& lists_folder(added, root, last_segment(root))
            &&& removed == Json::Array(Seq::empty())
        }
}

/// The JSON value tells of one folder that has gone, without a name, and of none
/// that has come.
pub open spec fn announces_removed(json: Json, root: Seq<char>) -> bool {
    exists|added: Json, removed: Json|
        {
            &&& #[trigger] announces(json, added, removed)
            &&& lists_folder(removed, root, Seq::empty())
            &&& added == Json::Array(Seq::empty())
        }
}

/// Folders that come and go are announced by a notification that lists just them.
pub proof fn law_folder_changes_are_announced(root: Seq<char>)
    ensures
        announces_added(
            folder_change(seq![WorkspaceFolderView::named(root)], Seq::empty()).json(),
            root,
        ),
        announces_removed(
            folder_change(Seq::empty(), seq![WorkspaceFolderView::unnamed(root)]).json(),
            root,
        ),
{
    let named = WorkspaceFolderView::named(root);
    let unnamed = WorkspaceFolderView::unnamed(root);
    let none = WorkspaceFolderView::list_json(Seq::empty());
    assert(none->Array_0 =~= Seq::empty());
    let added = WorkspaceFolderView::list_json(seq![named]);
    let removed = WorkspaceFolderView::list_json(seq![unnamed]);
    assert(added->Array_0[0] == named.json());
    assert(removed->Array_0[0] == unnamed.json());
    assert(named.json()->Object_0 =~= map!["uri"@ => Json::Text(root), "name"@ => Json::Text(
        last_segment(root),
    )]);
    assert(unnamed.json()->Object_0 =~= map!["uri"@ => Json::Text(root), "name"@ => Json::Text(
        Seq::empty(),
    )]);
    let one = folder_change(seq![named], Seq::empty()).json();
    let two = folder_change(Seq::empty(), seq![unnamed]).json();
    assert(announces(one, added, none));
    assert(announces(two, none, removed));
    assert(lists_folder(added, root, last_segment(root)));
    assert(lists_folder(removed, root, Seq::empty()));
}

} // verus!
