//! Laws of the line protocol: how its messages are written, what goes to the
//! server, and who gets what the server says.

use crate::client_handler::{
    after_client_event, can_pass_on, folder_removed_json, id_or_zero, takes_id, told_to_server,
};
use crate::json::{json_of, opt_json_of, Json};
use crate::laws::workspaces::{has_company, is_alone, lemma_company, same_clients};
use crate::protocol::{
    notification_json, object, pairs_of, request_json, response_json, ClientId, ContentView,
    JsonRpcContent, JsonRpcMessage, LineEvent, LineEventView, ServerRequestId,
};
use crate::server_handler::{after_server_event, server_action, ServerAction, ServerActionView};
use crate::text::last_segment;
use crate::workspace_manager::Workspaces;
use serde_json::Value;
use vstd::prelude::*;

verus! {

/// The value, or `null` where there is none.
pub open spec fn value_or_null(value: Option<Json>) -> Json {
    match value {
        Some(json) => json,
        None => Json::Null,
    }
}

/// The JSON value is a request with this number, method and parameters, and with
/// nothing else.
pub open spec fn asks(json: Json, id: int, method: Seq<char>, params: Json) -> bool {
    json == Json::Object(
        map![
            "jsonrpc"@ => Json::Text("2.0"@),
            "id"@ => Json::Integer(id),
            "method"@ => Json::Text(method),
            "params"@ => params,
        ],
    )
}

/// The JSON value is a notification with this method and these parameters, and
/// with nothing else.
pub open spec fn notes(json: Json, method: Seq<char>, params: Json) -> bool {
    json == Json::Object(
        map![
            "jsonrpc"@ => Json::Text("2.0"@),
            "method"@ => Json::Text(method),
            "params"@ => params,
        ],
    )
}

/// The JSON value is a response with this number, result and error, and with
/// nothing else.
pub open spec fn replies(json: Json, id: int, result: Json, error: Json) -> bool {
    json == Json::Object(
        map![
            "jsonrpc"@ => Json::Text("2.0"@),
            "id"@ => Json::Integer(id),
            "result"@ => result,
            "error"@ => error,
        ],
    )
}

/// The JSON value tells that the folder with this root has gone: as a file, named
/// by the last segment of the root; and that none has come.
pub open spec fn tells_folder_gone(json: Json, root: Seq<char>) -> bool {
    let folder = Json::Object(
        map![
            "uri"@ => Json::Text("file://"@ + root),
            "name"@ => Json::Text(last_segment(root)),
        ],
    );
    let event = Json::Object(
        map!["added"@ => Json::Array(Seq::empty()), "removed"@ => Json::Array(seq![folder])],
    );
    notes(
        json,
        "workspace/didChangeWorkspaceFolders"@,
        Json::Object(map!["event"@ => event]),
    )
}

/// Messages are written with their parts and nothing else; a value that is
/// missing is `null`.
pub proof fn law_lines_are_written_whole(
    id: u64,
    method: Seq<char>,
    params: Option<Json>,
    value: Json,
    result: Option<Json>,
    error: Option<Json>,
)
    ensures
        asks(request_json(id, method, params), id as int, method, value_or_null(params)),
        notes(notification_json(method, value), method, value),
        replies(
            response_json(id, result, error),
            id as int,
            value_or_null(result),
            value_or_null(error),
        ),
{
    reveal_with_fuel(Json::members, 5);
    let version = ("jsonrpc"@, Json::Text("2.0"@));
    let number = ("id"@, Json::Integer(id as int));
    let name = ("method"@, Json::Text(method));
    let a = seq![version, number, name, ("params"@, value_or_null(params))];
    assert(a.drop_last() =~= seq![version, number, name]);
    assert(a.drop_last().drop_last() =~= seq![version, number]);
    assert(a.drop_last().drop_last().drop_last() =~= seq![version]);
    assert(seq![version].drop_last() =~= Seq::empty());
    assert(request_json(id, method, params)->Object_0 =~= map![
        "jsonrpc"@ => Json::Text("2.0"@),
        "id"@ => Json::Integer(id as int),
        "method"@ => Json::Text(method),
        "params"@ => value_or_null(params),
    ]);
    let b = seq![version, name, ("params"@, value)];
    assert(b.drop_last() =~= seq![version, name]);
    assert(b.drop_last().drop_last() =~= seq![version]);
    assert(notification_json(method, value)->Object_0 =~= map![
        "jsonrpc"@ => Json::Text("2.0"@),
        "method"@ => Json::Text(method),
        "params"@ => value,
    ]);
    let c = seq![
        version,
        number,
        ("result"@, value_or_null(result)),
        ("error"@, value_or_null(error)),
    ];
    assert(c.drop_last() =~= seq![version, number, ("result"@, value_or_null(result))]);
    assert(c.drop_last().drop_last() =~= seq![version, number]);
    assert(response_json(id, result, error)->Object_0 =~= map![
        "jsonrpc"@ => Json::Text("2.0"@),
        "id"@ => Json::Integer(id as int),
        "result"@ => value_or_null(result),
        "error"@ => value_or_null(error),
    ]);
}

/// The notification that a folder has gone lists just that folder.
pub proof fn law_folder_gone_is_told(root: Seq<char>)
    ensures
        tells_folder_gone(folder_removed_json(root), root),
{
    reveal_with_fuel(Json::members, 3);
    let uri = ("uri"@, Json::Text("file://"@ + root));
    let name = ("name"@, Json::Text(last_segment(root)));
    assert(seq![uri, name].drop_last() =~= seq![uri]);
    assert(seq![uri].drop_last() =~= Seq::empty());
    let folder = object(seq![uri, name]);
    assert(folder->Object_0 =~= map![
        "uri"@ => Json::Text("file://"@ + root),
        "name"@ => Json::Text(last_segment(root)),
    ]);
    let added = ("added"@, Json::Array(Seq::<Json>::empty()));
    let removed = ("removed"@, Json::Array(seq![folder]));
    assert(seq![added, removed].drop_last() =~= seq![added]);
    assert(seq![added].drop_last() =~= Seq::empty());
    let event = object(seq![added, removed]);
    assert(event->Object_0 =~= map![
        "added"@ => Json::Array(Seq::empty()),
        "removed"@ => Json::Array(seq![folder]),
    ]);
    assert(seq![("event"@, event)].drop_last() =~= Seq::empty());
    let params = object(seq![("event"@, event)]);
    assert(params->Object_0 =~= map!["event"@ => event]);
    law_lines_are_written_whole(
        0,
        "workspace/didChangeWorkspaceFolders"@,
        None,
        params,
        None,
        None,
    );
}

/// The number that a JSON value is, where it is one of 64 bits without a sign.
pub open spec fn number_of(json: Json) -> Option<u64> {
    match json {
        Json::Integer(n) => if 0 <= n <= u64::MAX {
            Some(n as u64)
        } else {
            None
        },
        _ => None,
    }
}

/// A request of a client that is known, while a server runs that can be written
/// to, goes to the server under the next id, with its method and its parameters;
/// it waits under that id for the client, under the client's own number, 0 where
/// it gave none. Nothing else changes.
pub proof fn law_requests_are_passed_on<P>(
    state: Workspaces<P>,
    client: ClientId,
    id: Json,
    method: Seq<char>,
    params: Option<Json>,
    other: ServerRequestId,
)
    requires
        state.clients.contains_key(client),
        state.server is Some,
        state.next_server_request_id < ServerRequestId::MAX,
    ensures
        ({
            let event = LineEventView::Line(Some(ContentView::Request { id, method, params }));
            let next = state.next_server_request_id;
            let after = after_client_event(state, client, event, true);
            &&& takes_id(state, client, event, true)
            &&& told_to_server(state, client, event, true) matches Some(json)
            &&& asks(json, next as int, method, value_or_null(params))
            &&& after.requests.contains_key(next)
            &&& after.requests[next].0 == client
            &&& number_of(id) matches Some(number) ==> after.requests[next].1 == number
            &&& number_of(id) is None ==> after.requests[next].1 == 0
            &&& after.next_server_request_id == next + 1
            &&& other != next ==> {
                &&& after.requests.contains_key(other) == state.requests.contains_key(other)
                &&& after.requests.contains_key(other) ==> after.requests[other]
                    == state.requests[other]
            }
            &&& same_clients(after, state)
            &&& after.server == state.server
            &&& after.roots == state.roots
        }),
{
    law_lines_are_written_whole(
        state.next_server_request_id,
        method,
        params,
        Json::Null,
        None,
        None,
    );
}

/// A notification of a client that is known, while a server runs that can be
/// written to, goes to the server with its method and its parameters; nothing
/// changes.
pub proof fn law_notifications_are_passed_on<P>(
    state: Workspaces<P>,
    client: ClientId,
    method: Seq<char>,
    params: Option<Json>,
)
    requires
        state.clients.contains_key(client),
        state.server is Some,
    ensures
        ({
            let event = LineEventView::Line(Some(ContentView::Notification { method, params }));
            &&& told_to_server(state, client, event, true) matches Some(json)
            &&& notes(json, method, value_or_null(params))
            &&& after_client_event(state, client, event, true) == state
            &&& !takes_id(state, client, event, true)
        }),
{
    law_lines_are_written_whole(0, method, params, value_or_null(params), None, None);
}

/// The responses of a client and lines that are no messages go to nobody and
/// change nothing. Nor does any line where the client is not known, no server
/// runs, or the server cannot be written to.
pub proof fn law_other_lines_come_to_nothing<P>(
    state: Workspaces<P>,
    client: ClientId,
    line: Option<ContentView>,
    stdin_open: bool,
)
    requires
        !state.clients.contains_key(client) || state.server is None || !stdin_open || line is None
            || line->0 is Response,
    ensures
        told_to_server(state, client, LineEventView::Line(line), stdin_open) is None,
        after_client_event(state, client, LineEventView::Line(line), stdin_open) == state,
        !takes_id(state, client, LineEventView::Line(line), stdin_open),
{
}

/// A client that has closed its connection, or can no longer be read, is removed.
/// While others stay, the server that runs and can be written to is told that the
/// client's folder has gone; the last client leaves nobody to tell.
pub proof fn law_client_that_ends_is_removed<P>(
    state: Workspaces<P>,
    client: ClientId,
    event: LineEventView,
    stdin_open: bool,
)
    requires
        event is Closed || event is Failed,
    ensures
        after_client_event(state, client, event, stdin_open) == state.remove(client),
        has_company(state, client) && state.server is Some && stdin_open ==> (told_to_server(
            state,
            client,
            event,
            stdin_open,
        ) matches Some(json) && tells_folder_gone(json, state.clients[client].workspace_root)),
        is_alone(state, client) || !state.clients.contains_key(client) || state.server is None
            || !stdin_open ==> told_to_server(state, client, event, stdin_open) is None,
        !takes_id(state, client, event, stdin_open),
{
    lemma_company(state, client);
    law_folder_gone_is_told(state.clients[client].workspace_root);
}

/// The server's answer to a request that waits, with its result and its error,
/// goes to the client that asked, under the number that the client gave, and the
/// request waits no longer; an answer that nobody waits for goes to nobody.
/// Nothing else changes.
pub proof fn law_answers_go_to_who_asked<P>(
    state: Workspaces<P>,
    id: Json,
    result: Option<Json>,
    error: Option<Json>,
    other: ServerRequestId,
)
    ensures
        ({
            let event = LineEventView::Line(Some(ContentView::Response { id, result, error }));
            let after = after_server_event(state, event);
            let action = server_action(state, event);
            match number_of(id) {
                Some(number) => {
                    &&& state.requests.contains_key(number) ==> {
                        &&& action matches ServerActionView::Reply(client, json)
                        &&& client == state.requests[number].0
                        &&& replies(
                            json,
                            state.requests[number].1 as int,
                            value_or_null(result),
                            value_or_null(error),
                        )
                    }
                    &&& !state.requests.contains_key(number) ==> action is Nothing
                    &&& !after.requests.contains_key(number)
                    &&& other != number ==> {
                        &&& after.requests.contains_key(other) == state.requests.contains_key(other)
                        &&& after.requests.contains_key(other) ==> after.requests[other]
                            == state.requests[other]
                    }
                    &&& after.next_server_request_id == state.next_server_request_id
                    &&& same_clients(after, state)
                    &&& after.server == state.server
                    &&& after.roots == state.roots
                },
                None => action is Nothing && after == state,
            }
        }),
{
    if let Some(number) = number_of(id) {
        if state.requests.contains_key(number) {
            law_lines_are_written_whole(
                state.requests[number].1,
                Seq::empty(),
                None,
                Json::Null,
                result,
                error,
            );
        }
    }
}

/// A notification of the server goes to all, with its method and its parameters;
/// its requests, and lines that are no messages, go to nobody. Its end, and a line
/// that cannot be read, stop it. None of this changes anything.
pub proof fn law_notifications_go_to_all<P>(
    state: Workspaces<P>,
    id: Json,
    method: Seq<char>,
    params: Option<Json>,
)
    ensures
        ({
            let note = LineEventView::Line(Some(ContentView::Notification { method, params }));
            let request = LineEventView::Line(Some(ContentView::Request { id, method, params }));
            let noise = LineEventView::Line(None);
            &&& server_action(state, note) matches ServerActionView::Broadcast(json)
            &&& notes(json, method, value_or_null(params))
            &&& server_action(state, request) is Nothing
            &&& server_action(state, noise) is Nothing
            &&& server_action(state, LineEventView::Closed) is Stop
            &&& server_action(state, LineEventView::Failed) is Stop
            &&& after_server_event(state, note) == state
            &&& after_server_event(state, request) == state
            &&& after_server_event(state, noise) == state
            &&& after_server_event(state, LineEventView::Closed) == state
            &&& after_server_event(state, LineEventView::Failed) == state
        }),
{
    law_lines_are_written_whole(0, method, params, value_or_null(params), None, None);
}

/// Numbers are kept as they are, and what is no number counts as 0.
pub proof fn law_ids_of_clients_are_kept(id: Json)
    ensures
        number_of(id) matches Some(number) ==> id_or_zero(id) == number,
        number_of(id) is None ==> id_or_zero(id) == 0,
{
}

/// A message can be passed on for a client that is known, while a server runs that
/// can be written to, and not otherwise.
pub proof fn law_what_can_be_passed_on<P>(
    state: Workspaces<P>,
    client: ClientId,
    stdin_open: bool,
)
    ensures
        can_pass_on(state, client, stdin_open) <==> {
            &&& state.clients.contains_key(client)
            &&& state.server is Some
            &&& stdin_open
        },
{
}

/// Messages, events and actions are seen as what they are, with all that the
/// protocol reads of them.
pub proof fn law_lines_are_seen_whole(
    value: Value,
    method: String,
    one: Option<Value>,
    two: Option<Value>,
    message: JsonRpcMessage,
    client: ClientId,
    pairs: Seq<(String, Value)>,
    i: int,
)
    ensures
        (JsonRpcContent::Request { id: value, method, params: one })@ == (ContentView::Request {
            id: json_of(value),
            method: method@,
            params: opt_json_of(one),
        }),
        (JsonRpcContent::Response { id: value, result: one, error: two })@
            == (ContentView::Response {
            id: json_of(value),
            result: opt_json_of(one),
            error: opt_json_of(two),
        }),
        (JsonRpcContent::Notification { method, params: one })@ == (ContentView::Notification {
            method: method@,
            params: opt_json_of(one),
        }),
        LineEvent::Closed@ is Closed,
        LineEvent::Failed@ is Failed,
        LineEvent::Line(None)@ == LineEventView::Line(None),
        LineEvent::Line(Some(message))@ == LineEventView::Line(Some(message.content@)),
        ServerAction::Stop@ is Stop,
        ServerAction::Nothing@ is Nothing,
        ServerAction::Reply(client, value)@ == ServerActionView::Reply(client, json_of(value)),
        ServerAction::Broadcast(value)@ == ServerActionView::Broadcast(json_of(value)),
        pairs_of(pairs).len() == pairs.len(),
        0 <= i < pairs.len() ==> pairs_of(pairs)[i] == (pairs[i].0@, json_of(pairs[i].1)),
{
}

} // verus!
