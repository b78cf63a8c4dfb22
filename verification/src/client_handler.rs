//! What a client of the line protocol sets off: its requests go to the server
//! under ids of their own, and its departure is announced.

use crate::json::{array_value, json_of, json_text, object_value, print_json, string_value};
use crate::json::{value_as_u64, value_or_null, Json};
use crate::protocol::{
    notification_json, notification_value, object, pairs_of, request_json, request_value, ClientId,
    ContentView, JsonRpcContent, LineEvent, LineEventView, RequestId, ServerRequestId,
};
use crate::text::{last_segment, last_segment_of};
use crate::workspace_manager::{WorkspaceManager, Workspaces};
use serde_json::Value;
use vstd::prelude::*;
use vstd::string::StringExecFns;

verus! {

/// What is left to do after an event of a client.
#[derive(Debug, PartialEq)]
pub struct ClientOutcome<P> {
    /// The line that is to be written to the server.
    pub line: Option<String>,
    /// The server that is to be stopped.
    pub stopped: Option<P>,
    /// Whether this client needs no more attention.
    pub done: bool,
}

/// The folder with this root as JSON: named by the last segment of the root.
pub open spec fn folder_json(root: Seq<char>) -> Json {
    object(
        seq![("uri"@, Json::Text("file://"@ + root)), ("name"@, Json::Text(last_segment(root)))],
    )
}

/// The notification that the folder with this root has gone, as JSON.
pub open spec fn folder_removed_json(root: Seq<char>) -> Json {
    let event = object(
        seq![
            ("added"@, Json::Array(Seq::empty())),
            ("removed"@, Json::Array(seq![folder_json(root)])),
        ],
    );
    notification_json("workspace/didChangeWorkspaceFolders"@, object(seq![("event"@, event)]))
}

/// The id of a request as a number: 0 where it is none.
pub open spec fn id_or_zero(id: Json) -> RequestId {
    match id {
        Json::Integer(n) => if 0 <= n <= u64::MAX {
            n as u64
        } else {
            0
        },
        _ => 0,
    }
}

/// A message of this client can be passed on: the client is known, and there is
/// a server to write to.
pub open spec fn can_pass_on<P>(state: Workspaces<P>, client_id: ClientId, stdin_open: bool) -> bool {
    state.clients.contains_key(client_id) && state.server is Some && stdin_open
}

/// An event of a client is a request that is passed on, under the next id.
pub open spec fn takes_id<P>(
    state: Workspaces<P>,
    client_id: ClientId,
    event: LineEventView,
    stdin_open: bool,
) -> bool {
    event matches LineEventView::Line(Some(content)) && content is Request && can_pass_on(
        state,
        client_id,
        stdin_open,
    )
}

/// The state after an event of a client: it is removed when it has closed its
/// connection, and when it can no longer be read.
pub open spec fn after_client_event<P>(
    state: Workspaces<P>,
    client_id: ClientId,
    event: LineEventView,
    stdin_open: bool,
) -> Workspaces<P> {
    match event {
        LineEventView::Closed | LineEventView::Failed => state.remove(client_id),
        LineEventView::Line(Some(ContentView::Request { id, method: _, params: _ })) => if can_pass_on(
            state,
            client_id,
            stdin_open,
        ) {
            state.next_request().map_request(
                state.next_server_request_id,
                client_id,
                id_or_zero(id),
            )
        } else {
            state
        },
        LineEventView::Line(_) => state,
    }
}

/// What the server is told after an event of a client.
pub open spec fn told_to_server<P>(
    state: Workspaces<P>,
    client_id: ClientId,
    event: LineEventView,
    stdin_open: bool,
) -> Option<Json> {
    match event {
        LineEventView::Closed | LineEventView::Failed => if state.clients.contains_key(client_id)
            && state.remove(client_id).server is Some && stdin_open {
            Some(folder_removed_json(state.clients[client_id].workspace_root))
        } else {
            None
        },
        LineEventView::Line(Some(content)) => if can_pass_on(state, client_id, stdin_open) {
            match content {
                ContentView::Request { id: _, method, params } => Some(
                    request_json(state.next_server_request_id, method, params),
                ),
                ContentView::Notification { method, params } => Some(
                    notification_json(method, Json::or_null(params)),
                ),
                ContentView::Response { .. } => None,
            }
        } else {
            None
        },
        LineEventView::Line(None) => None,
    }
}

/// The notification that the folder with this root has gone.
pub fn folder_removed_value(root: &String) -> (value: Value)
    ensures
        json_of(value) == folder_removed_json(root@),
{
    let mut uri = "file://".to_owned();
    uri.append(root.as_str());
    let folder = vec![
        ("uri".to_owned(), string_value(uri)),
        ("name".to_owned(), string_value(last_segment_of(root.as_str()))),
    ];
    assert(pairs_of(folder@) =~= seq![
        ("uri"@, Json::Text("file://"@ + root@)),
        ("name"@, Json::Text(last_segment(root@))),
    ]);
    let none: Vec<Value> = Vec::new();
    assert(none@.map_values(|item: Value| json_of(item)) =~= Seq::empty());
    let removed = vec![object_value(folder)];
    assert(removed@.map_values(|item: Value| json_of(item)) =~= seq![folder_json(root@)]);
    let event = vec![
        ("added".to_owned(), array_value(none)),
        ("removed".to_owned(), array_value(removed)),
    ];
    assert(pairs_of(event@) =~= seq![
        ("added"@, Json::Array(Seq::empty())),
        ("removed"@, Json::Array(seq![folder_json(root@)])),
    ]);
    let params = vec![("event".to_owned(), object_value(event))];
    assert(pairs_of(params@) =~= seq![
        (
            "event"@,
            object(
                seq![
                    ("added"@, Json::Array(Seq::empty())),
                    ("removed"@, Json::Array(seq![folder_json(root@)])),
                ],
            ),
        ),
    ]);
    notification_value("workspace/didChangeWorkspaceFolders".to_owned(), object_value(params))
}

/// Handles an event of a client. `stdin_open` says whether the server, where one
/// runs, can be written to.
pub fn handle_client_event<P>(
    manager: &mut WorkspaceManager<P>,
    client_id: ClientId,
    event: LineEvent,
    stdin_open: bool,
) -> (outcome: ClientOutcome<P>)
    requires
        takes_id(old(manager)@, client_id, event@, stdin_open)
            ==> old(manager)@.next_server_request_id < ServerRequestId::MAX,
    ensures
        final(manager)@ == after_client_event(old(manager)@, client_id, event@, stdin_open),
        match told_to_server(old(manager)@, client_id, event@, stdin_open) {
            Some(json) => outcome.line matches Some(line) && line@ == json_text(json),
            None => outcome.line is None,
        },
        outcome.stopped == (if event is Line {
            None
        } else {
            old(manager)@.stopped_by(client_id)
        }),
        outcome.done == !(event is Line),
        old(manager)@.inv() ==> final(manager)@.inv(),
{
    match event {
        LineEvent::Closed | LineEvent::Failed => {
            let (root, stopped) = manager.remove_client(client_id);
            let line = match root {
                Some(root) => if stdin_open && !manager.needs_server() {
                    Some(print_json(&folder_removed_value(&root)).unwrap())
                } else {
                    None
                },
                None => None,
            };
            ClientOutcome { line, stopped, done: true }
        },
        LineEvent::Line(None) => ClientOutcome { line: None, stopped: None, done: false },
        LineEvent::Line(Some(message)) => {
            let known = manager.get_client_state(client_id).is_some();
            if known && !manager.needs_server() && stdin_open {
                match message.content {
                    JsonRpcContent::Request { id, method, params } => {
                        let server_id = manager.get_next_server_request_id();
                        let request = request_value(server_id, method, params);
                        let request_id: RequestId = match value_as_u64(id) {
                            Ok(number) => number,
                            Err(_) => 0,
                        };
                        manager.map_request(server_id, client_id, request_id);
                        let line = print_json(&request).unwrap();
                        ClientOutcome { line: Some(line), stopped: None, done: false }
                    },
                    JsonRpcContent::Notification { method, params } => {
                        let notification = notification_value(method, value_or_null(params));
                        let line = print_json(&notification).unwrap();
                        ClientOutcome { line: Some(line), stopped: None, done: false }
                    },
                    _ => ClientOutcome { line: None, stopped: None, done: false },
                }
            } else {
                ClientOutcome { line: None, stopped: None, done: false }
            }
        },
    }
}

} // verus!
