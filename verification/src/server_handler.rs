//! What the server of the line protocol sets off: its responses go back to the
//! clients that asked, and its notifications to all.

use crate::json::{json_of, value_as_u64, value_or_null, Json};
use crate::protocol::{
    notification_json, notification_value, response_json, response_value, ClientId, ContentView,
    JsonRpcContent, LineEvent, LineEventView,
};
use crate::workspace_manager::{WorkspaceManager, Workspaces};
use serde_json::Value;
use vstd::prelude::*;

verus! {

/// What is left to do after an event of the server.
#[derive(Debug, PartialEq)]
pub enum ServerAction {
    /// The server needs no more attention.
    Stop,
    /// Nothing.
    Nothing,
    /// Send this to the client that asked.
    Reply(ClientId, Value),
    /// Send this to all clients.
    Broadcast(Value),
}

pub enum ServerActionView {
    Stop,
    Nothing,
    Reply(ClientId, Json),
    Broadcast(Json),
}

impl View for ServerAction {
    type V = ServerActionView;

    open spec fn view(&self) -> ServerActionView {
        match self {
            ServerAction::Stop => ServerActionView::Stop,
            ServerAction::Nothing => ServerActionView::Nothing,
            ServerAction::Reply(client, value) => ServerActionView::Reply(*client, json_of(*value)),
            ServerAction::Broadcast(value) => ServerActionView::Broadcast(json_of(*value)),
        }
    }
}

/// The state after an event of the server: a request that has been answered no
/// longer waits.
pub open spec fn after_server_event<P>(state: Workspaces<P>, event: LineEventView) -> Workspaces<P> {
    match event {
        LineEventView::Line(
            Some(ContentView::Response { id: Json::Integer(n), result: _, error: _ }),
        ) => if 0 <= n <= u64::MAX {
            state.unmap_request(n as u64)
        } else {
            state
        },
        _ => state,
    }
}

/// What is left to do after an event of the server: a response goes to the client
/// that asked, under the id that the client gave; a notification to all.
pub open spec fn server_action<P>(state: Workspaces<P>, event: LineEventView) -> ServerActionView {
    match event {
        LineEventView::Closed | LineEventView::Failed => ServerActionView::Stop,
        LineEventView::Line(
            Some(ContentView::Response { id: Json::Integer(n), result, error }),
        ) => if 0 <= n <= u64::MAX && state.mapping(n as u64) is Some {
            let (client, request_id) = state.mapping(n as u64)->0;
            ServerActionView::Reply(client, response_json(request_id, result, error))
        } else {
            ServerActionView::Nothing
        },
        LineEventView::Line(
            Some(ContentView::Notification { method, params }),
        ) => ServerActionView::Broadcast(notification_json(method, Json::or_null(params))),
        LineEventView::Line(_) => ServerActionView::Nothing,
    }
}

/// Handles an event of the server.
pub fn handle_server_event<P>(manager: &mut WorkspaceManager<P>, event: LineEvent) -> (action:
    ServerAction)
    ensures
        final(manager)@ == after_server_event(old(manager)@, event@),
        action@ == server_action(old(manager)@, event@),
        old(manager)@.inv() ==> final(manager)@.inv(),
{
    match event {
        LineEvent::Closed => ServerAction::Stop,
        LineEvent::Failed => ServerAction::Stop,
        LineEvent::Line(None) => ServerAction::Nothing,
        LineEvent::Line(Some(message)) => match message.content {
            JsonRpcContent::Response { id, result, error } => match value_as_u64(id) {
                Ok(server_id) => match manager.get_request_mapping(&server_id) {
                    Some((client_id, request_id)) => ServerAction::Reply(
                        client_id,
                        response_value(request_id, result, error),
                    ),
                    None => ServerAction::Nothing,
                },
                Err(_) => ServerAction::Nothing,
            },
            JsonRpcContent::Notification { method, params } => ServerAction::Broadcast(
                notification_value(method, value_or_null(params)),
            ),
            JsonRpcContent::Request { .. } => ServerAction::Nothing,
        },
    }
}

} // verus!
