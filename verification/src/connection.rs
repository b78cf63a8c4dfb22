//! The connection of one client: what comes of each message, of input that
//! cannot be read, and of the end.

use crate::json::json_of;
use crate::multiplexer::{
    ClientStep, ClientStepView, ManagerError, Mux, RemoveStep, RemoveStepView, WorkspaceManager,
};
use crate::routing::{feasible, run, Event};
use crate::rpc::{Message, MessageView};
use crate::ClientId;
use serde_json::Value;
use vstd::prelude::*;

verus! {

/// What comes of waiting for the next message of a client.
#[derive(Debug, PartialEq)]
pub enum ConnectionEvent {
    /// A message.
    Received(Message),
    /// JSON that is no message.
    Unrecognized,
    /// What has arrived is not even JSON in a frame.
    Broken,
    /// The client has closed the connection.
    Closed,
}

pub enum ConnectionEventView {
    Received(MessageView),
    Unrecognized,
    Broken,
    Closed,
}

impl View for ConnectionEvent {
    type V = ConnectionEventView;

    open spec fn view(&self) -> ConnectionEventView {
        match self {
            ConnectionEvent::Received(message) => ConnectionEventView::Received(message@),
            ConnectionEvent::Unrecognized => ConnectionEventView::Unrecognized,
            ConnectionEvent::Broken => ConnectionEventView::Broken,
            ConnectionEvent::Closed => ConnectionEventView::Closed,
        }
    }
}

impl ConnectionEventView {
    /// The event is an `initialize` that nobody could answer.
    pub open spec fn lacks_id(self) -> bool {
        self matches ConnectionEventView::Received(message)
            && message matches MessageView::Request(request) && request.method == "initialize"@
            && request.id is None
    }
}

/// How the connection goes on.
#[derive(Debug, PartialEq)]
pub enum ConnectionStep<P> {
    /// Do this, and wait for the next message.
    Go(ClientStep),
    /// The client has left: do this, and end the connection.
    Leave(RemoveStep<P>),
    /// The client has been removed: do this, and end the connection.
    Fail(ManagerError, RemoveStep<P>),
}

pub enum ConnectionStepView<P> {
    Go(ClientStepView),
    Leave(RemoveStepView<P>),
    Fail(ManagerError, RemoveStepView<P>),
}

impl<P> View for ConnectionStep<P> {
    type V = ConnectionStepView<P>;

    open spec fn view(&self) -> ConnectionStepView<P> {
        match self {
            ConnectionStep::Go(step) => ConnectionStepView::Go(step@),
            ConnectionStep::Leave(step) => ConnectionStepView::Leave(step@),
            ConnectionStep::Fail(error, step) => ConnectionStepView::Fail(*error, step@),
        }
    }
}

impl<P, S> Mux<P, S> {
    /// How the connection of a client goes on: its requests are handled, and its
    /// responses are ignored. A request that is refused, what cannot be read,
    /// and the end of the connection each remove the client.
    pub open spec fn connection_step(
        self,
        id: ClientId,
        event: ConnectionEventView,
    ) -> ConnectionStepView<P> {
        match event {
            ConnectionEventView::Received(MessageView::Request(request)) => match self.client_step(
                id,
                request,
            ) {
                Ok(step) => ConnectionStepView::Go(step),
                Err(error) => ConnectionStepView::Fail(
                    error,
                    self.after_client(id, request).farewell(id),
                ),
            },
            ConnectionEventView::Received(MessageView::Response(_)) => ConnectionStepView::Go(
                ClientStepView::Ignored,
            ),
            ConnectionEventView::Unrecognized => ConnectionStepView::Fail(
                ManagerError::InvalidRequest,
                self.farewell(id),
            ),
            ConnectionEventView::Broken => ConnectionStepView::Fail(
                ManagerError::InvalidInput,
                self.farewell(id),
            ),
            ConnectionEventView::Closed => match self.removal(id) {
                Ok(step) => ConnectionStepView::Leave(step),
                Err(error) => ConnectionStepView::Fail(error, self.farewell(id)),
            },
        }
    }

    /// The state after an event on the connection of a client.
    pub open spec fn after_connection(self, id: ClientId, event: ConnectionEventView) -> Mux<P, S> {
        match event {
            ConnectionEventView::Received(MessageView::Request(request)) => {
                if self.client_step(id, request) is Err {
                    self.after_client(id, request).gone(id)
                } else {
                    self.after_client(id, request)
                }
            },
            ConnectionEventView::Received(MessageView::Response(_)) => self,
            ConnectionEventView::Unrecognized | ConnectionEventView::Broken
            | ConnectionEventView::Closed => self.gone(id),
        }
    }
}

impl ConnectionEvent {
    /// The event that a JSON value is which a client has sent.
    pub fn from_value(value: Value) -> (event: ConnectionEvent)
        ensures
            event@ == (match MessageView::read(json_of(value)) {
                Some(message) => ConnectionEventView::Received(message),
                None => ConnectionEventView::Unrecognized,
            }),
    {
        match Message::from_value(value) {
            Ok(message) => ConnectionEvent::Received(message),
            Err(_) => ConnectionEvent::Unrecognized,
        }
    }

    /// Whether the event is an `initialize` that nobody could answer.
    pub fn lacks_id(&self) -> (lacks: bool)
        ensures
            lacks == self@.lacks_id(),
    {
        match self {
            ConnectionEvent::Received(Message::Request(request)) => request.id.is_none()
                && request.method == "initialize".to_owned(),
            _ => false,
        }
    }
}

impl<P, S> WorkspaceManager<P, S> {
    /// Handles an event on the connection of a client.
    pub fn handle_connection_event(&mut self, client_id: ClientId, event: ConnectionEvent) -> (step:
        ConnectionStep<P>)
        requires
            !event@.lacks_id(),
        ensures
            step@ == old(self)@.connection_step(client_id, event@),
            final(self)@ == old(self)@.after_connection(client_id, event@),
            old(self)@.inv() ==> final(self)@.inv(),
    {
        match event {
            ConnectionEvent::Received(Message::Request(request)) => match self.handle_client_message(
                client_id,
                request,
            ) {
                Ok(step) => ConnectionStep::Go(step),
                Err(error) => ConnectionStep::Fail(error, self.dismiss(client_id)),
            },
            ConnectionEvent::Received(Message::Response(_)) => ConnectionStep::Go(
                ClientStep::Ignored,
            ),
            ConnectionEvent::Unrecognized => ConnectionStep::Fail(
                ManagerError::InvalidRequest,
                self.dismiss(client_id),
            ),
            ConnectionEvent::Broken => ConnectionStep::Fail(
                ManagerError::InvalidInput,
                self.dismiss(client_id),
            ),
            ConnectionEvent::Closed => match self.remove_client(client_id) {
                Ok(step) => ConnectionStep::Leave(step),
                Err(error) => ConnectionStep::Fail(error, RemoveStep::Nothing),
            },
        }
    }
}

/// A connection goes on, or its client is gone: however a connection ends, the
/// client is no longer registered.
pub proof fn law_ended_connection_leaves_no_client<P, S>(
    mux: Mux<P, S>,
    id: ClientId,
    event: ConnectionEventView,
)
    ensures
        mux.connection_step(id, event) is Go || !mux.after_connection(
            id,
            event,
        ).clients.contains_key(id),
{
}

/// Whatever happens on the connection of one client, every other keeps its
/// channel and its root, and the server goes on.
pub proof fn law_connection_disturbs_no_other_client<P, S>(
    mux: Mux<P, S>,
    id: ClientId,
    event: ConnectionEventView,
    other: ClientId,
)
    requires
        other != id,
    ensures
        ({
            let after = mux.after_connection(id, event);
            &&& after.clients.contains_key(other) == mux.clients.contains_key(other)
            &&& mux.clients.contains_key(other) ==> after.clients[other] == mux.clients[other]
            &&& mux.clients.contains_key(other) ==> after.server == mux.server
        }),
{
    if mux.clients.contains_key(other) {
        assert(mux.clients.remove(id).dom().contains(other));
        if let ConnectionEventView::Received(MessageView::Request(request)) = event {
            let noted = mux.after_client(id, request);
            assert(noted.clients.remove(id).dom().contains(other));
        }
    }
}

/// What an event on the connection of a client comes to in the multiplexer: a
/// request is handled, and where the connection ends the client disconnects.
pub open spec fn routed<P, S>(mux: Mux<P, S>, id: ClientId, event: ConnectionEventView) -> Seq<
    Event<P, S>,
> {
    match event {
        ConnectionEventView::Received(MessageView::Request(request)) => if mux.client_step(
            id,
            request,
        ) is Err {
            seq![Event::FromClient(id, request), Event::Disconnect(id)]
        } else {
            seq![Event::FromClient(id, request)]
        },
        ConnectionEventView::Received(MessageView::Response(_)) => Seq::empty(),
        _ => seq![Event::Disconnect(id)],
    }
}

/// What happens on connections is made of the events of the multiplexer, and so
/// what holds whatever these are holds of connections.
pub proof fn law_connections_are_routed<P, S>(
    mux: Mux<P, S>,
    id: ClientId,
    event: ConnectionEventView,
)
    ensures
        run(mux, routed(mux, id, event)) == mux.after_connection(id, event),
        feasible(mux, routed(mux, id, event)),
{
    reveal_with_fuel(run, 3);
    reveal_with_fuel(feasible, 3);
    let events = routed(mux, id, event);
    if events.len() == 2 {
        assert(events.drop_last() =~= seq![events[0]]);
        assert(events.drop_last().drop_last() =~= Seq::empty());
    } else if events.len() == 1 {
        assert(events.drop_last() =~= Seq::empty());
    }
}

} // verus!
