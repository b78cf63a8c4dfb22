//! Laws of the connection of one client: what it sends is done, and however it
//! ends, the client is gone.

use crate::connection::{
    ConnectionEvent, ConnectionEventView, ConnectionStep, ConnectionStepView,
};
use crate::json::Json;
use crate::laws::messages::announces_added;
use crate::laws::multiplexing::{
    is_ordinary, law_exit_and_shutdown_come_to_nothing, law_initialize_is_handled,
    law_notifications_are_passed_on, law_requests_are_passed_on,
    law_root_starts_or_extends_the_server, params_of,
};
use crate::lsp::initialize_root;
use crate::multiplexer::{
    ClientStep, ClientStepView, InitializeStepView, ManagerError, Mux, RemoveStep,
};
use crate::rpc::{IdView, Message, MessageView, RequestView, ResponseView};
use crate::ClientId;
use vstd::prelude::*;

verus! {

/// A request that a connection receives is handled: where handling it gives a
/// step, the connection goes on with exactly that step; where it is refused, the
/// connection ends with that error, and the client is gone.
pub proof fn law_requests_are_handled_on_connections<P, S>(
    mux: Mux<P, S>,
    client: ClientId,
    request: RequestView,
)
    ensures
        ({
            let event = ConnectionEventView::Received(MessageView::Request(request));
            let handled = mux.after_client(client, request);
            match mux.client_step(client, request) {
                Ok(step) => {
                    &&& mux.connection_step(client, event) == ConnectionStepView::<P>::Go(step)
                    &&& mux.after_connection(client, event) == handled
                },
                Err(error) => {
                    &&& mux.connection_step(client, event) == ConnectionStepView::Fail(
                        error,
                        handled.farewell(client),
                    )
                    &&& mux.after_connection(client, event) == handled.gone(client)
                },
            }
        }),
{
}

/// An `initialize` with a root, from a client that is registered, is answered
/// under the client's own id. Where no server runs, one is started first, and
/// handed `initialize` under the id 0 with the client's parameters; where one
/// runs, it is told first of the client's folder. The root is noted.
pub proof fn law_initialize_starts_or_extends_the_server<P, S>(
    mux: Mux<P, S>,
    client: ClientId,
    id: IdView,
    params: Option<Json>,
    root: Seq<char>,
)
    requires
        mux.clients.contains_key(client),
        initialize_root(
            match params {
                Some(json) => json,
                None => Json::Null,
            },
        ) == Some(Some(root)),
    ensures
        ({
            let request = RequestView { method: "initialize"@, id: Some(id), params };
            let event = ConnectionEventView::Received(MessageView::Request(request));
            let step = mux.connection_step(client, event);
            let after = mux.after_connection(client, event);
            &&& mux.server is None ==> step == ConnectionStepView::<P>::Go(
                ClientStepView::Initialize(
                    id,
                    InitializeStepView::Launch(
                        RequestView {
                            method: "initialize"@,
                            id: Some(IdView::Number(0)),
                            params: Some(params_of(request)),
                        }.json(),
                    ),
                ),
            )
            &&& mux.server is Some ==> (step matches ConnectionStepView::Go(
                ClientStepView::Initialize(own, InitializeStepView::AddFolder(json)),
            ) && own == id && announces_added(json, root))
            &&& after.clients.contains_key(client)
            &&& after.clients[client].root == Some(root)
            &&& after.server == mux.server
        }),
{
    let request = RequestView { method: "initialize"@, id: Some(id), params };
    law_initialize_is_handled(mux, client, id, params);
    law_root_starts_or_extends_the_server(mux, client, params_of(request), root, client);
    law_requests_are_handled_on_connections(mux, client, request);
}

/// An `initialize` without parameters that can be read, without a root, or from
/// who is not registered ends the connection.
pub proof fn law_initialize_can_be_refused<P, S>(
    mux: Mux<P, S>,
    client: ClientId,
    id: IdView,
    params: Option<Json>,
)
    ensures
        ({
            let request = RequestView { method: "initialize"@, id: Some(id), params };
            let event = ConnectionEventView::Received(MessageView::Request(request));
            let step = mux.connection_step(client, event);
            match initialize_root(params_of(request)) {
                None => step matches ConnectionStepView::Fail(error, _)
                    && error is InvalidRequest,
                Some(None) => step matches ConnectionStepView::Fail(error, _)
                    && error is RootUriNotPresent,
                Some(Some(_)) => !mux.clients.contains_key(client) ==> (
                step matches ConnectionStepView::Fail(error, _) && error is ClientGone),
            }
        }),
{
    let request = RequestView { method: "initialize"@, id: Some(id), params };
    law_initialize_is_handled(mux, client, id, params);
    law_root_starts_or_extends_the_server(
        mux,
        client,
        params_of(request),
        initialize_root(params_of(request))->0->0,
        client,
    );
    law_requests_are_handled_on_connections(mux, client, request);
}

/// What a client asks or notes goes to the server that runs, a request under the
/// next id of the server and a notification under none; `exit` and `shutdown` go
/// to nobody. The connection goes on.
pub proof fn law_messages_reach_the_server<P, S>(
    mux: Mux<P, S>,
    client: ClientId,
    request: RequestView,
)
    requires
        request.method != "initialize"@,
    ensures
        ({
            let event = ConnectionEventView::Received(MessageView::Request(request));
            let step = mux.connection_step(client, event);
            let sent = RequestView {
                method: request.method,
                id: match request.id {
                    Some(_) => Some(IdView::Number(mux.requests.next)),
                    None => None,
                },
                params: Some(params_of(request)),
            };
            &&& is_ordinary(request.method) && mux.server is Some ==> step
                == ConnectionStepView::<P>::Go(ClientStepView::SendServer(sent.json()))
            &&& is_ordinary(request.method) && mux.server is None ==> (
            step matches ConnectionStepView::Fail(error, _) && error is ServerDown)
            &&& !is_ordinary(request.method) ==> {
                &&& step == ConnectionStepView::<P>::Go(ClientStepView::Ignored)
                &&& mux.after_connection(client, event) == mux
            }
        }),
{
    law_requests_are_handled_on_connections(mux, client, request);
    if is_ordinary(request.method) {
        if request.id is Some {
            law_requests_are_passed_on(mux, client, request, 0);
        } else {
            law_notifications_are_passed_on(mux, client, request);
        }
    } else {
        law_exit_and_shutdown_come_to_nothing(mux, client, request.id, request.params);
    }
}

/// The responses of a client are ignored, and change nothing.
pub proof fn law_responses_of_clients_are_ignored<P, S>(
    mux: Mux<P, S>,
    client: ClientId,
    response: ResponseView,
)
    ensures
        ({
            let event = ConnectionEventView::Received(MessageView::Response(response));
            &&& mux.connection_step(client, event) == ConnectionStepView::<P>::Go(
                ClientStepView::Ignored,
            )
            &&& mux.after_connection(client, event) == mux
        }),
{
}

/// What cannot be read ends the connection with an error that says which, and
/// what is left to do is what it is when the client goes; a connection that the
/// client closes ends with that alone. Each way the client is gone.
pub proof fn law_connections_end<P, S>(mux: Mux<P, S>, client: ClientId)
    ensures
        mux.connection_step(client, ConnectionEventView::Unrecognized)
            == ConnectionStepView::Fail(ManagerError::InvalidRequest, mux.farewell(client)),
        mux.connection_step(client, ConnectionEventView::Broken) == ConnectionStepView::Fail(
            ManagerError::InvalidInput,
            mux.farewell(client),
        ),
        match mux.removal(client) {
            Ok(step) => mux.connection_step(client, ConnectionEventView::Closed)
                == ConnectionStepView::Leave(step),
            Err(error) => mux.connection_step(client, ConnectionEventView::Closed)
                == ConnectionStepView::Fail(error, mux.farewell(client)),
        },
        mux.after_connection(client, ConnectionEventView::Unrecognized) == mux.gone(client),
        mux.after_connection(client, ConnectionEventView::Broken) == mux.gone(client),
        mux.after_connection(client, ConnectionEventView::Closed) == mux.gone(client),
{
}

/// Only an `initialize` without an id lacks one.
pub proof fn law_only_initialize_needs_an_id(event: ConnectionEventView)
    ensures
        event.lacks_id() <==> exists|params: Option<Json>|
            event == #[trigger] without_id("initialize"@, params),
{
    if event.lacks_id() {
        let request = event->Received_0->Request_0;
        assert(event == without_id("initialize"@, request.params));
    }
}

/// The event that a message without an id is.
pub open spec fn without_id(method: Seq<char>, params: Option<Json>) -> ConnectionEventView {
    ConnectionEventView::Received(MessageView::Request(RequestView { method, id: None, params }))
}

/// Events and steps of connections are seen as what they are, with all that they
/// hold.
pub proof fn law_connections_are_seen_whole<P>(
    message: Message,
    step: ClientStep,
    left: RemoveStep<P>,
    error: ManagerError,
)
    ensures
        ConnectionEvent::Received(message)@ == ConnectionEventView::Received(message@),
        ConnectionEvent::Unrecognized@ is Unrecognized,
        ConnectionEvent::Broken@ is Broken,
        ConnectionEvent::Closed@ is Closed,
        ConnectionStep::<P>::Go(step)@ == ConnectionStepView::<P>::Go(step@),
        ConnectionStep::Leave(left)@ == ConnectionStepView::Leave(left@),
        ConnectionStep::Fail(error, left)@ == ConnectionStepView::Fail(error, left@),
{
}

} // verus!
