//! Laws of the multiplexer: who is registered, what goes to the server, and who
//! gets what the server says.

use crate::json::{json_of, Json};
use crate::laws::messages::{announces_added, announces_removed, law_folder_changes_are_announced};
use crate::lsp::initialize_root;
use crate::multiplexer::{
    result_view, ClientStep, ClientStepView, Delivery, DeliveryView, InitializeStep,
    InitializeStepView, ManagerError, Mux, RemoveStep, RemoveStepView, ServerEvent, ServerEventView,
    ServerStep, ServerStepView,
};
use crate::request_map::PendingRequests;
use crate::rpc::{IdView, Message, MessageView, RequestView, ResponseView, RpcErrorView};
use crate::{ClientId, RequestId, ServerRequestId};
use serde_json::Value;
use vstd::prelude::*;

verus! {

/// The parameters of a request, or `null` where it has none.
pub open spec fn params_of(request: RequestView) -> Json {
    match request.params {
        Some(params) => params,
        None => Json::Null,
    }
}

/// The client is registered, and nobody else is.
pub open spec fn is_alone<P, S>(mux: Mux<P, S>, id: ClientId) -> bool {
    mux.clients.contains_key(id) && forall|other: ClientId| #[trigger]
        mux.clients.contains_key(other) ==> other == id
}

/// The client is registered, and somebody else is too.
pub open spec fn has_company<P, S>(mux: Mux<P, S>, id: ClientId) -> bool {
    mux.clients.contains_key(id) && exists|other: ClientId| #[trigger]
        mux.clients.contains_key(other) && other != id
}

/// The registered clients are the same, and each is as it was.
pub open spec fn same_clients<P, S>(a: Mux<P, S>, b: Mux<P, S>) -> bool {
    forall|id: ClientId|
        {
            &&& #[trigger] a.clients.contains_key(id) == b.clients.contains_key(id)
            &&& a.clients.contains_key(id) ==> a.clients[id] == b.clients[id]
        }
}

/// The requests under way are the same, and so is the id for the next.
pub open spec fn same_requests(a: PendingRequests, b: PendingRequests) -> bool {
    &&& a.next == b.next
    &&& forall|id: ServerRequestId|
        {
            &&& #[trigger] a.pending.contains_key(id) == b.pending.contains_key(id)
            &&& a.pending.contains_key(id) ==> a.pending[id] == b.pending[id]
        }
}

/// The `initialize` answer and those who wait for it are the same.
pub open spec fn same_answer<P, S>(a: Mux<P, S>, b: Mux<P, S>) -> bool {
    a.initialize_response == b.initialize_response && a.waiting == b.waiting
}

/// In the beginning nobody is registered, no server runs, nothing is under way,
/// and the first client and the first request get number 1.
pub proof fn law_nothing_goes_on_in_the_beginning<P, S>(id: ClientId, server_id: ServerRequestId)
    ensures
        ({
            let mux = Mux::<P, S>::initial();
            &&& mux.server is None
            &&& mux.next_client_id == 1
            &&& !mux.clients.contains_key(id)
            &&& mux.requests.next == 1
            &&& !mux.requests.pending.contains_key(server_id)
            &&& mux.initialize_response is None
            &&& mux.waiting == 0
        }),
{
}

/// A request that is noted waits under the next id, for the client that asked
/// and under the client's own id; the id after it is next, and the other requests
/// stay as they are.
pub proof fn law_request_is_noted(
    requests: PendingRequests,
    client: ClientId,
    id: IdView,
    other: ServerRequestId,
)
    ensures
        ({
            let noted = requests.insert(client, id);
            &&& noted.pending.contains_key(requests.next)
            &&& noted.pending[requests.next] == (client, id)
            &&& requests.next < i64::MAX ==> noted.next == requests.next + 1
            &&& requests.next == i64::MAX ==> noted.next == i64::MIN
            &&& other != requests.next ==> {
                &&& noted.pending.contains_key(other) == requests.pending.contains_key(other)
                &&& noted.pending.contains_key(other) ==> noted.pending[other]
                    == requests.pending[other]
            }
        }),
{
}

/// What waits under a number is found under it and taken out, and the others go
/// on waiting; under what is no number nothing is found.
pub proof fn law_answered_request_is_struck_off(
    requests: PendingRequests,
    number: ServerRequestId,
    other: ServerRequestId,
    id: IdView,
)
    ensures
        requests.pending.contains_key(number) ==> requests.lookup(IdView::Number(number)) == Some(
            requests.pending[number],
        ),
        !requests.pending.contains_key(number) ==> requests.lookup(IdView::Number(number)) is None,
        ({
            let left = requests.remove(IdView::Number(number));
            &&& !left.pending.contains_key(number)
            &&& left.next == requests.next
            &&& other != number ==> {
                &&& left.pending.contains_key(other) == requests.pending.contains_key(other)
                &&& left.pending.contains_key(other) ==> left.pending[other]
                    == requests.pending[other]
            }
        }),
        !(id is Number) ==> requests.lookup(id) is None && requests.remove(id) == requests,
{
}

/// A new client is registered under the next id, on its channel and without a
/// root; nothing else changes.
pub proof fn law_new_client_is_registered<P, S>(mux: Mux<P, S>, tx: S, other: ClientId)
    requires
        mux.next_client_id < ClientId::MAX,
    ensures
        ({
            let after = mux.register(tx);
            let id = mux.next_client_id;
            &&& after.clients.contains_key(id)
            &&& after.clients[id].tx == tx
            &&& after.clients[id].root is None
            &&& after.next_client_id == id + 1
            &&& other != id ==> {
                &&& after.clients.contains_key(other) == mux.clients.contains_key(other)
                &&& after.clients.contains_key(other) ==> after.clients[other] == mux.clients[other]
            }
            &&& after.server == mux.server
            &&& same_requests(after.requests, mux.requests)
            &&& same_answer(after, mux)
        }),
{
}

/// A client that has gone is registered no longer; the others are as they were,
/// and the server goes on for them. With the last client the server goes too.
/// Requests under way and the answer to `initialize` stay.
pub proof fn law_client_that_goes_is_gone<P, S>(mux: Mux<P, S>, id: ClientId, other: ClientId)
    ensures
        ({
            let after = mux.gone(id);
            &&& !after.clients.contains_key(id)
            &&& other != id ==> {
                &&& after.clients.contains_key(other) == mux.clients.contains_key(other)
                &&& after.clients.contains_key(other) ==> after.clients[other] == mux.clients[other]
            }
            &&& is_alone(mux, id) ==> after.server is None
            &&& has_company(mux, id) ==> after.server == mux.server
            &&& !mux.clients.contains_key(id) ==> after == mux
            &&& after.next_client_id == mux.next_client_id
            &&& same_requests(after.requests, mux.requests)
            &&& same_answer(after, mux)
        }),
{
    lemma_company(mux, id);
}

/// Whether anybody is left when a client goes.
proof fn lemma_company<P, S>(mux: Mux<P, S>, id: ClientId)
    ensures
        is_alone(mux, id) ==> mux.clients.remove(id).is_empty(),
        has_company(mux, id) ==> !mux.clients.remove(id).is_empty(),
{
    let left = mux.clients.remove(id);
    if is_alone(mux, id) {
        assert(left.dom() =~= Set::empty()) by {
            assert forall|other: ClientId| !left.dom().contains(other) by {
                if left.dom().contains(other) {
                    assert(mux.clients.contains_key(other));
                }
            }
        }
    }
    if has_company(mux, id) {
        let other = choose|other: ClientId| #[trigger]
            mux.clients.contains_key(other) && other != id;
        assert(left.dom().contains(other));
    }
}

/// The last client to go stops the server that runs. Of an earlier one the server
/// is told that the folder has gone which the client had named; where it had
/// named none, there is nothing to tell. Without a server nobody can be told, and
/// a client that is not registered cannot be removed.
pub proof fn law_removal_tells_the_server<P, S>(mux: Mux<P, S>, id: ClientId)
    ensures
        !mux.clients.contains_key(id) ==> mux.removal(id) == Err::<RemoveStepView<P>, _>(
            ManagerError::ClientNotFound,
        ) && mux.farewell(id) is Nothing,
        is_alone(mux, id) ==> match mux.server {
            Some(process) => mux.removal(id) == Ok::<_, ManagerError>(
                RemoveStepView::StopServer(process),
            ) && mux.farewell(id) == RemoveStepView::StopServer(process),
            None => mux.removal(id) == Ok::<_, ManagerError>(RemoveStepView::<P>::Nothing)
                && mux.farewell(id) is Nothing,
        },
        has_company(mux, id) ==> match (mux.clients[id].root, mux.server) {
            (None, _) => mux.removal(id) == Ok::<_, ManagerError>(RemoveStepView::<P>::Nothing)
                && mux.farewell(id) is Nothing,
            (Some(root), Some(_)) => {
                &&& mux.removal(id) matches Ok(RemoveStepView::SendServer(json))
                &&& announces_removed(json, root)
                &&& mux.farewell(id) == RemoveStepView::<P>::SendServer(json)
            },
            (Some(_), None) => mux.removal(id) == Err::<RemoveStepView<P>, _>(
                ManagerError::ServerDown,
            ) && mux.farewell(id) is Nothing,
        },
{
    lemma_company(mux, id);
    if mux.clients.contains_key(id) && mux.clients[id].root is Some {
        law_folder_changes_are_announced(mux.clients[id].root->0);
    }
}

/// What the server asks or notes, with an id or without, goes to all who are
/// registered and to nobody else, as it is; nothing changes.
pub proof fn law_what_the_server_asks_goes_to_all<P, S>(
    mux: Mux<P, S>,
    request: RequestView,
    client: ClientId,
)
    ensures
        ({
            let message = MessageView::Request(request);
            &&& mux.delivery(message) matches Ok(DeliveryView::Broadcast(targets, sent))
            &&& sent == message
            &&& targets.contains(client) <==> mux.clients.contains_key(client)
            &&& mux.after_server(message) == mux
        }),
{
}

/// The answer to a request that waits, be it a result or an error, goes to the
/// client that asked, under the id that the client gave, and the request waits no
/// longer; nothing else changes. An answer that nobody waits for goes to nobody.
pub proof fn law_answers_go_to_who_asked<P, S>(
    mux: Mux<P, S>,
    number: ServerRequestId,
    outcome: Result<Json, RpcErrorView>,
    other: ServerRequestId,
)
    requires
        number != 0,
    ensures
        ({
            let answer = MessageView::Response(
                ResponseView { id: IdView::Number(number), outcome },
            );
            let after = mux.after_server(answer);
            &&& mux.requests.pending.contains_key(number) ==> mux.delivery(answer) == Ok::<
                _,
                ManagerError,
            >(
                DeliveryView::ToClient(
                    mux.requests.pending[number].0,
                    MessageView::Response(
                        ResponseView { id: mux.requests.pending[number].1, outcome },
                    ),
                ),
            )
            &&& !mux.requests.pending.contains_key(number) ==> mux.delivery(answer) == Err::<
                DeliveryView,
                _,
            >(ManagerError::UnknownResponse)
            &&& !after.requests.pending.contains_key(number)
            &&& after.requests.next == mux.requests.next
            &&& other != number ==> {
                &&& after.requests.pending.contains_key(other)
                    == mux.requests.pending.contains_key(other)
                &&& after.requests.pending.contains_key(other) ==> after.requests.pending[other]
                    == mux.requests.pending[other]
            }
            &&& after.server == mux.server
            &&& after.next_client_id == mux.next_client_id
            &&& same_clients(after, mux)
            &&& same_answer(after, mux)
        }),
{
}

/// An answer under what is no number goes to nobody, and changes nothing.
pub proof fn law_only_numbers_are_answered<P, S>(mux: Mux<P, S>, response: ResponseView)
    requires
        !(response.id is Number),
    ensures
        mux.delivery(MessageView::Response(response)) == Err::<DeliveryView, _>(
            ManagerError::UnknownResponse,
        ),
        mux.after_server(MessageView::Response(response)) == mux,
{
}

/// The answer under the number 0 is the answer to `initialize`: where somebody
/// waits, it is kept, whatever it says; otherwise it is dropped. Nothing else
/// changes.
pub proof fn law_zero_answers_initialize<P, S>(
    mux: Mux<P, S>,
    outcome: Result<Json, RpcErrorView>,
    id: IdView,
)
    ensures
        ({
            let answer = MessageView::Response(ResponseView { id: IdView::Number(0), outcome });
            let after = mux.after_server(answer);
            &&& mux.delivery(answer) == Ok::<_, ManagerError>(DeliveryView::Initialized)
            &&& mux.waiting > 0 ==> {
                &&& after.initialize_response == Some(outcome)
                &&& after.initialize_reply(id) == Some(
                    MessageView::Response(ResponseView { id, outcome }),
                )
            }
            &&& mux.waiting == 0 ==> after == mux
            &&& after.server == mux.server
            &&& after.next_client_id == mux.next_client_id
            &&& after.waiting == mux.waiting
            &&& same_clients(after, mux)
            &&& same_requests(after.requests, mux.requests)
        }),
{
}

/// A client's `initialize` is answered with what has been kept, be it a result or
/// an error, under the client's own id, and not before something has been kept.
pub proof fn law_initialize_reply_is_what_was_kept<P, S>(mux: Mux<P, S>, id: IdView)
    ensures
        match mux.initialize_response {
            Some(outcome) => mux.initialize_reply(id) == Some(
                MessageView::Response(ResponseView { id, outcome }),
            ),
            None => mux.initialize_reply(id) is None,
        },
{
}

/// A message of the server that has somewhere to go is delivered there, and one
/// that has not is reported; what is no message is reported and changes nothing.
/// Only output that cannot be read, and its end, stop the server, and change
/// nothing.
pub proof fn law_server_is_heard_until_it_ends<P, S>(mux: Mux<P, S>, json: Json)
    ensures
        ({
            let event = ServerEventView::Received(json);
            match MessageView::read(json) {
                Some(message) => {
                    &&& mux.delivery(message) matches Ok(delivery) ==> mux.server_step(event)
                        == ServerStepView::Deliver(delivery)
                    &&& mux.delivery(message) matches Err(error) ==> mux.server_step(event)
                        == ServerStepView::Report(error)
                    &&& mux.after_server_event(event) == mux.after_server(message)
                },
                None => {
                    &&& mux.server_step(event) == ServerStepView::Report(
                        ManagerError::UnrecognizedMessage,
                    )
                    &&& mux.after_server_event(event) == mux
                },
            }
        }),
        mux.server_step(ServerEventView::Broken) is Stop,
        mux.server_step(ServerEventView::Closed) is Stop,
        mux.after_server_event(ServerEventView::Broken) == mux,
        mux.after_server_event(ServerEventView::Closed) == mux,
{
}

/// What the server answers to a request that waits reaches the client that asked,
/// whether it is a result or an error: from the JSON value to the message that is
/// delivered.
pub proof fn law_answers_are_delivered<P, S>(
    mux: Mux<P, S>,
    json: Json,
    number: ServerRequestId,
    outcome: Result<Json, RpcErrorView>,
)
    requires
        number != 0,
        mux.requests.pending.contains_key(number),
        MessageView::read(json) == Some(
            MessageView::Response(ResponseView { id: IdView::Number(number), outcome }),
        ),
    ensures
        mux.server_step(ServerEventView::Received(json)) == ServerStepView::Deliver(
            DeliveryView::ToClient(
                mux.requests.pending[number].0,
                MessageView::Response(
                    ResponseView { id: mux.requests.pending[number].1, outcome },
                ),
            ),
        ),
{
    law_answers_go_to_who_asked(mux, number, outcome, number);
    law_server_is_heard_until_it_ends(mux, json);
}

/// What the server asks or notes is delivered to all: from the JSON value to the
/// clients.
pub proof fn law_broadcasts_are_delivered<P, S>(
    mux: Mux<P, S>,
    json: Json,
    request: RequestView,
    client: ClientId,
)
    requires
        MessageView::read(json) == Some(MessageView::Request(request)),
    ensures
        mux.server_step(ServerEventView::Received(json)) matches ServerStepView::Deliver(
            DeliveryView::Broadcast(targets, sent),
        ) && sent == MessageView::Request(request) && (targets.contains(client)
            <==> mux.clients.contains_key(client)),
{
    law_what_the_server_asks_goes_to_all(mux, request, client);
    law_server_is_heard_until_it_ends(mux, json);
}

/// The method is none of those that the multiplexer answers or ignores itself.
pub open spec fn is_ordinary(method: Seq<char>) -> bool {
    method != "initialize"@ && method != "exit"@ && method != "shutdown"@
}

/// Every notification goes to the server that runs as it is: with its method, its
/// parameters (`null` where it has none) and no id; nothing changes.
pub proof fn law_notifications_are_passed_on<P, S>(
    mux: Mux<P, S>,
    client: ClientId,
    note: RequestView,
)
    requires
        note.id is None,
        is_ordinary(note.method),
    ensures
        mux.server is Some ==> mux.client_step(client, note) == Ok::<_, ManagerError>(
            ClientStepView::SendServer(
                RequestView {
                    method: note.method,
                    id: None,
                    params: Some(params_of(note)),
                }.json(),
            ),
        ),
        mux.server is None ==> mux.client_step(client, note) == Err::<ClientStepView, _>(
            ManagerError::ServerDown,
        ),
        mux.after_client(client, note) == mux,
{
}

/// Every request goes to the server that runs with its method and its parameters
/// (`null` where it has none), under the next id of the server; and it waits under
/// that id for the client that asked, under the client's own id, whether or not a
/// server runs. Nothing else changes.
pub proof fn law_requests_are_passed_on<P, S>(
    mux: Mux<P, S>,
    client: ClientId,
    request: RequestView,
    other: ServerRequestId,
)
    requires
        request.id is Some,
        is_ordinary(request.method),
    ensures
        mux.server is Some ==> mux.client_step(client, request) == Ok::<_, ManagerError>(
            ClientStepView::SendServer(
                RequestView {
                    method: request.method,
                    id: Some(IdView::Number(mux.requests.next)),
                    params: Some(params_of(request)),
                }.json(),
            ),
        ),
        mux.server is None ==> mux.client_step(client, request) == Err::<ClientStepView, _>(
            ManagerError::ServerDown,
        ),
        ({
            let after = mux.after_client(client, request);
            let next = mux.requests.next;
            &&& after.requests.pending.contains_key(next)
            &&& after.requests.pending[next] == (client, request.id->0)
            &&& next < i64::MAX ==> after.requests.next == next + 1
            &&& next == i64::MAX ==> after.requests.next == i64::MIN
            &&& other != next ==> {
                &&& after.requests.pending.contains_key(other)
                    == mux.requests.pending.contains_key(other)
                &&& after.requests.pending.contains_key(other) ==> after.requests.pending[other]
                    == mux.requests.pending[other]
            }
            &&& after.server == mux.server
            &&& after.next_client_id == mux.next_client_id
            &&& same_clients(after, mux)
            &&& same_answer(after, mux)
        }),
{
}

/// What `exit` and `shutdown` come to: nothing, with an id or without, whether or
/// not a server runs.
pub proof fn law_exit_and_shutdown_come_to_nothing<P, S>(
    mux: Mux<P, S>,
    client: ClientId,
    id: Option<IdView>,
    params: Option<Json>,
)
    ensures
        ({
            let exit = RequestView { method: "exit"@, id, params };
            let shutdown = RequestView { method: "shutdown"@, id, params };
            &&& mux.client_step(client, exit) == Ok::<_, ManagerError>(ClientStepView::Ignored)
            &&& mux.client_step(client, shutdown) == Ok::<_, ManagerError>(ClientStepView::Ignored)
            &&& mux.after_client(client, exit) == mux
            &&& mux.after_client(client, shutdown) == mux
        }),
{
    reveal_strlit("initialize");
    reveal_strlit("exit");
    reveal_strlit("shutdown");
    assert("initialize"@.len() == 10 && "exit"@.len() == 4 && "shutdown"@.len() == 8);
}

/// How an `initialize` goes on whose parameters have been read. Without a root it
/// is refused, as it is from who is not registered, and changes nothing. With one,
/// the first starts the server and hands it the client's own parameters under the
/// id 0; a later one adds its folder. The root is noted, and nothing else changes.
pub proof fn law_root_starts_or_extends_the_server<P, S>(
    mux: Mux<P, S>,
    client: ClientId,
    params: Json,
    root: Seq<char>,
    other: ClientId,
)
    ensures
        mux.initialization(client, params, None) == Err::<InitializeStepView, _>(
            ManagerError::InvalidRequest,
        ),
        mux.initialization(client, params, Some(None)) == Err::<InitializeStepView, _>(
            ManagerError::RootUriNotPresent,
        ),
        mux.after_initialize(client, None) == mux,
        mux.after_initialize(client, Some(None)) == mux,
        !mux.clients.contains_key(client) ==> {
            &&& mux.initialization(client, params, Some(Some(root))) == Err::<
                InitializeStepView,
                _,
            >(ManagerError::ClientGone)
            &&& mux.after_initialize(client, Some(Some(root))) == mux
        },
        mux.clients.contains_key(client) ==> {
            let after = mux.after_initialize(client, Some(Some(root)));
            let step = mux.initialization(client, params, Some(Some(root)));
            &&& mux.server is None ==> step == Ok::<_, ManagerError>(
                InitializeStepView::Launch(
                    RequestView {
                        method: "initialize"@,
                        id: Some(IdView::Number(0)),
                        params: Some(params),
                    }.json(),
                ),
            )
            &&& mux.server is Some ==> (step matches Ok(InitializeStepView::AddFolder(json))
                && announces_added(json, root))
            &&& after.clients.contains_key(client)
            &&& after.clients[client].root == Some(root)
            &&& after.clients[client].tx == mux.clients[client].tx
            &&& other != client ==> {
                &&& after.clients.contains_key(other) == mux.clients.contains_key(other)
                &&& after.clients.contains_key(other) ==> after.clients[other] == mux.clients[other]
            }
            &&& after.server == mux.server
            &&& after.next_client_id == mux.next_client_id
            &&& same_requests(after.requests, mux.requests)
            &&& same_answer(after, mux)
        },
{
    law_folder_changes_are_announced(root);
}

/// An `initialize` is handled by what is read of its own parameters, `null` where
/// it has none, and answered under its own id.
pub proof fn law_initialize_is_handled<P, S>(
    mux: Mux<P, S>,
    client: ClientId,
    id: IdView,
    params: Option<Json>,
)
    ensures
        ({
            let request = RequestView { method: "initialize"@, id: Some(id), params };
            let root = initialize_root(params_of(request));
            &&& mux.initialization(client, params_of(request), root) matches Ok(step)
                ==> mux.client_step(client, request) == Ok::<_, ManagerError>(
                ClientStepView::Initialize(id, step),
            )
            &&& mux.initialization(client, params_of(request), root) matches Err(error)
                ==> mux.client_step(client, request) == Err::<ClientStepView, _>(error)
            &&& mux.after_client(client, request) == mux.after_initialize(client, root)
        }),
{
}

/// A server that has been started is the one that runs; nothing else changes. Nor
/// does anything but their number when clients begin or cease to wait.
pub proof fn law_starting_and_waiting_change_nothing_else<P, S>(mux: Mux<P, S>, process: P)
    requires
        0 < mux.waiting < usize::MAX,
    ensures
        ({
            let started = mux.started(process);
            let more = mux.waiting_more();
            let less = mux.waiting_less();
            &&& started.server == Some(process)
            &&& started.next_client_id == mux.next_client_id
            &&& same_clients(started, mux)
            &&& same_requests(started.requests, mux.requests)
            &&& same_answer(started, mux)
            &&& more.waiting == mux.waiting + 1
            &&& less.waiting == mux.waiting - 1
            &&& more.waiting_less() == mux
            &&& less.waiting_more() == mux
            &&& more.server == mux.server && less.server == mux.server
            &&& more.next_client_id == mux.next_client_id
            &&& less.next_client_id == mux.next_client_id
            &&& same_clients(more, mux) && same_clients(less, mux)
            &&& same_requests(more.requests, mux.requests)
            &&& same_requests(less.requests, mux.requests)
            &&& more.initialize_response == mux.initialize_response
            &&& less.initialize_response == mux.initialize_response
        }),
{
}

/// Steps are seen as what they are, with all that they hold.
pub proof fn law_steps_are_seen_whole<P>(
    value: Value,
    id: RequestId,
    process: P,
    client: ClientId,
    clients: Vec<ClientId>,
    message: Message,
    step: InitializeStep,
    delivery: Delivery,
    error: ManagerError,
)
    ensures
        RemoveStep::<P>::Nothing@ is Nothing,
        RemoveStep::StopServer(process)@ == RemoveStepView::StopServer(process),
        RemoveStep::<P>::SendServer(value)@ == RemoveStepView::<P>::SendServer(json_of(value)),
        Delivery::Initialized@ is Initialized,
        Delivery::ToClient(client, message)@ == DeliveryView::ToClient(client, message@),
        Delivery::Broadcast(clients, message)@ matches DeliveryView::Broadcast(targets, sent)
            && sent == message@ && (targets.contains(client) <==> clients@.contains(client)),
        InitializeStep::Launch(value)@ == InitializeStepView::Launch(json_of(value)),
        InitializeStep::AddFolder(value)@ == InitializeStepView::AddFolder(json_of(value)),
        ClientStep::Ignored@ is Ignored,
        ClientStep::SendServer(value)@ == ClientStepView::SendServer(json_of(value)),
        ClientStep::Initialize(id, step)@ == ClientStepView::Initialize(id@, step@),
        ServerEvent::Received(value)@ == ServerEventView::Received(json_of(value)),
        ServerEvent::Broken@ is Broken,
        ServerEvent::Closed@ is Closed,
        ServerStep::Deliver(delivery)@ == ServerStepView::Deliver(delivery@),
        ServerStep::Report(error)@ == ServerStepView::Report(error),
        ServerStep::Stop@ is Stop,
{
}

/// Results are seen by what they hold, and errors as they are.
pub proof fn law_results_are_seen_whole<T: View>(step: T, error: ManagerError)
    ensures
        result_view(Ok::<T, ManagerError>(step)) == Ok::<T::V, ManagerError>(step@),
        result_view(Err::<T, ManagerError>(error)) == Err::<T::V, ManagerError>(error),
{
}

} // verus!
