//! What holds of the multiplexer whatever happens in between: every answer finds
//! its client, ids are not reused, and the server lives as long as its clients.

use crate::json::Json;
use crate::lsp::{folder_change, WorkspaceFolderView};
use crate::multiplexer::{
    ClientStepView, DeliveryView, InitializeStepView, ManagerError, Mux, RemoveStepView, INIT_ID,
};
use crate::rpc::{IdView, MessageView, RequestView, ResponseView, RpcErrorView};
use crate::ClientId;
use vstd::prelude::*;

verus! {

/// Something that happens to the multiplexer.
pub enum Event<P, S> {
    /// A client connects.
    Connect(S),
    /// The connection of a client ends.
    Disconnect(ClientId),
    /// A client sends a request or a notification.
    FromClient(ClientId, RequestView),
    /// The server sends a message.
    FromServer(MessageView),
    /// A server has been started.
    Started(P),
    /// A client begins to wait for the answer to `initialize`.
    Waits,
    /// A client that waited for the answer to `initialize` has been given it.
    Answered,
}

impl<P, S> Event<P, S> {
    /// The event can happen in this state: ids are left for a new client, a
    /// server is started only for a client and only where none runs, and only
    /// who has waited is answered.
    pub open spec fn possible(self, mux: Mux<P, S>) -> bool {
        match self {
            Event::Connect(_) => mux.next_client_id < ClientId::MAX,
            Event::Started(_) => mux.server is None && !mux.clients.is_empty(),
            Event::Waits => mux.waiting < usize::MAX,
            Event::Answered => mux.waiting > 0,
            _ => true,
        }
    }

    /// The state after the event.
    pub open spec fn after(self, mux: Mux<P, S>) -> Mux<P, S> {
        match self {
            Event::Connect(tx) => mux.register(tx),
            Event::Disconnect(id) => mux.gone(id),
            Event::FromClient(id, request) => mux.after_client(id, request),
            Event::FromServer(message) => mux.after_server(message),
            Event::Started(process) => mux.started(process),
            Event::Waits => mux.waiting_more(),
            Event::Answered => mux.waiting_less(),
        }
    }

    /// The event is the server's answer to this request.
    pub open spec fn answers(self, server_id: IdView) -> bool {
        self matches Event::FromServer(MessageView::Response(response)) && response.id == server_id
    }
}

/// The state after these events, one after the other.
pub open spec fn run<P, S>(mux: Mux<P, S>, events: Seq<Event<P, S>>) -> Mux<P, S>
    decreases events.len(),
{
    if events.len() == 0 {
        mux
    } else {
        events.last().after(run(mux, events.drop_last()))
    }
}

/// Each of these events can happen when it comes.
pub open spec fn feasible<P, S>(mux: Mux<P, S>, events: Seq<Event<P, S>>) -> bool
    decreases events.len(),
{
    events.len() > 0 ==> {
        &&& feasible(mux, events.drop_last())
        &&& events.last().possible(run(mux, events.drop_last()))
    }
}

/// The method of a request that is passed on to the server.
pub open spec fn is_passed_on(method: Seq<char>) -> bool {
    method != "initialize"@ && method != "exit"@ && method != "shutdown"@
}

/// A new client leaves the state in order, and gets an id that nobody has.
pub proof fn law_register_keeps_order<P, S>(mux: Mux<P, S>, tx: S)
    requires
        mux.inv(),
        mux.next_client_id < ClientId::MAX,
    ensures
        mux.register(tx).inv(),
        !mux.clients.contains_key(mux.next_client_id),
        mux.register(tx).next_client_id > mux.next_client_id,
{
    let after = mux.register(tx);
    assert(after.clients.contains_key(mux.next_client_id));
}

/// Every event leaves the state in order.
pub proof fn law_events_keep_order<P, S>(mux: Mux<P, S>, event: Event<P, S>)
    requires
        mux.inv(),
        event.possible(mux),
    ensures
        event.after(mux).inv(),
{
    match event {
        Event::Connect(tx) => law_register_keeps_order(mux, tx),
        Event::FromClient(id, request) => {
            let after = mux.after_client(id, request);
            if after != mux && mux.clients.contains_key(id) {
                assert(after.clients.contains_key(id));
                assert(after.clients.dom() =~= mux.clients.dom());
            }
        },
        _ => {},
    }
}

/// Whatever happens from the start on, a server runs only as long as somebody is
/// connected.
pub proof fn law_server_runs_only_for_clients<P, S>(events: Seq<Event<P, S>>)
    requires
        feasible(Mux::<P, S>::initial(), events),
    ensures
        run(Mux::<P, S>::initial(), events).inv(),
        run(Mux::<P, S>::initial(), events).clients.is_empty() ==> run(
            Mux::<P, S>::initial(),
            events,
        ).server is None,
    decreases events.len(),
{
    if events.len() > 0 {
        law_server_runs_only_for_clients(events.drop_last());
        law_events_keep_order(
            run(Mux::<P, S>::initial(), events.drop_last()),
            events.last(),
        );
    }
}

/// The client that leaves last takes the server with it; while others stay, the
/// server goes on.
pub proof fn law_last_client_stops_the_server<P, S>(mux: Mux<P, S>, id: ClientId)
    requires
        mux.clients.contains_key(id),
    ensures
        (forall|other: ClientId| mux.clients.contains_key(other) ==> other == id) ==> {
            &&& mux.without(id).server is None
            &&& mux.server matches Some(process) ==> mux.removal(id) == Ok::<_, ManagerError>(
                RemoveStepView::StopServer(process),
            ) && mux.farewell(id) == RemoveStepView::StopServer(process)
        },
        (exists|other: ClientId| mux.clients.contains_key(other) && other != id) ==> {
            &&& mux.without(id).server == mux.server
            &&& !(mux.removal(id) matches Ok(RemoveStepView::StopServer(_)))
            &&& !(mux.farewell(id) is StopServer)
        },
{
    let left = mux.clients.remove(id);
    if forall|other: ClientId| mux.clients.contains_key(other) ==> other == id {
        assert(left.dom() =~= Set::empty());
    }
    if exists|other: ClientId| mux.clients.contains_key(other) && other != id {
        let other = choose|other: ClientId| mux.clients.contains_key(other) && other != id;
        assert(left.dom().contains(other));
    }
}

/// A client that names its root is served by one server: it is started where
/// none runs, and told of the new folder otherwise.
pub proof fn law_one_server_for_all<P, S>(
    mux: Mux<P, S>,
    id: ClientId,
    params: Json,
    root: Seq<char>,
)
    requires
        mux.clients.contains_key(id),
    ensures
        mux.initialization(id, params, Some(Some(root))) matches Ok(InitializeStepView::Launch(_))
            <==> mux.server is None,
        mux.server is Some ==> mux.initialization(id, params, Some(Some(root))) == Ok::<
            _,
            ManagerError,
        >(
            InitializeStepView::AddFolder(
                folder_change(seq![WorkspaceFolderView::named(root)], Seq::empty()).json(),
            ),
        ),
        mux.after_initialize(id, Some(Some(root))).server == mux.server,
{
}

/// What a client sends with `exit` or `shutdown` reaches nobody and changes
/// nothing: the others go on with the server.
pub proof fn law_exit_and_shutdown_are_ignored<P, S>(
    mux: Mux<P, S>,
    id: ClientId,
    request: RequestView,
)
    requires
        request.method == "exit"@ || request.method == "shutdown"@,
    ensures
        mux.client_step(id, request) == Ok::<_, ManagerError>(ClientStepView::Ignored),
        mux.after_client(id, request) == mux,
{
    reveal_strlit("initialize");
    reveal_strlit("exit");
    reveal_strlit("shutdown");
    assert("initialize"@.len() == 10 && "exit"@.len() == 4 && "shutdown"@.len() == 8);
}

/// From the start on the ids of the server are given out in order, as long as
/// there are fewer events than ids.
pub proof fn law_server_ids_stay_in_order<P, S>(events: Seq<Event<P, S>>)
    requires
        events.len() < i64::MAX,
    ensures
        run(Mux::<P, S>::initial(), events).requests.in_order(),
        run(Mux::<P, S>::initial(), events).requests.next <= 1 + events.len(),
    decreases events.len(),
{
    if events.len() > 0 {
        law_server_ids_stay_in_order(events.drop_last());
    }
}

/// A request that waits for its answer goes on waiting, whatever happens but the
/// answer.
proof fn lemma_request_keeps_waiting<P, S>(
    mux: Mux<P, S>,
    events: Seq<Event<P, S>>,
    server_id: i64,
)
    requires
        mux.requests.in_order(),
        mux.requests.pending.contains_key(server_id),
        mux.requests.next + events.len() <= i64::MAX,
        forall|i: int|
            0 <= i < events.len() ==> !(#[trigger] events[i]).answers(IdView::Number(server_id)),
    ensures
        ({
            let after = run(mux, events).requests;
            &&& after.in_order()
            &&& after.next <= mux.requests.next + events.len()
            &&& after.pending.contains_key(server_id)
            &&& after.pending[server_id] == mux.requests.pending[server_id]
        }),
    decreases events.len(),
{
    if events.len() > 0 {
        let earlier = events.drop_last();
        assert forall|i: int| 0 <= i < earlier.len() implies !(#[trigger] earlier[i]).answers(
            IdView::Number(server_id),
        ) by {
            assert(earlier[i] == events[i]);
        }
        lemma_request_keeps_waiting(mux, earlier, server_id);
        let last = events.last();
        assert(last == events[events.len() - 1]);
        let before = run(mux, earlier);
        match last {
            Event::FromServer(MessageView::Response(response)) => {
                assert(response.id != IdView::Number(server_id));
            },
            _ => {},
        }
    }
}

/// Every answer finds its client. A request that is passed on goes to the server
/// under an id of its own; whatever happens then, and however many other
/// requests are under way, the server's answer to that id goes to the client
/// that asked, under the id that the client gave, and it goes there once.
///
/// The counter of ids must not come round in the meantime.
pub proof fn law_answer_reaches_its_client<P, S>(
    mux: Mux<P, S>,
    client: ClientId,
    request: RequestView,
    events: Seq<Event<P, S>>,
    outcome: Result<Json, RpcErrorView>,
)
    requires
        mux.requests.in_order(),
        mux.requests.next + events.len() < i64::MAX,
        mux.server is Some,
        request.id is Some,
        is_passed_on(request.method),
        forall|i: int|
            0 <= i < events.len() ==> !(#[trigger] events[i]).answers(
                IdView::Number(mux.requests.next),
            ),
    ensures
        ({
            let server_id = IdView::Number(mux.requests.next);
            let answer = MessageView::Response(ResponseView { id: server_id, outcome });
            let later = run(mux.after_client(client, request), events);
            &&& mux.client_step(client, request) == Ok::<_, ManagerError>(
                ClientStepView::SendServer(
                    RequestView {
                        method: request.method,
                        id: Some(server_id),
                        params: Some(Json::or_null(request.params)),
                    }.json(),
                ),
            )
            &&& later.delivery(answer) == Ok::<_, ManagerError>(
                DeliveryView::ToClient(
                    client,
                    MessageView::Response(ResponseView { id: request.id->0, outcome }),
                ),
            )
            &&& later.after_server(answer).delivery(answer) == Err::<DeliveryView, _>(
                ManagerError::UnknownResponse,
            )
        }),
{
    let sent = mux.after_client(client, request);
    assert(sent.requests == mux.requests.insert(client, request.id->0));
    assert(sent.requests.in_order());
    lemma_request_keeps_waiting(sent, events, mux.requests.next);
}

/// Once the server has answered `initialize` to a client that waits, every
/// client's `initialize` is answered with that, under the client's own id,
/// whatever happens but another such answer.
pub proof fn law_initialize_is_answered<P, S>(
    mux: Mux<P, S>,
    outcome: Result<Json, RpcErrorView>,
    events: Seq<Event<P, S>>,
    id: IdView,
)
    requires
        mux.waiting > 0,
        forall|i: int|
            0 <= i < events.len() ==> !(#[trigger] events[i]).answers(IdView::Number(INIT_ID)),
    ensures
        ({
            let answer = MessageView::Response(
                ResponseView { id: IdView::Number(INIT_ID), outcome },
            );
            &&& mux.delivery(answer) == Ok::<_, ManagerError>(DeliveryView::Initialized)
            &&& run(mux.after_server(answer), events).initialize_reply(id) == Some(
                MessageView::Response(ResponseView { id, outcome }),
            )
        }),
    decreases events.len(),
{
    if events.len() > 0 {
        let earlier = events.drop_last();
        assert forall|i: int| 0 <= i < earlier.len() implies !(#[trigger] earlier[i]).answers(
            IdView::Number(INIT_ID),
        ) by {
            assert(earlier[i] == events[i]);
        }
        law_initialize_is_answered(mux, outcome, earlier, id);
        assert(events.last() == events[events.len() - 1]);
    }
}

/// An answer to `initialize` that nobody waits for is dropped: the one that has
/// been kept stays.
pub proof fn law_unawaited_initialize_answer_is_dropped<P, S>(
    mux: Mux<P, S>,
    outcome: Result<Json, RpcErrorView>,
)
    requires
        mux.waiting == 0,
    ensures
        mux.after_server(
            MessageView::Response(ResponseView { id: IdView::Number(INIT_ID), outcome }),
        ) == mux,
{
}

/// The event leaves a client connected, and does not name its root anew.
pub open spec fn spares<P, S>(event: Event<P, S>, id: ClientId) -> bool {
    match event {
        Event::Disconnect(gone) => gone != id,
        Event::FromClient(sender, request) => sender != id || request.method != "initialize"@,
        _ => true,
    }
}

/// A folder that has been added is removed: when a client leaves while others
/// stay, the server is told that the folder has gone which the client named,
/// however long ago.
pub proof fn law_named_folder_is_removed<P, S>(
    mux: Mux<P, S>,
    id: ClientId,
    root: Seq<char>,
    events: Seq<Event<P, S>>,
)
    requires
        mux.inv(),
        mux.clients.contains_key(id),
        feasible(mux.after_initialize(id, Some(Some(root))), events),
        forall|i: int| 0 <= i < events.len() ==> spares(#[trigger] events[i], id),
    ensures
        ({
            let later = run(mux.after_initialize(id, Some(Some(root))), events);
            &&& later.inv()
            &&& later.clients.contains_key(id)
            &&& later.clients[id].root == Some(root)
            &&& later.server is Some && (exists|other: ClientId|
                later.clients.contains_key(other) && other != id) ==> later.removal(id) == Ok::<
                _,
                ManagerError,
            >(
                RemoveStepView::<P>::SendServer(
                    folder_change(
                        Seq::empty(),
                        seq![WorkspaceFolderView::unnamed(root)],
                    ).json(),
                ),
            ) && later.removal(id) == Ok::<_, ManagerError>(later.farewell(id))
        }),
    decreases events.len(),
{
    let named = mux.after_initialize(id, Some(Some(root)));
    let later = run(named, events);
    if events.len() == 0 {
        assert(named.clients.dom() =~= mux.clients.dom());
        assert(named.clients.contains_key(id));
    } else {
        let earlier = events.drop_last();
        assert forall|i: int| 0 <= i < earlier.len() implies spares(#[trigger] earlier[i], id) by {
            assert(earlier[i] == events[i]);
        }
        law_named_folder_is_removed(mux, id, root, earlier);
        assert(spares(events[events.len() - 1], id));
        law_events_keep_order(run(named, earlier), events.last());
    }
    if exists|other: ClientId| later.clients.contains_key(other) && other != id {
        let other = choose|other: ClientId| later.clients.contains_key(other) && other != id;
        assert(later.clients.remove(id).dom().contains(other));
    }
}

/// The id of a client that has gone is not given out again.
pub proof fn law_client_ids_are_not_reused<P, S>(
    mux: Mux<P, S>,
    id: ClientId,
    events: Seq<Event<P, S>>,
)
    requires
        mux.inv(),
        feasible(mux, events),
        id < mux.next_client_id,
        !mux.clients.contains_key(id),
    ensures
        !run(mux, events).clients.contains_key(id),
        run(mux, events).next_client_id >= mux.next_client_id,
    decreases events.len(),
{
    if events.len() > 0 {
        law_client_ids_are_not_reused(mux, id, events.drop_last());
    }
}

} // verus!
