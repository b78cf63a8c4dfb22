//! What holds of the line protocol whatever happens in between: every answer
//! finds its client.

use crate::client_handler::{
    after_client_event, can_pass_on, id_or_zero, takes_id, told_to_server,
};
use crate::json::Json;
use crate::protocol::{
    request_json, response_json, ClientId, ContentView, LineEventView, ServerRequestId,
};
use crate::server_handler::{after_server_event, server_action, ServerActionView};
use crate::workspace_manager::{law_add_keeps_order, law_remove_keeps_order, Workspaces};
use vstd::prelude::*;

verus! {

/// Something that happens to the clients and their server.
pub enum Step<P> {
    /// A client is added, for which a server has been launched where none ran.
    Added(Seq<char>, Option<Result<P, ()>>),
    /// An event of a client, and whether the server can be written to.
    FromClient(ClientId, LineEventView, bool),
    /// An event of the server.
    FromServer(LineEventView),
}

impl<P> Step<P> {
    /// The step can happen in this state: ids are left, and a server is launched
    /// where and only where none runs.
    pub open spec fn possible(self, state: Workspaces<P>) -> bool {
        match self {
            Step::Added(_, launched) => {
                &&& state.next_client_id < ClientId::MAX
                &&& launched is Some <==> state.server is None
            },
            Step::FromClient(id, event, stdin_open) => takes_id(state, id, event, stdin_open)
                ==> state.next_server_request_id < ServerRequestId::MAX,
            Step::FromServer(_) => true,
        }
    }

    /// The state after the step.
    pub open spec fn after(self, state: Workspaces<P>) -> Workspaces<P> {
        match self {
            Step::Added(root, launched) => state.add(root, launched),
            Step::FromClient(id, event, stdin_open) => after_client_event(
                state,
                id,
                event,
                stdin_open,
            ),
            Step::FromServer(event) => after_server_event(state, event),
        }
    }

    /// The step is the server's answer to this request.
    pub open spec fn answers(self, server_id: ServerRequestId) -> bool {
        self matches Step::FromServer(LineEventView::Line(Some(content)))
            && content matches ContentView::Response { id, .. } && id == Json::Integer(
            server_id as int,
        )
    }
}

/// The state after these steps, one after the other.
pub open spec fn run<P>(state: Workspaces<P>, steps: Seq<Step<P>>) -> Workspaces<P>
    decreases steps.len(),
{
    if steps.len() == 0 {
        state
    } else {
        steps.last().after(run(state, steps.drop_last()))
    }
}

/// Each of these steps can happen when it comes.
pub open spec fn feasible<P>(state: Workspaces<P>, steps: Seq<Step<P>>) -> bool
    decreases steps.len(),
{
    steps.len() > 0 ==> {
        &&& feasible(state, steps.drop_last())
        &&& steps.last().possible(run(state, steps.drop_last()))
    }
}

/// Whatever happens from the start on, the state stays in order, and a server
/// runs only as long as somebody is connected.
pub proof fn law_steps_keep_order<P>(steps: Seq<Step<P>>)
    requires
        feasible(Workspaces::<P>::initial(), steps),
    ensures
        run(Workspaces::<P>::initial(), steps).inv(),
        run(Workspaces::<P>::initial(), steps).clients.is_empty() ==> run(
            Workspaces::<P>::initial(),
            steps,
        ).server is None,
    decreases steps.len(),
{
    if steps.len() > 0 {
        let before = run(Workspaces::<P>::initial(), steps.drop_last());
        law_steps_keep_order(steps.drop_last());
        match steps.last() {
            Step::Added(root, launched) => law_add_keeps_order(before, root, launched),
            Step::FromClient(id, _, _) => law_remove_keeps_order(before, id),
            Step::FromServer(_) => {},
        }
    }
}

/// A client is served, or it is gone: however its connection ends, it is no
/// longer known, its root is no longer listed, and where it was the last the
/// server is gone too.
pub proof fn law_ended_client_is_gone<P>(
    state: Workspaces<P>,
    id: ClientId,
    event: LineEventView,
    stdin_open: bool,
)
    requires
        state.inv(),
        !(event is Line),
    ensures
        ({
            let after = after_client_event(state, id, event, stdin_open);
            &&& after.inv()
            &&& !after.clients.contains_key(id)
            &&& state.clients.contains_key(id) ==> !after.roots.contains(
                state.clients[id].workspace_root,
            )
            &&& after.clients.is_empty() ==> after.server is None
        }),
{
    law_remove_keeps_order(state, id);
}

/// A request that waits for its answer goes on waiting, whatever happens but the
/// answer.
proof fn lemma_request_keeps_waiting<P>(
    state: Workspaces<P>,
    steps: Seq<Step<P>>,
    server_id: ServerRequestId,
)
    requires
        feasible(state, steps),
        server_id < state.next_server_request_id,
        state.requests.contains_key(server_id),
        forall|i: int| 0 <= i < steps.len() ==> !(#[trigger] steps[i]).answers(server_id),
    ensures
        ({
            let later = run(state, steps);
            &&& later.next_server_request_id >= state.next_server_request_id
            &&& later.mapping(server_id) == state.mapping(server_id)
        }),
    decreases steps.len(),
{
    if steps.len() > 0 {
        let earlier = steps.drop_last();
        assert forall|i: int| 0 <= i < earlier.len() implies !(#[trigger] earlier[i]).answers(
            server_id,
        ) by {
            assert(earlier[i] == steps[i]);
        }
        lemma_request_keeps_waiting(state, earlier, server_id);
        assert(steps.last() == steps[steps.len() - 1]);
    }
}

/// Every answer finds its client. A request that is passed on goes to the server
/// under the next id; whatever happens then but the answer, the answer to that id
/// goes to the client that asked, under the number that the client gave, and it
/// goes there once.
pub proof fn law_answer_reaches_its_client<P>(
    state: Workspaces<P>,
    client: ClientId,
    id: Json,
    method: Seq<char>,
    params: Option<Json>,
    steps: Seq<Step<P>>,
    result: Option<Json>,
    error: Option<Json>,
)
    requires
        can_pass_on(state, client, true),
        state.next_server_request_id < ServerRequestId::MAX,
        feasible(
            after_client_event(
                state,
                client,
                LineEventView::Line(Some(ContentView::Request { id, method, params })),
                true,
            ),
            steps,
        ),
        forall|i: int|
            0 <= i < steps.len() ==> !(#[trigger] steps[i]).answers(state.next_server_request_id),
    ensures
        ({
            let server_id = state.next_server_request_id;
            let request = LineEventView::Line(Some(ContentView::Request { id, method, params }));
            let answer = LineEventView::Line(
                Some(
                    ContentView::Response { id: Json::Integer(server_id as int), result, error },
                ),
            );
            let later = run(after_client_event(state, client, request, true), steps);
            &&& told_to_server(state, client, request, true) == Some(
                request_json(server_id, method, params),
            )
            &&& server_action(later, answer) == ServerActionView::Reply(
                client,
                response_json(id_or_zero(id), result, error),
            )
            &&& server_action(after_server_event(later, answer), answer)
                == ServerActionView::Nothing
        }),
{
    let request = LineEventView::Line(Some(ContentView::Request { id, method, params }));
    let sent = after_client_event(state, client, request, true);
    assert(sent.requests.contains_key(state.next_server_request_id));
    lemma_request_keeps_waiting(sent, steps, state.next_server_request_id);
}

} // verus!
