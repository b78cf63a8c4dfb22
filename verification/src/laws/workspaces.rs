//! Laws of the clients of the line protocol: who is known, which roots are
//! listed, and which requests wait.

use crate::protocol::{ClientId, RequestId, ServerRequestId};
use crate::workspace_manager::{ClientState, Workspaces};
use vstd::prelude::*;

verus! {

/// The client is known, and nobody else is.
pub open spec fn is_alone<P>(state: Workspaces<P>, id: ClientId) -> bool {
    state.clients.contains_key(id) && forall|other: ClientId| #[trigger]
        state.clients.contains_key(other) ==> other == id
}

/// The client is known, and somebody else is too.
pub open spec fn has_company<P>(state: Workspaces<P>, id: ClientId) -> bool {
    state.clients.contains_key(id) && exists|other: ClientId| #[trigger]
        state.clients.contains_key(other) && other != id
}

/// The known clients are the same, and each is as it was.
pub open spec fn same_clients<P>(a: Workspaces<P>, b: Workspaces<P>) -> bool {
    &&& a.next_client_id == b.next_client_id
    &&& forall|id: ClientId|
        {
            &&& #[trigger] a.clients.contains_key(id) == b.clients.contains_key(id)
            &&& a.clients.contains_key(id) ==> a.clients[id] == b.clients[id]
        }
}

/// The requests under way are the same, and so is the id for the next.
pub open spec fn same_requests<P>(a: Workspaces<P>, b: Workspaces<P>) -> bool {
    &&& a.next_server_request_id == b.next_server_request_id
    &&& forall|id: ServerRequestId|
        {
            &&& #[trigger] a.requests.contains_key(id) == b.requests.contains_key(id)
            &&& a.requests.contains_key(id) ==> a.requests[id] == b.requests[id]
        }
}

/// In the beginning nobody is known, no server runs, nothing is listed or under
/// way, and the first client and the first request get number 1.
pub proof fn law_nothing_is_known_in_the_beginning<P>(id: ClientId, server_id: ServerRequestId)
    ensures
        ({
            let state = Workspaces::<P>::initial();
            &&& state.server is None
            &&& state.next_client_id == 1
            &&& !state.clients.contains_key(id)
            &&& state.next_server_request_id == 1
            &&& !state.requests.contains_key(server_id)
            &&& state.roots.len() == 0
        }),
{
}

/// A client that is added is known under the next id, with its root and not yet
/// initialized. A server that was launched for it runs; one that ran goes on; of
/// one that could not be launched nothing is noted, and the root is not listed.
/// Otherwise the root is listed, behind those that were. The other clients and the
/// requests under way stay as they are.
pub proof fn law_added_client_is_known<P, E>(
    state: Workspaces<P>,
    root: Seq<char>,
    process: P,
    error: E,
    launched: Option<Result<P, E>>,
    other: ClientId,
)
    requires
        state.next_client_id < ClientId::MAX,
    ensures
        ({
            let after = state.add(root, launched);
            let id = state.next_client_id;
            &&& after.clients.contains_key(id)
            &&& after.clients[id].workspace_root == root
            &&& !after.clients[id].initialized
            &&& after.next_client_id == id + 1
            &&& other != id ==> {
                &&& after.clients.contains_key(other) == state.clients.contains_key(other)
                &&& after.clients.contains_key(other) ==> after.clients[other]
                    == state.clients[other]
            }
            &&& same_requests(after, state)
        }),
        state.add(root, Some(Ok::<P, E>(process))).server == Some(process),
        state.add(root, Some(Err::<P, E>(error))).server == state.server,
        state.add(root, None::<Result<P, E>>).server == state.server,
        state.add(root, Some(Err::<P, E>(error))).roots == state.roots,
        !(launched matches Some(Err(_))) ==> {
            let after = state.add(root, launched);
            &&& state.roots.contains(root) ==> after.roots == state.roots
            &&& !state.roots.contains(root) ==> after.roots == state.roots + seq![root]
        },
{
    assert(state.roots.push(root) =~= state.roots + seq![root]);
}

/// Whether anybody is left when a client goes.
pub(crate) proof fn lemma_company<P>(state: Workspaces<P>, id: ClientId)
    ensures
        is_alone(state, id) ==> state.clients.remove(id).is_empty(),
        has_company(state, id) ==> !state.clients.remove(id).is_empty(),
{
    let left = state.clients.remove(id);
    if is_alone(state, id) {
        assert(left.dom() =~= Set::empty()) by {
            assert forall|other: ClientId| !left.dom().contains(other) by {
                if left.dom().contains(other) {
                    assert(state.clients.contains_key(other));
                }
            }
        }
    }
    if has_company(state, id) {
        let other = choose|other: ClientId| #[trigger]
            state.clients.contains_key(other) && other != id;
        assert(left.dom().contains(other));
    }
}

/// A client that is removed is known no longer, and the others are as they were.
/// The last one stops the server that runs, and then none runs; for others it goes
/// on. Requests under way stay, and so does everything where the client was not
/// known.
pub proof fn law_removed_client_is_gone<P>(state: Workspaces<P>, id: ClientId, other: ClientId)
    ensures
        ({
            let after = state.remove(id);
            &&& !after.clients.contains_key(id)
            &&& other != id ==> {
                &&& after.clients.contains_key(other) == state.clients.contains_key(other)
                &&& after.clients.contains_key(other) ==> after.clients[other]
                    == state.clients[other]
            }
            &&& after.next_client_id == state.next_client_id
            &&& same_requests(after, state)
            &&& is_alone(state, id) ==> after.server is None && state.stopped_by(id) == state.server
            &&& has_company(state, id) ==> after.server == state.server && state.stopped_by(
                id,
            ) is None
            &&& !state.clients.contains_key(id) ==> after == state && state.stopped_by(id) is None
        }),
{
    lemma_company(state, id);
}

/// With a client its root goes from the list; each other root stays, as often and
/// in the order as it was.
pub proof fn law_other_roots_stay_in_their_order<P>(state: Workspaces<P>, root: Seq<char>)
    ensures
        !state.roots_without(root).contains(root),
        !state.roots.contains(root) ==> state.roots_without(root) == state.roots,
        state.roots.len() > 0 ==> {
            let fewer = Workspaces { roots: state.roots.drop_last(), ..state };
            let last = state.roots.last();
            &&& last != root ==> state.roots_without(root) == fewer.roots_without(root) + seq![last]
            &&& last == root ==> state.roots_without(root) == fewer.roots_without(root)
        },
    decreases state.roots.len(),
{
    reveal(Seq::filter);
    if state.roots.len() > 0 {
        let fewer = Workspaces { roots: state.roots.drop_last(), ..state };
        let last = state.roots.last();
        let kept = fewer.roots_without(root);
        law_other_roots_stay_in_their_order(fewer, root);
        assert(state.roots[state.roots.len() - 1] == last);
        if last != root {
            assert(state.roots_without(root) =~= kept + seq![last]);
            assert(!state.roots_without(root).contains(root)) by {
                if state.roots_without(root).contains(root) {
                    let i = choose|i: int|
                        0 <= i < state.roots_without(root).len() && state.roots_without(root)[i]
                            == root;
                    if i < kept.len() {
                        assert(kept[i] == root);
                    }
                }
            }
        }
        if !state.roots.contains(root) {
            assert(!fewer.roots.contains(root)) by {
                if fewer.roots.contains(root) {
                    let i = choose|i: int| 0 <= i < fewer.roots.len() && fewer.roots[i] == root;
                    assert(state.roots[i] == root);
                }
            }
            assert(state.roots_without(root) =~= state.roots);
        }
    } else {
        assert(state.roots_without(root) =~= Seq::empty());
    }
}

/// With a client that is removed its root goes from the list.
pub proof fn law_root_goes_with_its_client<P>(state: Workspaces<P>, id: ClientId)
    requires
        state.clients.contains_key(id),
    ensures
        !state.remove(id).roots.contains(state.clients[id].workspace_root),
        state.remove(id).roots == state.roots_without(state.clients[id].workspace_root),
{
    law_other_roots_stay_in_their_order(state, state.clients[id].workspace_root);
}

/// Ids for requests count up one by one; a request that is noted under one is
/// found under it, and no longer once it has been taken out. Other requests,
/// clients, roots and the server stay as they are.
pub proof fn law_requests_are_noted_and_taken_out<P>(
    state: Workspaces<P>,
    server_id: ServerRequestId,
    client: ClientId,
    id: RequestId,
    other: ServerRequestId,
    process: P,
)
    requires
        state.next_server_request_id < ServerRequestId::MAX,
    ensures
        ({
            let next = state.next_request();
            let noted = state.map_request(server_id, client, id);
            let taken = state.unmap_request(server_id);
            let served = state.with_server(process);
            &&& next.next_server_request_id == state.next_server_request_id + 1
            &&& next.requests == state.requests
            &&& noted.mapping(server_id) == Some((client, id))
            &&& taken.mapping(server_id) is None
            &&& other != server_id ==> noted.mapping(other) == state.mapping(other)
                && taken.mapping(other) == state.mapping(other)
            &&& state.mapping(other) is Some <==> state.requests.contains_key(other)
            &&& state.mapping(other) matches Some(waiting) ==> waiting == state.requests[other]
            &&& noted.next_server_request_id == state.next_server_request_id
            &&& taken.next_server_request_id == state.next_server_request_id
            &&& same_clients(next, state) && same_clients(noted, state) && same_clients(
                taken,
                state,
            )
            &&& next.server == state.server && noted.server == state.server && taken.server
                == state.server
            &&& next.roots == state.roots && noted.roots == state.roots && taken.roots
                == state.roots
            &&& served.server == Some(process)
            &&& same_clients(served, state) && same_requests(served, state)
            &&& served.roots == state.roots
        }),
{
}

/// What is known of a client is seen whole.
pub proof fn law_clients_are_seen_whole(state: ClientState)
    ensures
        state@.workspace_root == state.workspace_root@,
        state@.initialized == state.initialized,
{
}

} // verus!
