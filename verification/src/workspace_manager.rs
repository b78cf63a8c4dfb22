//! The clients of the line protocol, the roots of their workspaces, and the one
//! server that they share.

use crate::protocol::{ClientId, RequestId, ServerRequestId};
use crate::text::texts;
use std::collections::HashMap;
use vstd::prelude::*;

verus! {

broadcast use vstd::std_specs::hash::group_hash_axioms;

/// What is known of one client.
pub struct ClientState {
    pub workspace_root: String,
    pub initialized: bool,
}

pub struct ClientStateView {
    pub workspace_root: Seq<char>,
    pub initialized: bool,
}

impl View for ClientState {
    type V = ClientStateView;

    open spec fn view(&self) -> ClientStateView {
        ClientStateView { workspace_root: self.workspace_root@, initialized: self.initialized }
    }
}

/// One of the clients works on this root.
pub open spec fn is_root_of_some(clients: Map<ClientId, ClientStateView>, root: Seq<char>) -> bool {
    exists|id: ClientId| #[trigger]
        clients.contains_key(id) && clients[id].workspace_root == root
}

/// The state of the clients and their server.
#[verifier::ext_equal]
pub struct Workspaces<P> {
    pub server: Option<P>,
    pub next_client_id: ClientId,
    pub clients: Map<ClientId, ClientStateView>,
    pub requests: Map<ServerRequestId, (ClientId, RequestId)>,
    pub next_server_request_id: ServerRequestId,
    pub roots: Seq<Seq<char>>,
}

impl<P> Workspaces<P> {
    /// Nobody is connected, and no server runs.
    pub open spec fn initial() -> Workspaces<P> {
        Workspaces {
            server: None,
            next_client_id: 1,
            clients: Map::empty(),
            requests: Map::empty(),
            next_server_request_id: 1,
            roots: Seq::empty(),
        }
    }

    /// Clients have ids that have been given out, a server runs only for
    /// clients, no root is listed twice, and each one is the root of a client.
    pub open spec fn inv(self) -> bool {
        &&& 1 <= self.next_client_id
        &&& forall|id: ClientId| #[trigger]
            self.clients.contains_key(id) ==> 1 <= id < self.next_client_id
        &&& self.server is Some ==> !self.clients.is_empty()
        &&& self.roots.no_duplicates()
        &&& forall|i: int|
            0 <= i < self.roots.len() ==> is_root_of_some(self.clients, #[trigger] self.roots[i])
    }

    /// With one more client, under the id that is next.
    pub open spec fn with_client(self, root: Seq<char>) -> Workspaces<P> {
        Workspaces {
            next_client_id: (self.next_client_id + 1) as ClientId,
            clients: self.clients.insert(
                self.next_client_id,
                ClientStateView { workspace_root: root, initialized: false },
            ),
            ..self
        }
    }

    /// With a root listed, where it was not.
    pub open spec fn with_root(self, root: Seq<char>) -> Workspaces<P> {
        if self.roots.contains(root) {
            self
        } else {
            Workspaces { roots: self.roots.push(root), ..self }
        }
    }

    /// With a server.
    pub open spec fn with_server(self, process: P) -> Workspaces<P> {
        Workspaces { server: Some(process), ..self }
    }

    /// After a client has been added, for which a server has been launched
    /// where none ran: where that failed, the client is there and its root is
    /// not listed.
    pub open spec fn add<E>(self, root: Seq<char>, launched: Option<Result<P, E>>) -> Workspaces<P> {
        match launched {
            Some(Ok(process)) => self.with_client(root).with_server(process).with_root(root),
            Some(Err(_)) => self.with_client(root),
            None => self.with_client(root).with_root(root),
        }
    }

    /// The roots other than this one.
    pub open spec fn roots_without(self, root: Seq<char>) -> Seq<Seq<char>> {
        self.roots.filter(other_than(root))
    }

    /// Without a client: its root is no longer listed, and with the last client
    /// the server goes too.
    pub open spec fn remove(self, id: ClientId) -> Workspaces<P> {
        if self.clients.contains_key(id) {
            let clients = self.clients.remove(id);
            Workspaces {
                clients,
                server: if clients.is_empty() {
                    None
                } else {
                    self.server
                },
                roots: self.roots_without(self.clients[id].workspace_root),
                ..self
            }
        } else {
            self
        }
    }

    /// The server that is to be stopped when this client leaves.
    pub open spec fn stopped_by(self, id: ClientId) -> Option<P> {
        if self.clients.contains_key(id) && self.clients.remove(id).is_empty() {
            self.server
        } else {
            None
        }
    }

    /// With the next id for a request given out.
    pub open spec fn next_request(self) -> Workspaces<P> {
        Workspaces {
            next_server_request_id: (self.next_server_request_id + 1) as ServerRequestId,
            ..self
        }
    }

    /// With a request noted.
    pub open spec fn map_request(
        self,
        server_id: ServerRequestId,
        client_id: ClientId,
        request_id: RequestId,
    ) -> Workspaces<P> {
        Workspaces { requests: self.requests.insert(server_id, (client_id, request_id)), ..self }
    }

    /// Without what waits under this id.
    pub open spec fn unmap_request(self, server_id: ServerRequestId) -> Workspaces<P> {
        Workspaces { requests: self.requests.remove(server_id), ..self }
    }

    /// What waits under this id.
    pub open spec fn mapping(self, server_id: ServerRequestId) -> Option<(ClientId, RequestId)> {
        if self.requests.contains_key(server_id) {
            Some(self.requests[server_id])
        } else {
            None
        }
    }
}

/// The clients, the one server `P` that they share, and the requests under way.
pub struct WorkspaceManager<P> {
    server_process: Option<P>,
    next_client_id: ClientId,
    client_states: HashMap<ClientId, ClientState>,
    request_map: HashMap<ServerRequestId, (ClientId, RequestId)>,
    next_server_request_id: ServerRequestId,
    workspace_roots: Vec<String>,
}

/// Whether a root is another than this one.
pub open spec fn other_than(root: Seq<char>) -> spec_fn(Seq<char>) -> bool {
    |listed: Seq<char>| listed != root
}

impl<P> View for WorkspaceManager<P> {
    type V = Workspaces<P>;

    closed spec fn view(&self) -> Workspaces<P> {
        Workspaces {
            server: self.server_process,
            next_client_id: self.next_client_id,
            clients: self.client_states@.map_values(|state: ClientState| state@),
            requests: self.request_map@,
            next_server_request_id: self.next_server_request_id,
            roots: texts(self.workspace_roots@),
        }
    }
}

/// Whether a root is listed.
fn lists(roots: &Vec<String>, root: &String) -> (found: bool)
    ensures
        found == texts(roots@).contains(root@),
{
    let mut i: usize = 0;
    while i < roots.len()
        invariant
            i <= roots.len(),
            forall|k: int| 0 <= k < i ==> texts(roots@)[k] != root@,
        decreases roots.len() - i,
    {
        if roots[i] == *root {
            assert(texts(roots@)[i as int] == root@);
            return true;
        }
        i = i + 1;
    }
    false
}

/// The roots other than one.
fn roots_other_than(roots: &Vec<String>, root: &String) -> (kept: Vec<String>)
    ensures
        texts(kept@) == texts(roots@).filter(other_than(root@)),
{
    let ghost other = other_than(root@);
    let ghost all = texts(roots@);
    let mut kept: Vec<String> = Vec::new();
    let mut i: usize = 0;
    proof {
        reveal(Seq::filter);
        assert(texts(kept@) =~= all.take(0).filter(other));
    }
    while i < roots.len()
        invariant
            i <= roots.len(),
            all == texts(roots@),
            other == other_than(root@),
            texts(kept@) == all.take(i as int).filter(other),
        decreases roots.len() - i,
    {
        let ghost before = kept@;
        if roots[i] != *root {
            kept.push(roots[i].clone());
        }
        proof {
            reveal(Seq::filter);
            assert(all.take(i + 1).drop_last() =~= all.take(i as int));
            assert(all.take(i + 1).last() == roots@[i as int]@);
            if other(roots@[i as int]@) {
                assert(texts(kept@) =~= texts(before).push(roots@[i as int]@));
            }
        }
        i = i + 1;
    }
    assert(all.take(i as int) =~= all);
    kept
}

impl<P> WorkspaceManager<P> {
    /// Nobody is connected, and no server runs.
    pub fn new() -> (manager: WorkspaceManager<P>)
        ensures
            manager@ == Workspaces::<P>::initial(),
            manager@.inv(),
    {
        let manager = WorkspaceManager {
            server_process: None,
            next_client_id: 1,
            client_states: HashMap::new(),
            request_map: HashMap::new(),
            next_server_request_id: 1,
            workspace_roots: Vec::new(),
        };
        assert(manager@ =~= Workspaces::<P>::initial());
        manager
    }

    /// The id that the next client will get.
    pub fn next_client_id(&self) -> (id: ClientId)
        ensures
            id == self@.next_client_id,
    {
        self.next_client_id
    }

    /// The id that the next request will get.
    pub fn next_server_request_id(&self) -> (id: ServerRequestId)
        ensures
            id == self@.next_server_request_id,
    {
        self.next_server_request_id
    }

    /// Whether the next client is the first: a server has to be launched for
    /// it.
    pub fn needs_server(&self) -> (needed: bool)
        ensures
            needed == self@.server is None,
    {
        self.server_process.is_none()
    }

    /// Adds a client, with what came of launching a server for it where none
    /// ran. Gives its id, and whether it is the first.
    pub fn add_client<E>(&mut self, workspace_root: String, launched: Option<Result<P, E>>) -> (result:
        Result<(ClientId, bool), E>)
        requires
            old(self)@.next_client_id < ClientId::MAX,
            launched is Some <==> old(self)@.server is None,
        ensures
            match launched {
                Some(Err(error)) => result == Err::<(ClientId, bool), E>(error),
                _ => result == Ok::<(ClientId, bool), E>(
                    (old(self)@.next_client_id, old(self)@.server is None),
                ),
            },
            final(self)@ == old(self)@.add(workspace_root@, launched),
            old(self)@.inv() ==> final(self)@.inv(),
    {
        proof {
            if old(self)@.inv() {
                law_add_keeps_order(old(self)@, workspace_root@, launched);
            }
        }
        let client_id = self.next_client_id;
        self.next_client_id = self.next_client_id + 1;
        self.client_states.insert(
            client_id,
            ClientState { workspace_root: workspace_root.clone(), initialized: false },
        );
        assert(self@ =~= old(self)@.with_client(workspace_root@));
        let is_first_client = self.server_process.is_none();
        match launched {
            Some(Ok(process)) => {
                self.server_process = Some(process);
            },
            Some(Err(error)) => {
                return Err(error);
            },
            None => {},
        }
        if !lists(&self.workspace_roots, &workspace_root) {
            self.workspace_roots.push(workspace_root);
        }
        assert(self@ =~= old(self)@.add(workspace_root@, launched));
        Ok((client_id, is_first_client))
    }

    /// The server, to be written to.
    pub fn get_server_process_mut(&mut self) -> (process: Option<&mut P>)
        ensures
            match process {
                Some(process) => {
                    &&& old(self)@.server == Some(*process)
                    &&& final(self)@ == old(self)@.with_server(*final(process))
                },
                None => old(self)@.server is None && final(self)@ == old(self)@,
            },
    {
        self.server_process.as_mut()
    }

    /// What is known of a client.
    pub fn get_client_state(&self, client_id: ClientId) -> (state: Option<&ClientState>)
        ensures
            match state {
                Some(state) => self@.clients.contains_key(client_id) && self@.clients[client_id]
                    == state@,
                None => !self@.clients.contains_key(client_id),
            },
    {
        self.client_states.get(&client_id)
    }

    /// Removes a client. Gives the root of its workspace, and the server that is
    /// to be stopped where the client was the last.
    pub fn remove_client(&mut self, client_id: ClientId) -> (removed: (Option<String>, Option<P>))
        ensures
            match removed.0 {
                Some(root) => old(self)@.clients.contains_key(client_id) && root@
                    == old(self)@.clients[client_id].workspace_root,
                None => !old(self)@.clients.contains_key(client_id),
            },
            removed.1 == old(self)@.stopped_by(client_id),
            final(self)@ == old(self)@.remove(client_id),
            old(self)@.inv() ==> final(self)@.inv(),
    {
        proof {
            if old(self)@.inv() {
                law_remove_keeps_order(old(self)@, client_id);
            }
        }
        match self.client_states.remove(&client_id) {
            Some(state) => {
                assert(self@.clients =~= old(self)@.clients.remove(client_id));
                assert(self.client_states@.dom() =~= self@.clients.dom());
                let workspace_root = state.workspace_root;
                self.workspace_roots = roots_other_than(&self.workspace_roots, &workspace_root);
                let mut stopped: Option<P> = None;
                if self.client_states.is_empty() {
                    stopped = self.server_process.take();
                }
                assert(self@ =~= old(self)@.remove(client_id));
                (Some(workspace_root), stopped)
            },
            None => {
                assert(self@ =~= old(self)@);
                (None, None)
            },
        }
    }

    /// Gives out the next id for a request.
    pub fn get_next_server_request_id(&mut self) -> (id: ServerRequestId)
        requires
            old(self)@.next_server_request_id < ServerRequestId::MAX,
        ensures
            id == old(self)@.next_server_request_id,
            final(self)@ == old(self)@.next_request(),
            old(self)@.inv() ==> final(self)@.inv(),
    {
        let id = self.next_server_request_id;
        self.next_server_request_id = self.next_server_request_id + 1;
        assert(self@ =~= old(self)@.next_request());
        id
    }

    /// Notes the request of a client under the id that the server knows.
    pub fn map_request(
        &mut self,
        server_id: ServerRequestId,
        client_id: ClientId,
        request_id: RequestId,
    )
        ensures
            final(self)@ == old(self)@.map_request(server_id, client_id, request_id),
            old(self)@.inv() ==> final(self)@.inv(),
    {
        self.request_map.insert(server_id, (client_id, request_id));
        assert(self@ =~= old(self)@.map_request(server_id, client_id, request_id));
    }

    /// Takes out the request that the server knows under this id: the client and
    /// its own id.
    pub fn get_request_mapping(&mut self, server_id: &ServerRequestId) -> (mapping: Option<
        (ClientId, RequestId),
    >)
        ensures
            mapping == old(self)@.mapping(*server_id),
            final(self)@ == old(self)@.unmap_request(*server_id),
            old(self)@.inv() ==> final(self)@.inv(),
    {
        let mapping = self.request_map.remove(server_id);
        assert(self@ =~= old(self)@.unmap_request(*server_id));
        mapping
    }
}

/// A new client leaves the state in order, and gets an id that nobody has.
pub proof fn law_add_keeps_order<P, E>(
    state: Workspaces<P>,
    root: Seq<char>,
    launched: Option<Result<P, E>>,
)
    requires
        state.inv(),
        state.next_client_id < ClientId::MAX,
    ensures
        state.add(root, launched).inv(),
        !state.clients.contains_key(state.next_client_id),
{
    let after = state.add(root, launched);
    let id = state.next_client_id;
    assert(after.clients.contains_key(id) && after.clients[id].workspace_root == root);
    assert forall|i: int| 0 <= i < after.roots.len() implies is_root_of_some(
        after.clients,
        #[trigger] after.roots[i],
    ) by {
        if i < state.roots.len() {
            assert(after.roots[i] == state.roots[i]);
            assert(is_root_of_some(state.clients, state.roots[i]));
            let owner = choose|owner: ClientId| #[trigger]
                state.clients.contains_key(owner) && state.clients[owner].workspace_root
                    == state.roots[i];
            assert(after.clients.contains_key(owner) && after.clients[owner].workspace_root
                == after.roots[i]);
        }
    }
}

/// What a filter keeps of a list without duplicates has none either, is in the
/// list, and passes.
proof fn lemma_filter<A>(list: Seq<A>, keep: spec_fn(A) -> bool)
    requires
        list.no_duplicates(),
    ensures
        list.filter(keep).no_duplicates(),
        forall|item: A| #[trigger]
            list.filter(keep).contains(item) <==> list.contains(item) && keep(item),
    decreases list.len(),
{
    reveal(Seq::filter);
    if list.len() > 0 {
        let shorter = list.drop_last();
        lemma_filter(shorter, keep);
        assert forall|item: A| #[trigger] list.filter(keep).contains(item) <==> list.contains(item)
            && keep(item) by {
            assert(list.contains(item) <==> shorter.contains(item) || item == list.last()) by {
                if list.contains(item) {
                    let i = choose|i: int| 0 <= i < list.len() && list[i] == item;
                    if i < shorter.len() {
                        assert(shorter[i] == item);
                    }
                }
                if shorter.contains(item) {
                    let i = choose|i: int| 0 <= i < shorter.len() && shorter[i] == item;
                    assert(list[i] == item);
                }
                assert(list[list.len() - 1] == list.last());
            }
            let kept = shorter.filter(keep);
            if keep(list.last()) {
                assert(list.filter(keep) == kept.push(list.last()));
                if kept.contains(item) {
                    let i = choose|i: int| 0 <= i < kept.len() && kept[i] == item;
                    assert(kept.push(list.last())[i] == item);
                }
                assert(kept.push(list.last())[kept.len() as int] == list.last());
            }
        }
        let kept = shorter.filter(keep);
        assert(!kept.contains(list.last())) by {
            if kept.contains(list.last()) {
                assert(shorter.contains(list.last()));
            }
        }
        assert forall|i: int, j: int|
            0 <= i < j < list.filter(keep).len() implies list.filter(keep)[i] != list.filter(
            keep,
        )[j] by {
            assert(list.filter(keep)[i] == kept[i]);
            assert(kept.contains(kept[i]));
            if j < kept.len() {
                assert(list.filter(keep)[j] == kept[j]);
            }
        }
    }
}

/// A client that leaves leaves the state in order; its root is no longer listed,
/// and every other root stays listed.
pub proof fn law_remove_keeps_order<P>(state: Workspaces<P>, id: ClientId)
    requires
        state.inv(),
    ensures
        state.remove(id).inv(),
        state.clients.contains_key(id) ==> forall|root: Seq<char>| #[trigger]
            state.remove(id).roots.contains(root) <==> state.roots.contains(root) && root
                != state.clients[id].workspace_root,
{
    if state.clients.contains_key(id) {
        let gone = state.clients[id].workspace_root;
        let after = state.remove(id);
        lemma_filter(state.roots, other_than(gone));
        assert forall|i: int| 0 <= i < after.roots.len() implies is_root_of_some(
            after.clients,
            #[trigger] after.roots[i],
        ) by {
            assert(after.roots.contains(after.roots[i]));
            let place = choose|place: int| 0 <= place < state.roots.len() && state.roots[place] == after.roots[i];
            assert(is_root_of_some(state.clients, state.roots[place]));
            let owner = choose|owner: ClientId| #[trigger]
                state.clients.contains_key(owner) && state.clients[owner].workspace_root
                    == after.roots[i];
            assert(after.clients.contains_key(owner) && after.clients[owner].workspace_root
                == after.roots[i]);
        }
    }
}

/// The root of a client that has been added is listed once, unless its server
/// could not be launched.
pub proof fn law_added_root_is_listed_once<P, E>(
    state: Workspaces<P>,
    root: Seq<char>,
    launched: Option<Result<P, E>>,
)
    requires
        state.inv(),
        state.next_client_id < ClientId::MAX,
        !(launched matches Some(Err(_))),
    ensures
        state.add(root, launched).roots.contains(root),
        state.add(root, launched).roots.no_duplicates(),
        forall|other: Seq<char>|
            other != root ==> (#[trigger] state.add(root, launched).roots.contains(other)
                <==> state.roots.contains(other)),
{
    law_add_keeps_order(state, root, launched);
    let after = state.add(root, launched);
    if !state.roots.contains(root) {
        assert(after.roots.last() == root);
        assert forall|other: Seq<char>| other != root implies (#[trigger] after.roots.contains(other)
            <==> state.roots.contains(other)) by {
            if state.roots.contains(other) {
                let i = choose|i: int| 0 <= i < state.roots.len() && state.roots[i] == other;
                assert(after.roots[i] == other);
            }
            if after.roots.contains(other) {
                let i = choose|i: int| 0 <= i < after.roots.len() && after.roots[i] == other;
                assert(state.roots[i] == other);
            }
        }
    }
}

/// A request that has been noted comes back under its id, once, whatever else is
/// under way.
pub proof fn law_mapped_request_comes_back<P>(
    state: Workspaces<P>,
    server_id: ServerRequestId,
    client_id: ClientId,
    request_id: RequestId,
    other: ServerRequestId,
)
    requires
        other != server_id,
    ensures
        ({
            let noted = state.map_request(server_id, client_id, request_id);
            &&& noted.mapping(server_id) == Some((client_id, request_id))
            &&& noted.unmap_request(server_id).mapping(server_id) is None
            &&& noted.mapping(other) == state.mapping(other)
            &&& noted.unmap_request(server_id).mapping(other) == state.mapping(other)
            &&& noted.unmap_request(other).mapping(server_id) == Some((client_id, request_id))
        }),
{
}

} // verus!
