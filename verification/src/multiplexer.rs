//! The clients that share one language server: who is connected, which request
//! belongs to whom, and what is to be sent where.

use crate::json::{clone_value, json_of, opt_json_of, value_or_null, Json};
use crate::lsp::{
    clone_url, folder_added, folder_change, folder_removed, initialize_root, opt_url_text,
    read_initialize_root, url_text, WorkspaceFolderView,
};
use crate::request_map::{PendingRequests, RequestMap};
use crate::rpc::{
    clone_outcome, outcome_view, Id, IdView, Message, MessageView, Request, RequestView, Response,
    ResponseView, RpcError, RpcErrorView,
};
use crate::{ClientId, RequestId};
use serde_json::Value;
use std::collections::HashMap;
use tower_lsp::lsp_types::Url;
use vstd::prelude::*;
use vstd::std_specs::iter::IteratorSpec;

verus! {

broadcast use vstd::std_specs::hash::group_hash_axioms;

/// The id of the one `initialize` request that the server gets.
pub const INIT_ID: i64 = 0;

/// Why a message could not be handled.
#[derive(Clone, Copy, Debug, PartialEq, Eq, Structural)]
pub enum ManagerError {
    ClientNotFound,
    ServerDown,
    UnknownResponse,
    UnrecognizedMessage,
    InvalidInput,
    InvalidRequest,
    RootUriNotPresent,
    ClientGone,
}

impl ManagerError {
    /// What the error says.
    pub open spec fn text(self) -> Seq<char> {
        match self {
            ManagerError::ClientNotFound => "client not found"@,
            ManagerError::ServerDown => "server is down"@,
            ManagerError::UnknownResponse => "unknown response"@,
            ManagerError::UnrecognizedMessage => "Server sent unrecognized JSON"@,
            ManagerError::InvalidInput => "invalid input"@,
            ManagerError::InvalidRequest => "invalid request"@,
            ManagerError::RootUriNotPresent => "root uri not present"@,
            ManagerError::ClientGone => "client gone"@,
        }
    }

    /// What the error says.
    pub fn message(&self) -> (message: &'static str)
        ensures
            message@ == self.text(),
    {
        match self {
            ManagerError::ClientNotFound => "client not found",
            ManagerError::ServerDown => "server is down",
            ManagerError::UnknownResponse => "unknown response",
            ManagerError::UnrecognizedMessage => "Server sent unrecognized JSON",
            ManagerError::InvalidInput => "invalid input",
            ManagerError::InvalidRequest => "invalid request",
            ManagerError::RootUriNotPresent => "root uri not present",
            ManagerError::ClientGone => "client gone",
        }
    }
}

/// A connected client: the root of its workspace, once it has named it, and the
/// channel `S` on which it is answered.
pub struct Client<S> {
    workspace_root: Option<Url>,
    client_response_tx: S,
}

pub struct ClientView<S> {
    pub root: Option<Seq<char>>,
    pub tx: S,
}

impl<S> View for Client<S> {
    type V = ClientView<S>;

    closed spec fn view(&self) -> ClientView<S> {
        ClientView { root: opt_url_text(self.workspace_root), tx: self.client_response_tx }
    }
}

impl<S: Clone> Clone for Client<S> {
    fn clone(&self) -> (copy: Self)
        ensures
            copy@.root == self@.root,
            cloned::<S>(self@.tx, copy@.tx),
    {
        let workspace_root = match &self.workspace_root {
            Some(root) => Some(clone_url(root)),
            None => None,
        };
        Client { workspace_root, client_response_tx: self.client_response_tx.clone() }
    }
}

/// What is left to do when a client has been removed.
#[derive(Debug, PartialEq)]
pub enum RemoveStep<P> {
    Nothing,
    /// The last client has gone: stop this server.
    StopServer(P),
    /// Send this to the server.
    SendServer(Value),
}

pub enum RemoveStepView<P> {
    Nothing,
    StopServer(P),
    SendServer(Json),
}

impl<P> View for RemoveStep<P> {
    type V = RemoveStepView<P>;

    open spec fn view(&self) -> RemoveStepView<P> {
        match self {
            RemoveStep::Nothing => RemoveStepView::Nothing,
            RemoveStep::StopServer(process) => RemoveStepView::StopServer(*process),
            RemoveStep::SendServer(value) => RemoveStepView::SendServer(json_of(*value)),
        }
    }
}

/// Where a message of the server goes.
#[derive(Debug, PartialEq)]
pub enum Delivery {
    /// It was the answer to `initialize`, and those who wait for it have it.
    Initialized,
    /// To this client.
    ToClient(ClientId, Message),
    /// To each of these clients.
    Broadcast(Vec<ClientId>, Message),
}

pub enum DeliveryView {
    Initialized,
    ToClient(ClientId, MessageView),
    Broadcast(Set<ClientId>, MessageView),
}

impl View for Delivery {
    type V = DeliveryView;

    open spec fn view(&self) -> DeliveryView {
        match self {
            Delivery::Initialized => DeliveryView::Initialized,
            Delivery::ToClient(client, message) => DeliveryView::ToClient(*client, message@),
            Delivery::Broadcast(clients, message) => DeliveryView::Broadcast(
                clients@.to_set(),
                message@,
            ),
        }
    }
}

/// What comes of waiting for the next message of the server.
#[derive(Debug, PartialEq)]
pub enum ServerEvent {
    /// A JSON value.
    Received(Value),
    /// What has arrived is not even JSON in a frame.
    Broken,
    /// The server has closed its output.
    Closed,
}

pub enum ServerEventView {
    Received(Json),
    Broken,
    Closed,
}

impl View for ServerEvent {
    type V = ServerEventView;

    open spec fn view(&self) -> ServerEventView {
        match self {
            ServerEvent::Received(value) => ServerEventView::Received(json_of(*value)),
            ServerEvent::Broken => ServerEventView::Broken,
            ServerEvent::Closed => ServerEventView::Closed,
        }
    }
}

/// How it goes on with the server.
#[derive(Debug, PartialEq)]
pub enum ServerStep {
    /// Deliver this, and wait for the next message.
    Deliver(Delivery),
    /// Report this, and wait for the next message.
    Report(ManagerError),
    /// The server needs no more attention.
    Stop,
}

pub enum ServerStepView {
    Deliver(DeliveryView),
    Report(ManagerError),
    Stop,
}

impl View for ServerStep {
    type V = ServerStepView;

    open spec fn view(&self) -> ServerStepView {
        match self {
            ServerStep::Deliver(delivery) => ServerStepView::Deliver(delivery@),
            ServerStep::Report(error) => ServerStepView::Report(*error),
            ServerStep::Stop => ServerStepView::Stop,
        }
    }
}

/// How a client's `initialize` goes on.
#[derive(Debug, PartialEq)]
pub enum InitializeStep {
    /// No server runs: start one, note it with `server_started`, and send it
    /// this.
    Launch(Value),
    /// Send this to the server that runs.
    AddFolder(Value),
}

pub enum InitializeStepView {
    Launch(Json),
    AddFolder(Json),
}

impl View for InitializeStep {
    type V = InitializeStepView;

    open spec fn view(&self) -> InitializeStepView {
        match self {
            InitializeStep::Launch(value) => InitializeStepView::Launch(json_of(*value)),
            InitializeStep::AddFolder(value) => InitializeStepView::AddFolder(json_of(*value)),
        }
    }
}

/// What is left to do with a message of a client.
#[derive(Debug, PartialEq)]
pub enum ClientStep {
    /// Nothing.
    Ignored,
    /// Send this to the server.
    SendServer(Value),
    /// Do this, wait (see `await_initialized`) until the server has answered
    /// `initialize`, and answer the client under its own id.
    Initialize(RequestId, InitializeStep),
}

pub enum ClientStepView {
    Ignored,
    SendServer(Json),
    Initialize(IdView, InitializeStepView),
}

impl View for ClientStep {
    type V = ClientStepView;

    open spec fn view(&self) -> ClientStepView {
        match self {
            ClientStep::Ignored => ClientStepView::Ignored,
            ClientStep::SendServer(value) => ClientStepView::SendServer(json_of(*value)),
            ClientStep::Initialize(id, step) => ClientStepView::Initialize(id@, step@),
        }
    }
}

/// The view of what a step came to.
pub open spec fn result_view<T: View>(result: Result<T, ManagerError>) -> Result<
    T::V,
    ManagerError,
> {
    match result {
        Ok(step) => Ok(step@),
        Err(error) => Err(error),
    }
}

/// The state of the multiplexer.
#[verifier::ext_equal]
pub struct Mux<P, S> {
    pub server: Option<P>,
    pub next_client_id: ClientId,
    pub clients: Map<ClientId, ClientView<S>>,
    pub requests: PendingRequests,
    /// What the server answered to `initialize`.
    pub initialize_response: Option<Result<Json, RpcErrorView>>,
    /// How many clients wait for that answer, or are being given it.
    pub waiting: usize,
}

impl<P, S> Mux<P, S> {
    /// Nobody is connected, and no server runs.
    pub open spec fn initial() -> Mux<P, S> {
        Mux {
            server: None,
            next_client_id: 1,
            clients: Map::empty(),
            requests: PendingRequests::none(),
            initialize_response: None,
            waiting: 0,
        }
    }

    /// Clients have ids that have been given out, and a server runs only for
    /// clients.
    pub open spec fn inv(self) -> bool {
        &&& self.clients.dom().finite()
        &&& forall|id: ClientId| #[trigger]
            self.clients.contains_key(id) ==> 1 <= id < self.next_client_id
        &&& 1 <= self.next_client_id
        &&& self.server is Some ==> !self.clients.is_empty()
    }

    /// With one more client, under the id that is next.
    pub open spec fn register(self, tx: S) -> Mux<P, S> {
        Mux {
            next_client_id: (self.next_client_id + 1) as ClientId,
            clients: self.clients.insert(self.next_client_id, ClientView { root: None, tx }),
            ..self
        }
    }

    /// Without a client. With the last one the server goes too.
    pub open spec fn without(self, id: ClientId) -> Mux<P, S> {
        let clients = self.clients.remove(id);
        Mux {
            clients,
            server: if clients.is_empty() {
                None
            } else {
                self.server
            },
            ..self
        }
    }

    /// What removing a client comes to: the last one takes the server with it;
    /// of another the server is told that its folder has gone, where the client
    /// had named one.
    pub open spec fn removal(self, id: ClientId) -> Result<RemoveStepView<P>, ManagerError> {
        if !self.clients.contains_key(id) {
            Err(ManagerError::ClientNotFound)
        } else if self.clients.remove(id).is_empty() {
            match self.server {
                Some(process) => Ok(RemoveStepView::StopServer(process)),
                None => Ok(RemoveStepView::Nothing),
            }
        } else {
            match self.clients[id].root {
                Some(root) => if self.server is Some {
                    Ok(
                        RemoveStepView::SendServer(
                            folder_change(
                                Seq::empty(),
                                seq![WorkspaceFolderView::unnamed(root)],
                            ).json(),
                        ),
                    )
                } else {
                    Err(ManagerError::ServerDown)
                },
                None => Ok(RemoveStepView::Nothing),
            }
        }
    }

    /// With a client gone, where it was registered.
    pub open spec fn gone(self, id: ClientId) -> Mux<P, S> {
        if self.clients.contains_key(id) {
            self.without(id)
        } else {
            self
        }
    }

    /// What is left to do when a client has gone, in whatever way: nothing
    /// where nobody can be told.
    pub open spec fn farewell(self, id: ClientId) -> RemoveStepView<P> {
        match self.removal(id) {
            Ok(step) => step,
            Err(_) => RemoveStepView::Nothing,
        }
    }

    /// After a message of the server: an answer to `initialize` is kept where
    /// somebody waits for one, and a request that has been answered no longer
    /// waits.
    pub open spec fn after_server(self, message: MessageView) -> Mux<P, S> {
        match message {
            MessageView::Response(response) => if response.id == IdView::Number(INIT_ID) {
                if self.waiting > 0 {
                    Mux { initialize_response: Some(response.outcome), ..self }
                } else {
                    self
                }
            } else {
                Mux { requests: self.requests.remove(response.id), ..self }
            },
            MessageView::Request(_) => self,
        }
    }

    /// Where a message of the server goes: a response to the client that asked,
    /// under the id that the client gave; anything else to all clients.
    pub open spec fn delivery(self, message: MessageView) -> Result<DeliveryView, ManagerError> {
        match message {
            MessageView::Response(response) => if response.id == IdView::Number(INIT_ID) {
                Ok(DeliveryView::Initialized)
            } else {
                match self.requests.lookup(response.id) {
                    Some((client, id)) => Ok(
                        DeliveryView::ToClient(
                            client,
                            MessageView::Response(ResponseView { id, outcome: response.outcome }),
                        ),
                    ),
                    None => Err(ManagerError::UnknownResponse),
                }
            },
            MessageView::Request(_) => Ok(DeliveryView::Broadcast(self.clients.dom(), message)),
        }
    }

    /// How it goes on with the server: only its end, or output that cannot be
    /// read, stops it.
    pub open spec fn server_step(self, event: ServerEventView) -> ServerStepView {
        match event {
            ServerEventView::Received(json) => match MessageView::read(json) {
                Some(message) => match self.delivery(message) {
                    Ok(delivery) => ServerStepView::Deliver(delivery),
                    Err(error) => ServerStepView::Report(error),
                },
                None => ServerStepView::Report(ManagerError::UnrecognizedMessage),
            },
            ServerEventView::Broken | ServerEventView::Closed => ServerStepView::Stop,
        }
    }

    /// The state after an event of the server.
    pub open spec fn after_server_event(self, event: ServerEventView) -> Mux<P, S> {
        match event {
            ServerEventView::Received(json) => match MessageView::read(json) {
                Some(message) => self.after_server(message),
                None => self,
            },
            ServerEventView::Broken | ServerEventView::Closed => self,
        }
    }

    /// With the root of a client's workspace noted.
    pub open spec fn with_root(self, id: ClientId, root: Seq<char>) -> Mux<P, S> {
        Mux {
            clients: self.clients.insert(
                id,
                ClientView { root: Some(root), tx: self.clients[id].tx },
            ),
            ..self
        }
    }

    /// After a client's `initialize`, whose parameters have been read as `root`.
    pub open spec fn after_initialize(self, id: ClientId, root: Option<Option<Seq<char>>>) -> Mux<
        P,
        S,
    > {
        match root {
            Some(Some(root)) => if self.clients.contains_key(id) {
                self.with_root(id, root)
            } else {
                self
            },
            _ => self,
        }
    }

    /// How a client's `initialize` goes on: the first starts the server and
    /// hands it these parameters, a later one adds its folder.
    pub open spec fn initialization(
        self,
        id: ClientId,
        params: Json,
        root: Option<Option<Seq<char>>>,
    ) -> Result<InitializeStepView, ManagerError> {
        match root {
            None => Err(ManagerError::InvalidRequest),
            Some(None) => Err(ManagerError::RootUriNotPresent),
            Some(Some(root)) => if !self.clients.contains_key(id) {
                Err(ManagerError::ClientGone)
            } else if self.server is None {
                Ok(InitializeStepView::Launch(initialize_request(params).json()))
            } else {
                Ok(
                    InitializeStepView::AddFolder(
                        folder_change(
                            seq![WorkspaceFolderView::named(root)],
                            Seq::empty(),
                        ).json(),
                    ),
                )
            },
        }
    }

    /// After a message of a client: `initialize` notes its root, and a request
    /// that is passed on waits for an answer.
    pub open spec fn after_client(self, id: ClientId, request: RequestView) -> Mux<P, S> {
        if request.method == "initialize"@ {
            self.after_initialize(id, initialize_root(Json::or_null(request.params)))
        } else if request.method == "exit"@ || request.method == "shutdown"@ {
            self
        } else {
            match request.id {
                Some(request_id) => Mux { requests: self.requests.insert(id, request_id), ..self },
                None => self,
            }
        }
    }

    /// The request as it is passed on to the server: under the server's id.
    pub open spec fn forwarded(self, request: RequestView) -> RequestView {
        RequestView {
            method: request.method,
            id: match request.id {
                Some(_) => Some(IdView::Number(self.requests.next)),
                None => None,
            },
            params: Some(Json::or_null(request.params)),
        }
    }

    /// What is left to do with a message of a client.
    pub open spec fn client_step(self, id: ClientId, request: RequestView) -> Result<
        ClientStepView,
        ManagerError,
    > {
        if request.method == "initialize"@ {
            let params = Json::or_null(request.params);
            match self.initialization(id, params, initialize_root(params)) {
                Ok(step) => Ok(ClientStepView::Initialize(request.id->0, step)),
                Err(error) => Err(error),
            }
        } else if request.method == "exit"@ || request.method == "shutdown"@ {
            Ok(ClientStepView::Ignored)
        } else if self.server is None {
            Err(ManagerError::ServerDown)
        } else {
            Ok(ClientStepView::SendServer(self.forwarded(request).json()))
        }
    }

    /// With a server that has been started.
    pub open spec fn started(self, process: P) -> Mux<P, S> {
        Mux { server: Some(process), ..self }
    }

    /// With one more client that waits for the answer to `initialize`.
    pub open spec fn waiting_more(self) -> Mux<P, S> {
        Mux { waiting: (self.waiting + 1) as usize, ..self }
    }

    /// With one client fewer that waits for the answer to `initialize`.
    pub open spec fn waiting_less(self) -> Mux<P, S> {
        Mux { waiting: (self.waiting - 1) as usize, ..self }
    }

    /// The answer to a client's `initialize`, once the server has answered its
    /// own.
    pub open spec fn initialize_reply(self, id: IdView) -> Option<MessageView> {
        match self.initialize_response {
            Some(outcome) => Some(MessageView::Response(ResponseView { id, outcome })),
            None => None,
        }
    }
}

/// The `initialize` request that the server gets.
pub open spec fn initialize_request(params: Json) -> RequestView {
    RequestView {
        method: "initialize"@,
        id: Some(IdView::Number(INIT_ID)),
        params: Some(params),
    }
}

/// The clients, the one server `P` that they share, and the requests under way.
pub struct WorkspaceManager<P, S> {
    server_process: Option<P>,
    next_client_id: ClientId,
    clients: HashMap<ClientId, Client<S>>,
    request_map: RequestMap,
    initialize_response: Option<Result<Value, RpcError>>,
    waiting: usize,
}

impl<P, S> View for WorkspaceManager<P, S> {
    type V = Mux<P, S>;

    closed spec fn view(&self) -> Mux<P, S> {
        Mux {
            server: self.server_process,
            next_client_id: self.next_client_id,
            clients: self.clients@.map_values(|client: Client<S>| client@),
            requests: self.request_map@,
            initialize_response: match self.initialize_response {
                Some(outcome) => Some(outcome_view(outcome)),
                None => None,
            },
            waiting: self.waiting,
        }
    }
}

/// Whether a request has this method.
fn has_method(request: &Request, method: &str) -> (yes: bool)
    ensures
        yes == (request.method@ == method@),
{
    request.method == method.to_owned()
}

impl<P, S> WorkspaceManager<P, S> {
    /// Nobody is connected, and no server runs.
    pub fn new() -> (manager: WorkspaceManager<P, S>)
        ensures
            manager@ == Mux::<P, S>::initial(),
            manager@.inv(),
    {
        let manager = WorkspaceManager {
            server_process: None,
            next_client_id: 1,
            clients: HashMap::new(),
            request_map: RequestMap::new(),
            initialize_response: None,
            waiting: 0,
        };
        assert(manager@ =~= Mux::<P, S>::initial());
        manager
    }

    /// The id that the next client will get.
    pub fn next_client_id(&self) -> (id: ClientId)
        ensures
            id == self@.next_client_id,
    {
        self.next_client_id
    }

    /// Notes a new client, and gives it an id.
    pub fn register_client(&mut self, client_response_tx: S) -> (client_id: ClientId)
        requires
            old(self)@.next_client_id < ClientId::MAX,
        ensures
            client_id == old(self)@.next_client_id,
            final(self)@ == old(self)@.register(client_response_tx),
            old(self)@.inv() ==> final(self)@.inv(),
            old(self)@.inv() ==> !old(self)@.clients.contains_key(client_id),
    {
        let client_id = self.next_client_id;
        self.next_client_id = self.next_client_id + 1;
        let client = Client { workspace_root: None, client_response_tx };
        self.clients.insert(client_id, client);
        assert(self@ =~= old(self)@.register(client_response_tx));
        proof {
            if old(self)@.inv() {
                crate::routing::law_register_keeps_order(old(self)@, client_response_tx);
            }
        }
        client_id
    }

    /// The message that is to be sent to the server as JSON, where a server
    /// runs.
    pub fn send_server_message(&self, request: Request) -> (result: Result<Value, ManagerError>)
        ensures
            match result {
                Ok(value) => self@.server is Some && json_of(value) == request@.json(),
                Err(error) => self@.server is None && error == ManagerError::ServerDown,
            },
    {
        match &self.server_process {
            Some(_) => Ok(request.to_value()),
            None => Err(ManagerError::ServerDown),
        }
    }

    /// Removes a client, and says what is left to do.
    pub fn remove_client(&mut self, client_id: ClientId) -> (result: Result<
        RemoveStep<P>,
        ManagerError,
    >)
        ensures
            result_view(result) == old(self)@.removal(client_id),
            final(self)@ == old(self)@.gone(client_id),
            old(self)@.inv() ==> final(self)@.inv(),
    {
        let removed = self.clients.remove(&client_id);
        proof {
            assert(self@.clients =~= old(self)@.clients.remove(client_id));
            assert(self.clients@.dom() =~= self@.clients.dom());
        }
        match removed {
            None => {
                assert(self@ =~= old(self)@);
                Err(ManagerError::ClientNotFound)
            },
            Some(client) => if self.clients.is_empty() {
                let server = self.server_process.take();
                assert(self@ =~= old(self)@.without(client_id));
                match server {
                    Some(process) => Ok(RemoveStep::StopServer(process)),
                    None => Ok(RemoveStep::Nothing),
                }
            } else {
                assert(self@ =~= old(self)@.without(client_id));
                match client.workspace_root {
                    Some(root) => match self.send_server_message(folder_removed(root)) {
                        Ok(value) => Ok(RemoveStep::SendServer(value)),
                        Err(error) => Err(error),
                    },
                    None => Ok(RemoveStep::Nothing),
                }
            },
        }
    }

    /// Removes a client whose connection has ended in a failure, and says what
    /// is left to do. A client that has been removed already needs nothing.
    pub fn dismiss(&mut self, client_id: ClientId) -> (step: RemoveStep<P>)
        ensures
            step@ == old(self)@.farewell(client_id),
            final(self)@ == old(self)@.gone(client_id),
            old(self)@.inv() ==> final(self)@.inv(),
    {
        match self.remove_client(client_id) {
            Ok(step) => step,
            Err(_) => RemoveStep::Nothing,
        }
    }

    /// The ids of all clients.
    fn client_ids(&self) -> (ids: Vec<ClientId>)
        ensures
            ids@.to_set() == self@.clients.dom(),
            ids@.no_duplicates(),
    {
        let mut ids: Vec<ClientId> = Vec::new();
        let keys = self.clients.keys();
        let ghost all = keys.remaining().unref();
        for id in it: keys
            invariant
                it.seq().unref() == all,
                ids@ == all.take(it.index() as int),
        {
            ids.push(*id);
        }
        assert(ids@ =~= all);
        assert(self.clients@.dom() =~= self@.clients.dom());
        ids
    }

    /// Handles a message of the server: keeps the answer to `initialize` where
    /// somebody waits for it, finds the client that a response is for, and passes anything else on to all.
    pub fn handle_server_message(&mut self, message: Message) -> (result: Result<
        Delivery,
        ManagerError,
    >)
        ensures
            result_view(result) == old(self)@.delivery(message@),
            final(self)@ == old(self)@.after_server(message@),
            result matches Ok(Delivery::Broadcast(clients, _)) ==> clients@.no_duplicates(),
            old(self)@.inv() ==> final(self)@.inv(),
    {
        match message {
            Message::Response(response) => {
                match response.id {
                    Id::Number(INIT_ID) => {
                        if self.waiting > 0 {
                            self.initialize_response = Some(response.outcome);
                        }
                        assert(self@ =~= old(self)@.after_server(message@));
                        return Ok(Delivery::Initialized);
                    },
                    _ => {},
                }
                let entry = self.request_map.remove(&response.id);
                assert(self@ =~= old(self)@.after_server(message@));
                match entry {
                    Some((client_id, request_id)) => Ok(
                        Delivery::ToClient(
                            client_id,
                            Message::Response(
                                Response { id: request_id, outcome: response.outcome },
                            ),
                        ),
                    ),
                    None => Err(ManagerError::UnknownResponse),
                }
            },
            Message::Request(request) => Ok(
                Delivery::Broadcast(self.client_ids(), Message::Request(request)),
            ),
        }
    }

    /// The channel of a client, with what is to be sent on it; none where the
    /// client has gone.
    pub fn send_client_message(&self, client: ClientId, message: Message) -> (target: Option<
        (&S, Message),
    >)
        ensures
            match target {
                Some((tx, sent)) => self@.clients.contains_key(client) && *tx
                    == self@.clients[client].tx && sent@ == message@,
                None => !self@.clients.contains_key(client),
            },
    {
        match self.clients.get(&client) {
            Some(client) => Some((&client.client_response_tx, message)),
            None => None,
        }
    }

    /// Handles a JSON value that the server has sent.
    pub fn handle_server_value(&mut self, value: Value) -> (result: Result<Delivery, ManagerError>)
        ensures
            match MessageView::read(json_of(value)) {
                Some(message) => {
                    &&& result_view(result) == old(self)@.delivery(message)
                    &&& final(self)@ == old(self)@.after_server(message)
                },
                None => {
                    &&& result_view(result) == Err::<DeliveryView, ManagerError>(
                        ManagerError::UnrecognizedMessage,
                    )
                    &&& final(self)@ == old(self)@
                },
            },
            result matches Ok(Delivery::Broadcast(clients, _)) ==> clients@.no_duplicates(),
            old(self)@.inv() ==> final(self)@.inv(),
    {
        match Message::from_value(value) {
            Ok(message) => self.handle_server_message(message),
            Err(_) => Err(ManagerError::UnrecognizedMessage),
        }
    }

    /// Handles an event of the server.
    pub fn handle_server_event(&mut self, event: ServerEvent) -> (step: ServerStep)
        ensures
            step@ == old(self)@.server_step(event@),
            final(self)@ == old(self)@.after_server_event(event@),
            step is Stop <==> !(event is Received),
            step matches ServerStep::Deliver(Delivery::Broadcast(clients, _))
                ==> clients@.no_duplicates(),
            old(self)@.inv() ==> final(self)@.inv(),
    {
        match event {
            ServerEvent::Received(value) => match self.handle_server_value(value) {
                Ok(delivery) => ServerStep::Deliver(delivery),
                Err(error) => ServerStep::Report(error),
            },
            ServerEvent::Broken => ServerStep::Stop,
            ServerEvent::Closed => ServerStep::Stop,
        }
    }

    /// Handles a message of a client: ignores `exit` and `shutdown`, starts
    /// what an `initialize` needs, and passes anything else on to the server. A
    /// request keeps waiting for its answer even where no server runs.
    pub fn handle_client_message(&mut self, client_id: ClientId, request: Request) -> (result:
        Result<ClientStep, ManagerError>)
        requires
            request@.method == "initialize"@ ==> request@.id is Some,
        ensures
            result_view(result) == old(self)@.client_step(client_id, request@),
            final(self)@ == old(self)@.after_client(client_id, request@),
            old(self)@.inv() ==> final(self)@.inv(),
    {
        if has_method(&request, "initialize") {
            let id = request.id.unwrap();
            match self.handle_client_initialize(client_id, request.params) {
                Ok(step) => Ok(ClientStep::Initialize(id, step)),
                Err(error) => Err(error),
            }
        } else if has_method(&request, "exit") || has_method(&request, "shutdown") {
            Ok(ClientStep::Ignored)
        } else {
            let id = match request.id {
                Some(id) => Some(self.request_map.insert(client_id, id)),
                None => None,
            };
            assert(self@ =~= old(self)@.after_client(client_id, request@));
            let params = value_or_null(request.params);
            let request = Request { method: request.method, id, params: Some(params) };
            match self.send_server_message(request) {
                Ok(value) => Ok(ClientStep::SendServer(value)),
                Err(error) => Err(error),
            }
        }
    }

    /// Handles the `initialize` request of a client.
    pub fn handle_client_initialize(&mut self, client_id: ClientId, params: Option<Value>) -> (result:
        Result<InitializeStep, ManagerError>)
        ensures
            ({
                let params = Json::or_null(opt_json_of(params));
                let root = initialize_root(params);
                &&& result_view(result) == old(self)@.initialization(client_id, params, root)
                &&& final(self)@ == old(self)@.after_initialize(client_id, root)
            }),
            old(self)@.inv() ==> final(self)@.inv(),
    {
        let params = value_or_null(params);
        let root = match read_initialize_root(clone_value(&params)) {
            Ok(root) => Some(root),
            Err(_) => None,
        };
        self.initialize_client(client_id, params, root)
    }

    /// Goes on with the `initialize` request of a client whose parameters have
    /// been read: they were no such parameters, named no root, or named one.
    pub fn initialize_client(
        &mut self,
        client_id: ClientId,
        params: Value,
        root: Option<Option<Url>>,
    ) -> (result: Result<InitializeStep, ManagerError>)
        ensures
            ({
                let root = match root {
                    Some(root) => Some(opt_url_text(root)),
                    None => None,
                };
                &&& result_view(result) == old(self)@.initialization(
                    client_id,
                    json_of(params),
                    root,
                )
                &&& final(self)@ == old(self)@.after_initialize(client_id, root)
            }),
            old(self)@.inv() ==> final(self)@.inv(),
    {
        let root = match root {
            None => {
                return Err(ManagerError::InvalidRequest);
            },
            Some(None) => {
                return Err(ManagerError::RootUriNotPresent);
            },
            Some(Some(root)) => root,
        };
        let client = match self.clients.remove(&client_id) {
            None => {
                assert(self@ =~= old(self)@);
                return Err(ManagerError::ClientGone);
            },
            Some(client) => client,
        };
        let client = Client {
            workspace_root: Some(clone_url(&root)),
            client_response_tx: client.client_response_tx,
        };
        self.clients.insert(client_id, client);
        proof {
            assert(self@ =~= old(self)@.with_root(client_id, url_text(root)));
            if old(self)@.inv() {
                assert(self@.clients.dom() =~= old(self)@.clients.dom());
                assert(self@.clients.contains_key(client_id));
            }
        }
        if self.server_process.is_none() {
            let request = Request {
                method: "initialize".to_owned(),
                id: Some(Id::Number(INIT_ID)),
                params: Some(params),
            };
            Ok(InitializeStep::Launch(request.to_value()))
        } else {
            Ok(InitializeStep::AddFolder(folder_added(root).to_value()))
        }
    }

    /// Notes the server that has been started for a client.
    pub fn server_started(&mut self, process: P)
        requires
            old(self)@.server is None,
        ensures
            final(self)@ == old(self)@.started(process),
            old(self)@.inv() && !old(self)@.clients.is_empty() ==> final(self)@.inv(),
    {
        self.server_process = Some(process);
        assert(self@ =~= old(self)@.started(process));
    }

    /// The server, to be written to.
    pub fn server_process_mut(&mut self) -> (process: Option<&mut P>)
        ensures
            match process {
                Some(process) => {
                    &&& old(self)@.server == Some(*process)
                    &&& final(self)@ == old(self)@.started(*final(process))
                },
                None => old(self)@.server is None && final(self)@ == old(self)@,
            },
    {
        self.server_process.as_mut()
    }

    /// Whether a server runs.
    pub fn server_runs(&self) -> (runs: bool)
        ensures
            runs == self@.server is Some,
    {
        self.server_process.is_some()
    }

    /// Notes that one more client waits for the answer to `initialize`.
    pub fn await_initialized(&mut self)
        requires
            old(self)@.waiting < usize::MAX,
        ensures
            final(self)@ == old(self)@.waiting_more(),
            old(self)@.inv() ==> final(self)@.inv(),
    {
        self.waiting = self.waiting + 1;
        assert(self@ =~= old(self)@.waiting_more());
    }

    /// Notes that a client which waited for the answer to `initialize` has been
    /// given it.
    pub fn initialize_answered(&mut self)
        requires
            old(self)@.waiting > 0,
        ensures
            final(self)@ == old(self)@.waiting_less(),
            old(self)@.inv() ==> final(self)@.inv(),
    {
        self.waiting = self.waiting - 1;
        assert(self@ =~= old(self)@.waiting_less());
    }

    /// How many clients wait for the answer to `initialize`.
    pub fn waiting(&self) -> (count: usize)
        ensures
            count == self@.waiting,
    {
        self.waiting
    }

    /// The answer to a client's `initialize`: what the server answered to its
    /// own, once it has, under the client's id.
    pub fn initialize_reply(&self, id: RequestId) -> (reply: Option<Message>)
        ensures
            match reply {
                Some(message) => self@.initialize_reply(id@) == Some(message@),
                None => self@.initialize_reply(id@) is None,
            },
    {
        match &self.initialize_response {
            Some(outcome) => Some(
                Message::Response(Response { id, outcome: clone_outcome(outcome) }),
            ),
            None => None,
        }
    }
}

} // verus!
