use lsp_muxd::lsp::{folder_added, folder_removed};
use lsp_muxd::multiplexer::{
    ClientStep, Delivery, InitializeStep, ManagerError, RemoveStep, ServerEvent, ServerStep,
};
use lsp_muxd::rpc::{Id, Message, Request, Response, RpcError};
use lsp_muxd::WorkspaceManager;
use serde_json::Value;
use tower_lsp::lsp_types::Url;

type Manager = WorkspaceManager<&'static str, &'static str>;

fn json(text: &str) -> Value {
    serde_json::from_str(text).unwrap()
}

fn request(method: &str, id: Option<Id>, params: Option<Value>) -> Request {
    Request { method: method.to_string(), id, params }
}

fn initialize(id: i64, root: &str) -> Request {
    let params = json(&format!("{{\"rootUri\":\"{}\",\"capabilities\":{{}}}}", root));
    request("initialize", Some(Id::Number(id)), Some(params))
}

fn answer(id: Id, result: Value) -> Message {
    Message::Response(Response { id, outcome: Ok(result) })
}

fn sorted(delivery: Delivery) -> (Vec<u64>, Message) {
    match delivery {
        Delivery::Broadcast(mut clients, message) => {
            clients.sort();
            (clients, message)
        }
        other => panic!("{:?}", other),
    }
}

/// Two clients, the first of which has started the server.
fn shared() -> (Manager, u64, u64) {
    let mut manager = Manager::new();
    let a = manager.register_client("a");
    let b = manager.register_client("b");
    manager.handle_client_message(a, initialize(1, "file:///projectA")).unwrap();
    manager.server_started("server");
    manager.handle_client_message(b, initialize(1, "file:///projectB")).unwrap();
    (manager, a, b)
}

#[test]
fn client_ids_count_up_and_are_not_reused() {
    let mut manager = Manager::new();
    assert_eq!(manager.next_client_id(), 1);
    assert_eq!(manager.register_client("a"), 1);
    assert_eq!(manager.register_client("b"), 2);
    assert_eq!(manager.remove_client(2), Ok(RemoveStep::Nothing));
    assert_eq!(manager.register_client("c"), 3);
    assert_eq!(manager.next_client_id(), 4);
}

#[test]
fn the_first_initialize_starts_the_server() {
    let mut manager = Manager::new();
    let a = manager.register_client("a");
    let step = manager.handle_client_message(a, initialize(1, "file:///projectA"));
    let sent = json(
        "{\"jsonrpc\":\"2.0\",\"id\":0,\"method\":\"initialize\",
          \"params\":{\"rootUri\":\"file:///projectA\",\"capabilities\":{}}}",
    );
    assert_eq!(step, Ok(ClientStep::Initialize(Id::Number(1), InitializeStep::Launch(sent))));
    assert!(!manager.server_runs());
    manager.server_started("server");
    assert!(manager.server_runs());
    assert_eq!(manager.server_process_mut(), Some(&mut "server"));
}

#[test]
fn a_later_initialize_adds_a_folder() {
    let mut manager = Manager::new();
    let a = manager.register_client("a");
    manager.handle_client_message(a, initialize(1, "file:///projectA")).unwrap();
    manager.server_started("server");
    let b = manager.register_client("b");
    let step = manager.handle_client_message(b, initialize(5, "file:///projectB"));
    let sent = json(
        "{\"jsonrpc\":\"2.0\",\"method\":\"workspace/didChangeWorkspaceFolders\",
          \"params\":{\"event\":{\"added\":[{\"uri\":\"file:///projectB\",\"name\":\"projectB\"}],
                                 \"removed\":[]}}}",
    );
    assert_eq!(step, Ok(ClientStep::Initialize(Id::Number(5), InitializeStep::AddFolder(sent))));
}

#[test]
fn initialize_can_fail() {
    let mut manager = Manager::new();
    let a = manager.register_client("a");
    let id = Some(Id::Number(1));
    assert_eq!(
        manager.handle_client_message(a, request("initialize", id.clone(), None)),
        Err(ManagerError::InvalidRequest)
    );
    assert_eq!(
        manager.handle_client_message(
            a,
            request("initialize", id.clone(), Some(json("{\"rootUri\":5,\"capabilities\":{}}")))
        ),
        Err(ManagerError::InvalidRequest)
    );
    assert_eq!(
        manager.handle_client_message(
            a,
            request("initialize", id, Some(json("{\"capabilities\":{}}")))
        ),
        Err(ManagerError::RootUriNotPresent)
    );
    assert_eq!(
        manager.handle_client_message(9, initialize(1, "file:///x")),
        Err(ManagerError::ClientGone)
    );
}

#[test]
fn initialize_goes_on_with_what_was_read_of_its_parameters() {
    let mut manager = Manager::new();
    let a = manager.register_client("a");
    assert_eq!(
        manager.initialize_client(a, Value::Null, None),
        Err(ManagerError::InvalidRequest)
    );
    assert_eq!(
        manager.initialize_client(a, Value::Null, Some(None)),
        Err(ManagerError::RootUriNotPresent)
    );
    let root = Url::parse("file:///projectA").unwrap();
    assert_eq!(
        manager.initialize_client(7, Value::Null, Some(Some(root.clone()))),
        Err(ManagerError::ClientGone)
    );
    assert_eq!(
        manager.initialize_client(a, json("[1]"), Some(Some(root))),
        Ok(InitializeStep::Launch(json(
            "{\"jsonrpc\":\"2.0\",\"id\":0,\"method\":\"initialize\",\"params\":[1]}"
        )))
    );
}

#[test]
fn initialize_is_answered_with_what_the_server_said_under_the_own_id() {
    let (mut manager, _, _) = shared();
    manager.await_initialized();
    assert_eq!(manager.initialize_reply(Id::Number(1)), None);
    let kept = manager.handle_server_message(answer(Id::Number(0), json("{\"capabilities\":{}}")));
    assert_eq!(kept, Ok(Delivery::Initialized));
    for id in [Id::Number(1), Id::String("x".to_string())] {
        assert_eq!(
            manager.initialize_reply(id.clone()),
            Some(answer(id, json("{\"capabilities\":{}}")))
        );
    }
}

#[test]
fn an_answer_to_initialize_is_kept_only_for_those_who_wait() {
    let (mut manager, _, _) = shared();
    assert_eq!(manager.waiting(), 0);
    let dropped = manager.handle_server_message(answer(Id::Number(0), json("1")));
    assert_eq!(dropped, Ok(Delivery::Initialized));
    assert_eq!(manager.initialize_reply(Id::Null), None);
    manager.await_initialized();
    assert_eq!(manager.waiting(), 1);
    manager.handle_server_message(answer(Id::Number(0), json("2"))).unwrap();
    manager.initialize_answered();
    assert_eq!(manager.waiting(), 0);
    manager.handle_server_message(answer(Id::Number(0), json("3"))).unwrap();
    assert_eq!(manager.initialize_reply(Id::Null), Some(answer(Id::Null, json("2"))));
}

#[test]
fn the_answer_to_initialize_outlives_the_server() {
    let (mut manager, a, b) = shared();
    manager.await_initialized();
    manager.handle_server_message(answer(Id::Number(0), json("1"))).unwrap();
    manager.initialize_answered();
    manager.remove_client(a).unwrap();
    manager.remove_client(b).unwrap();
    assert!(!manager.server_runs());
    assert_eq!(manager.initialize_reply(Id::Null), Some(answer(Id::Null, json("1"))));
}

#[test]
fn a_failed_initialize_is_answered_with_the_error() {
    let (mut manager, _, _) = shared();
    manager.await_initialized();
    let error = RpcError { code: -32603, message: "no".to_string(), data: None };
    let failed = Message::Response(Response { id: Id::Number(0), outcome: Err(error.clone()) });
    assert_eq!(manager.handle_server_message(failed), Ok(Delivery::Initialized));
    assert_eq!(
        manager.initialize_reply(Id::Number(4)),
        Some(Message::Response(Response { id: Id::Number(4), outcome: Err(error) }))
    );
}

#[test]
fn requests_go_to_the_server_under_ids_of_their_own() {
    let (mut manager, a, b) = shared();
    let params = json("{\"line\":3}");
    assert_eq!(
        manager.handle_client_message(a, request("hover", Some(Id::Number(1)), Some(params))),
        Ok(ClientStep::SendServer(json(
            "{\"jsonrpc\":\"2.0\",\"id\":1,\"method\":\"hover\",\"params\":{\"line\":3}}"
        )))
    );
    assert_eq!(
        manager.handle_client_message(b, request("hover", Some(Id::Number(1)), None)),
        Ok(ClientStep::SendServer(json(
            "{\"jsonrpc\":\"2.0\",\"id\":2,\"method\":\"hover\",\"params\":null}"
        )))
    );
    assert_eq!(
        manager.handle_client_message(b, request("initialized", None, Some(json("{}")))),
        Ok(ClientStep::SendServer(json(
            "{\"jsonrpc\":\"2.0\",\"method\":\"initialized\",\"params\":{}}"
        )))
    );
}

#[test]
fn every_answer_finds_its_client() {
    let (mut manager, a, b) = shared();
    manager.handle_client_message(a, request("x", Some(Id::Number(10)), None)).unwrap();
    manager.handle_client_message(b, request("x", Some(Id::Number(10)), None)).unwrap();
    manager
        .handle_client_message(a, request("x", Some(Id::String("s".to_string())), None))
        .unwrap();
    let third = manager.handle_server_message(answer(Id::Number(3), json("3")));
    assert_eq!(third, Ok(Delivery::ToClient(a, answer(Id::String("s".to_string()), json("3")))));
    let second = manager.handle_server_message(answer(Id::Number(2), json("2")));
    assert_eq!(second, Ok(Delivery::ToClient(b, answer(Id::Number(10), json("2")))));
    let first = manager.handle_server_message(answer(Id::Number(1), json("1")));
    assert_eq!(first, Ok(Delivery::ToClient(a, answer(Id::Number(10), json("1")))));
    let again = manager.handle_server_message(answer(Id::Number(1), json("1")));
    assert_eq!(again, Err(ManagerError::UnknownResponse));
}

#[test]
fn an_answer_that_nobody_waits_for_is_unknown() {
    let (mut manager, _, _) = shared();
    for id in [Id::Number(77), Id::String("1".to_string()), Id::Null] {
        assert_eq!(
            manager.handle_server_message(answer(id, Value::Null)),
            Err(ManagerError::UnknownResponse)
        );
    }
}

#[test]
fn what_is_no_answer_goes_to_all() {
    let (mut manager, a, b) = shared();
    let note = Message::Request(request("window/logMessage", None, Some(json("{\"m\":1}"))));
    let delivery = manager.handle_server_message(note.clone()).unwrap();
    assert_eq!(sorted(delivery), (vec![a, b], note));
}

#[test]
fn values_of_the_server_are_read_as_messages() {
    let (mut manager, a, b) = shared();
    manager.handle_client_message(b, request("x", Some(Id::Number(8)), None)).unwrap();
    assert_eq!(
        manager.handle_server_value(json("{\"jsonrpc\":\"2.0\",\"id\":1,\"result\":true}")),
        Ok(Delivery::ToClient(b, answer(Id::Number(8), json("true"))))
    );
    assert_eq!(
        manager.handle_server_value(json("{\"id\":1,\"result\":true}")),
        Err(ManagerError::UnrecognizedMessage)
    );
    let delivery = manager
        .handle_server_value(json("{\"jsonrpc\":\"2.0\",\"method\":\"note\"}"))
        .unwrap();
    assert_eq!(sorted(delivery), (vec![a, b], Message::Request(request("note", None, None))));
}

#[test]
fn only_its_end_or_unreadable_output_stops_the_server_loop() {
    let (mut manager, _, b) = shared();
    manager.handle_client_message(b, request("x", Some(Id::Number(8)), None)).unwrap();
    let value = json("{\"jsonrpc\":\"2.0\",\"id\":1,\"result\":true}");
    assert_eq!(
        manager.handle_server_event(ServerEvent::Received(value.clone())),
        ServerStep::Deliver(Delivery::ToClient(b, answer(Id::Number(8), json("true"))))
    );
    assert_eq!(
        manager.handle_server_event(ServerEvent::Received(value)),
        ServerStep::Report(ManagerError::UnknownResponse)
    );
    assert_eq!(
        manager.handle_server_event(ServerEvent::Received(json("[]"))),
        ServerStep::Report(ManagerError::UnrecognizedMessage)
    );
    assert_eq!(manager.handle_server_event(ServerEvent::Broken), ServerStep::Stop);
    assert_eq!(manager.handle_server_event(ServerEvent::Closed), ServerStep::Stop);
    assert!(manager.server_runs());
}

#[test]
fn exit_and_shutdown_are_ignored() {
    let (mut manager, a, b) = shared();
    assert_eq!(
        manager.handle_client_message(a, request("exit", None, None)),
        Ok(ClientStep::Ignored)
    );
    assert_eq!(
        manager.handle_client_message(b, request("shutdown", Some(Id::Number(2)), None)),
        Ok(ClientStep::Ignored)
    );
    assert!(manager.server_runs());
    assert_eq!(
        manager.handle_server_message(answer(Id::Number(1), Value::Null)),
        Err(ManagerError::UnknownResponse)
    );
}

#[test]
fn without_a_server_nothing_is_passed_on() {
    let mut manager = Manager::new();
    let a = manager.register_client("a");
    assert_eq!(
        manager.handle_client_message(a, request("hover", Some(Id::Number(4)), None)),
        Err(ManagerError::ServerDown)
    );
    assert_eq!(
        manager.send_server_message(request("hover", None, None)),
        Err(ManagerError::ServerDown)
    );
    assert_eq!(
        manager.handle_server_message(answer(Id::Number(1), Value::Null)),
        Ok(Delivery::ToClient(a, answer(Id::Number(4), Value::Null)))
    );
}

#[test]
fn a_client_that_leaves_takes_its_folder_along() {
    let (mut manager, a, b) = shared();
    assert_eq!(
        manager.remove_client(a),
        Ok(RemoveStep::SendServer(json(
            "{\"jsonrpc\":\"2.0\",\"method\":\"workspace/didChangeWorkspaceFolders\",
              \"params\":{\"event\":{\"added\":[],
                                     \"removed\":[{\"uri\":\"file:///projectA\",\"name\":\"\"}]}}}"
        )))
    );
    assert!(manager.server_runs());
    assert_eq!(manager.remove_client(b), Ok(RemoveStep::StopServer("server")));
    assert!(!manager.server_runs());
    assert_eq!(manager.remove_client(b), Err(ManagerError::ClientNotFound));
}

#[test]
fn a_client_without_a_root_leaves_quietly() {
    let (mut manager, _, _) = shared();
    let c = manager.register_client("c");
    assert_eq!(manager.remove_client(c), Ok(RemoveStep::Nothing));
    let mut alone = Manager::new();
    let d = alone.register_client("d");
    assert_eq!(alone.remove_client(d), Ok(RemoveStep::Nothing));
}

#[test]
fn a_named_root_needs_a_server_to_be_told() {
    let mut manager = Manager::new();
    let a = manager.register_client("a");
    manager.register_client("b");
    manager.handle_client_message(a, initialize(1, "file:///projectA")).unwrap();
    assert_eq!(manager.remove_client(a), Err(ManagerError::ServerDown));
    assert_eq!(manager.remove_client(a), Err(ManagerError::ClientNotFound));
}

#[test]
fn messages_to_a_client_go_on_its_channel() {
    let (mut manager, a, b) = shared();
    let message = answer(Id::Number(1), Value::Null);
    assert_eq!(manager.send_client_message(a, message.clone()), Some((&"a", message.clone())));
    assert_eq!(manager.send_client_message(b, message.clone()), Some((&"b", message.clone())));
    manager.remove_client(b).unwrap();
    assert_eq!(manager.send_client_message(b, message), None);
}

#[test]
fn the_request_of_a_client_that_has_gone_is_answered_to_nobody() {
    let (mut manager, a, b) = shared();
    manager.handle_client_message(b, request("x", Some(Id::Number(6)), None)).unwrap();
    manager.remove_client(b).unwrap();
    match manager.handle_server_message(answer(Id::Number(1), Value::Null)) {
        Ok(Delivery::ToClient(client, message)) => {
            assert_eq!(client, b);
            assert_eq!(manager.send_client_message(client, message), None);
        }
        other => panic!("{:?}", other),
    }
    assert_ne!(a, b);
}

#[test]
fn errors_have_texts() {
    assert_eq!(ManagerError::ClientNotFound.message(), "client not found");
    assert_eq!(ManagerError::ServerDown.message(), "server is down");
    assert_eq!(ManagerError::UnknownResponse.message(), "unknown response");
    assert_eq!(ManagerError::UnrecognizedMessage.message(), "Server sent unrecognized JSON");
    assert_eq!(ManagerError::InvalidInput.message(), "invalid input");
    assert_eq!(ManagerError::InvalidRequest.message(), "invalid request");
    assert_eq!(ManagerError::RootUriNotPresent.message(), "root uri not present");
    assert_eq!(ManagerError::ClientGone.message(), "client gone");
}

#[test]
fn folders_are_named_by_the_last_segment() {
    let folder = |url: &str| folder_added(Url::parse(url).unwrap()).to_value();
    let named = |uri: &str, name: &str| {
        json(&format!(
            "{{\"jsonrpc\":\"2.0\",\"method\":\"workspace/didChangeWorkspaceFolders\",
               \"params\":{{\"event\":{{\"added\":[{{\"uri\":\"{}\",\"name\":\"{}\"}}],
                                        \"removed\":[]}}}}}}",
            uri, name
        ))
    };
    assert_eq!(folder("file:///home/x/y"), named("file:///home/x/y", "y"));
    assert_eq!(folder("file:///home/x/"), named("file:///home/x/", ""));
    assert_eq!(folder("untitled:x"), named("untitled:x", "untitled:x"));
}

#[test]
fn a_removed_folder_is_known_by_its_uri() {
    assert_eq!(
        folder_removed(Url::parse("file:///home/x").unwrap()).to_value(),
        json(
            "{\"jsonrpc\":\"2.0\",\"method\":\"workspace/didChangeWorkspaceFolders\",
              \"params\":{\"event\":{\"added\":[],
                                     \"removed\":[{\"uri\":\"file:///home/x\",\"name\":\"\"}]}}}"
        )
    );
}
