use lsp_muxd::connection::{ConnectionEvent, ConnectionStep};
use lsp_muxd::multiplexer::{ClientStep, ManagerError, RemoveStep};
use lsp_muxd::rpc::{Id, Message, Request};
use lsp_muxd::WorkspaceManager;
use serde_json::Value;

type Manager = WorkspaceManager<u8, &'static str>;

fn json(text: &str) -> Value {
    serde_json::from_str(text).unwrap()
}

fn event(text: &str) -> ConnectionEvent {
    ConnectionEvent::from_value(json(text))
}

#[test]
fn values_of_a_client_are_events() {
    assert_eq!(
        event("{\"jsonrpc\":\"2.0\",\"method\":\"m\",\"id\":1}"),
        ConnectionEvent::Received(Message::Request(Request {
            method: "m".to_string(),
            id: Some(Id::Number(1)),
            params: None
        }))
    );
    assert_eq!(event("[]"), ConnectionEvent::Unrecognized);
}

#[test]
fn requests_are_handled_and_responses_ignored() {
    let mut manager = Manager::new();
    let a = manager.register_client("a");
    manager.server_started(1);
    assert_eq!(
        manager.handle_connection_event(a, event("{\"jsonrpc\":\"2.0\",\"method\":\"m\",\"id\":9}")),
        ConnectionStep::Go(ClientStep::SendServer(json(
            "{\"jsonrpc\":\"2.0\",\"id\":1,\"method\":\"m\",\"params\":null}"
        )))
    );
    assert_eq!(
        manager.handle_connection_event(a, event("{\"jsonrpc\":\"2.0\",\"id\":1,\"result\":0}")),
        ConnectionStep::Go(ClientStep::Ignored)
    );
}

/// Two clients that have named their roots, and a server.
fn shared() -> (Manager, u64, u64) {
    let mut manager = Manager::new();
    let a = manager.register_client("a");
    let b = manager.register_client("b");
    manager.handle_connection_event(a, initialize("file:///projectA"));
    manager.server_started(1);
    manager.handle_connection_event(b, initialize("file:///projectB"));
    (manager, a, b)
}

fn initialize(root: &str) -> ConnectionEvent {
    event(&format!(
        "{{\"jsonrpc\":\"2.0\",\"id\":1,\"method\":\"initialize\",
          \"params\":{{\"rootUri\":\"{}\",\"capabilities\":{{}}}}}}",
        root
    ))
}

fn folder_gone(uri: &str) -> RemoveStep<u8> {
    RemoveStep::SendServer(json(&format!(
        "{{\"jsonrpc\":\"2.0\",\"method\":\"workspace/didChangeWorkspaceFolders\",
          \"params\":{{\"event\":{{\"added\":[],
            \"removed\":[{{\"uri\":\"{}\",\"name\":\"\"}}]}}}}}}",
        uri
    )))
}

fn is_gone(manager: &Manager, client: u64) -> bool {
    let message = Message::Request(Request { method: "m".to_string(), id: None, params: None });
    manager.send_client_message(client, message).is_none()
}

#[test]
fn what_cannot_be_read_removes_the_client() {
    let (mut manager, a, b) = shared();
    assert_eq!(
        manager.handle_connection_event(a, event("5")),
        ConnectionStep::Fail(ManagerError::InvalidRequest, folder_gone("file:///projectA"))
    );
    assert!(is_gone(&manager, a));
    assert!(!is_gone(&manager, b));
    assert!(manager.server_runs());
    assert_eq!(
        manager.handle_connection_event(b, ConnectionEvent::Broken),
        ConnectionStep::Fail(ManagerError::InvalidInput, RemoveStep::StopServer(1))
    );
    assert!(is_gone(&manager, b));
    assert!(!manager.server_runs());
}

#[test]
fn a_refused_request_removes_the_client() {
    let mut manager = Manager::new();
    let a = manager.register_client("a");
    assert_eq!(
        manager.handle_connection_event(a, event("{\"jsonrpc\":\"2.0\",\"method\":\"m\"}")),
        ConnectionStep::Fail(ManagerError::ServerDown, RemoveStep::Nothing)
    );
    assert!(is_gone(&manager, a));
    let (mut manager, a, b) = shared();
    let rootless = "{\"jsonrpc\":\"2.0\",\"id\":2,\"method\":\"initialize\",
                     \"params\":{\"capabilities\":{}}}";
    assert_eq!(
        manager.handle_connection_event(b, event(rootless)),
        ConnectionStep::Fail(ManagerError::RootUriNotPresent, folder_gone("file:///projectB"))
    );
    assert!(is_gone(&manager, b));
    assert!(!is_gone(&manager, a));
}

#[test]
fn a_client_can_be_dismissed_once() {
    let (mut manager, a, b) = shared();
    assert_eq!(manager.dismiss(a), folder_gone("file:///projectA"));
    assert!(is_gone(&manager, a));
    assert_eq!(manager.dismiss(a), RemoveStep::Nothing);
    assert_eq!(manager.dismiss(b), RemoveStep::StopServer(1));
    assert!(!manager.server_runs());
}

#[test]
fn a_client_whose_server_did_not_start_is_dismissed_quietly() {
    let mut manager = Manager::new();
    let a = manager.register_client("a");
    let b = manager.register_client("b");
    manager.handle_connection_event(a, initialize("file:///projectA"));
    assert_eq!(manager.dismiss(a), RemoveStep::Nothing);
    assert!(is_gone(&manager, a));
    assert!(!is_gone(&manager, b));
}

#[test]
fn a_closed_connection_removes_the_client() {
    let mut manager = Manager::new();
    let a = manager.register_client("a");
    let b = manager.register_client("b");
    manager.server_started(1);
    assert_eq!(
        manager.handle_connection_event(a, ConnectionEvent::Closed),
        ConnectionStep::Leave(RemoveStep::Nothing)
    );
    assert_eq!(
        manager.handle_connection_event(a, ConnectionEvent::Closed),
        ConnectionStep::Fail(ManagerError::ClientNotFound, RemoveStep::Nothing)
    );
    assert_eq!(
        manager.handle_connection_event(b, ConnectionEvent::Closed),
        ConnectionStep::Leave(RemoveStep::StopServer(1))
    );
}

#[test]
fn an_initialize_without_an_id_is_told_apart() {
    assert!(event("{\"jsonrpc\":\"2.0\",\"method\":\"initialize\"}").lacks_id());
    assert!(!event("{\"jsonrpc\":\"2.0\",\"method\":\"initialize\",\"id\":null}").lacks_id());
    assert!(!event("{\"jsonrpc\":\"2.0\",\"method\":\"exit\"}").lacks_id());
    assert!(!ConnectionEvent::Closed.lacks_id());
}
