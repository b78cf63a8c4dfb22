use lsp_muxd::client_handler::{folder_removed_value, handle_client_event, ClientOutcome};
use lsp_muxd::protocol::{
    notification_value, request_value, response_value, JsonRpcContent, JsonRpcMessage, LineEvent,
};
use lsp_muxd::server_handler::{handle_server_event, ServerAction};
use lsp_muxd::workspace_manager::WorkspaceManager;
use serde_json::Value;

type Manager = WorkspaceManager<&'static str>;

fn json(text: &str) -> Value {
    serde_json::from_str(text).unwrap()
}

fn line(content: JsonRpcContent) -> LineEvent {
    LineEvent::Line(Some(JsonRpcMessage { jsonrpc: "2.0".to_string(), content }))
}

fn asks(id: Value, method: &str, params: Option<Value>) -> LineEvent {
    line(JsonRpcContent::Request { id, method: method.to_string(), params })
}

fn answers(id: Value, result: Option<Value>, error: Option<Value>) -> LineEvent {
    line(JsonRpcContent::Response { id, result, error })
}

fn notes(method: &str, params: Option<Value>) -> LineEvent {
    line(JsonRpcContent::Notification { method: method.to_string(), params })
}

fn add(manager: &mut Manager, root: &str) -> (u64, bool) {
    let launched: Option<Result<&'static str, &'static str>> =
        if manager.needs_server() { Some(Ok("server")) } else { None };
    manager.add_client(root.to_string(), launched).unwrap()
}

fn sent(outcome: ClientOutcome<&'static str>) -> Value {
    assert_eq!(outcome.stopped, None);
    assert!(!outcome.done);
    json(&outcome.line.unwrap())
}

fn quiet() -> ClientOutcome<&'static str> {
    ClientOutcome { line: None, stopped: None, done: false }
}

#[test]
fn the_first_client_needs_a_server() {
    let mut manager = Manager::new();
    assert!(manager.needs_server());
    assert_eq!(add(&mut manager, "/a"), (1, true));
    assert!(!manager.needs_server());
    assert_eq!(add(&mut manager, "/b"), (2, false));
    assert_eq!(manager.next_client_id(), 3);
    assert_eq!(manager.get_server_process_mut(), Some(&mut "server"));
    let state = manager.get_client_state(2).unwrap();
    assert_eq!(state.workspace_root, "/b");
    assert!(!state.initialized);
    assert!(manager.get_client_state(3).is_none());
}

#[test]
fn a_server_that_cannot_be_launched_is_an_error_and_the_client_stays() {
    let mut manager = Manager::new();
    assert_eq!(manager.add_client("/a".to_string(), Some(Err("no"))), Err("no"));
    assert!(manager.needs_server());
    assert!(manager.get_client_state(1).is_some());
    assert_eq!(add(&mut manager, "/b"), (2, true));
}

#[test]
fn the_last_client_stops_the_server() {
    let mut manager = Manager::new();
    add(&mut manager, "/a");
    add(&mut manager, "/b");
    assert_eq!(manager.remove_client(1), (Some("/a".to_string()), None));
    assert_eq!(manager.remove_client(1), (None, None));
    assert_eq!(manager.remove_client(2), (Some("/b".to_string()), Some("server")));
    assert!(manager.needs_server());
}

#[test]
fn a_mapped_request_comes_back_once() {
    let mut manager = Manager::new();
    assert_eq!(manager.next_server_request_id(), 1);
    let first = manager.get_next_server_request_id();
    let second = manager.get_next_server_request_id();
    assert_eq!((first, second), (1, 2));
    manager.map_request(first, 4, 40);
    manager.map_request(second, 5, 50);
    assert_eq!(manager.get_request_mapping(&first), Some((4, 40)));
    assert_eq!(manager.get_request_mapping(&first), None);
    assert_eq!(manager.get_request_mapping(&second), Some((5, 50)));
}

#[test]
fn a_request_is_passed_on_under_the_next_id_and_its_answer_comes_back() {
    let mut manager = Manager::new();
    add(&mut manager, "/a");
    add(&mut manager, "/b");
    let first =
        handle_client_event(&mut manager, 1, asks(json("7"), "hover", Some(json("[1]"))), true);
    assert_eq!(
        sent(first),
        json("{\"jsonrpc\":\"2.0\",\"id\":1,\"method\":\"hover\",\"params\":[1]}")
    );
    let second = handle_client_event(&mut manager, 2, asks(json("7"), "hover", None), true);
    assert_eq!(
        sent(second),
        json("{\"jsonrpc\":\"2.0\",\"id\":2,\"method\":\"hover\",\"params\":null}")
    );
    let reply = handle_server_event(&mut manager, answers(json("2"), Some(json("true")), None));
    assert_eq!(
        reply,
        ServerAction::Reply(2, json("{\"jsonrpc\":\"2.0\",\"id\":7,\"result\":true,\"error\":null}"))
    );
    let reply = handle_server_event(&mut manager, answers(json("1"), None, Some(json("{}"))));
    assert_eq!(
        reply,
        ServerAction::Reply(1, json("{\"jsonrpc\":\"2.0\",\"id\":7,\"result\":null,\"error\":{}}"))
    );
    let again = handle_server_event(&mut manager, answers(json("1"), None, None));
    assert_eq!(again, ServerAction::Nothing);
}

#[test]
fn an_id_that_is_no_number_counts_as_zero() {
    let mut manager = Manager::new();
    add(&mut manager, "/a");
    for (n, id) in ["\"x\"", "-1", "1.5", "null"].iter().enumerate() {
        handle_client_event(&mut manager, 1, asks(json(id), "m", None), true);
        let server_id = Value::from(n as u64 + 1);
        assert_eq!(
            handle_server_event(&mut manager, answers(server_id, None, None)),
            ServerAction::Reply(1, response_value(0, None, None))
        );
    }
}

#[test]
fn notifications_go_through_in_both_directions() {
    let mut manager = Manager::new();
    add(&mut manager, "/a");
    let outcome = handle_client_event(&mut manager, 1, notes("saved", None), true);
    assert_eq!(sent(outcome), json("{\"jsonrpc\":\"2.0\",\"method\":\"saved\",\"params\":null}"));
    assert_eq!(manager.next_server_request_id(), 1);
    assert_eq!(
        handle_server_event(&mut manager, notes("log", Some(json("{\"m\":1}")))),
        ServerAction::Broadcast(json("{\"jsonrpc\":\"2.0\",\"method\":\"log\",\"params\":{\"m\":1}}"))
    );
}

#[test]
fn what_cannot_be_passed_on_is_dropped() {
    let mut manager = Manager::new();
    add(&mut manager, "/a");
    let hover = || asks(json("1"), "hover", None);
    assert_eq!(handle_client_event(&mut manager, 9, hover(), true), quiet());
    assert_eq!(handle_client_event(&mut manager, 1, hover(), false), quiet());
    assert_eq!(handle_client_event(&mut manager, 1, answers(json("1"), None, None), true), quiet());
    assert_eq!(handle_client_event(&mut manager, 1, LineEvent::Line(None), true), quiet());
    assert_eq!(manager.next_server_request_id(), 1);
    let mut down = Manager::new();
    down.add_client("/a".to_string(), Some(Err("no"))).unwrap_err();
    assert_eq!(handle_client_event(&mut down, 1, hover(), true), quiet());
}

#[test]
fn a_client_that_closes_is_removed_and_the_server_told() {
    let mut manager = Manager::new();
    add(&mut manager, "/home/a");
    add(&mut manager, "/home/b");
    let outcome = handle_client_event(&mut manager, 1, LineEvent::Closed, true);
    assert!(outcome.done);
    assert_eq!(outcome.stopped, None);
    assert_eq!(
        json(&outcome.line.unwrap()),
        json(
            "{\"jsonrpc\":\"2.0\",\"method\":\"workspace/didChangeWorkspaceFolders\",
              \"params\":{\"event\":{\"added\":[],
                                     \"removed\":[{\"uri\":\"file:///home/a\",\"name\":\"a\"}]}}}"
        )
    );
    assert!(manager.get_client_state(1).is_none());
    let again = handle_client_event(&mut manager, 1, LineEvent::Closed, true);
    assert_eq!(again, ClientOutcome { line: None, stopped: None, done: true });
    let last = handle_client_event(&mut manager, 2, LineEvent::Closed, true);
    assert_eq!(last, ClientOutcome { line: None, stopped: Some("server"), done: true });
}

#[test]
fn a_client_that_closes_while_the_server_cannot_be_written_to_is_removed() {
    let mut manager = Manager::new();
    add(&mut manager, "/a");
    add(&mut manager, "/b");
    let outcome = handle_client_event(&mut manager, 1, LineEvent::Closed, false);
    assert_eq!(outcome, ClientOutcome { line: None, stopped: None, done: true });
    assert!(manager.get_client_state(1).is_none());
}

#[test]
fn a_client_that_cannot_be_read_is_removed() {
    let mut manager = Manager::new();
    add(&mut manager, "/home/a");
    add(&mut manager, "/home/b");
    let outcome = handle_client_event(&mut manager, 1, LineEvent::Failed, true);
    assert!(outcome.done);
    assert_eq!(outcome.stopped, None);
    assert_eq!(
        json(&outcome.line.unwrap()),
        folder_removed_value(&"/home/a".to_string())
    );
    assert!(manager.get_client_state(1).is_none());
    let last = handle_client_event(&mut manager, 2, LineEvent::Failed, true);
    assert_eq!(last, ClientOutcome { line: None, stopped: Some("server"), done: true });
    assert!(manager.needs_server());
}

#[test]
fn a_server_that_has_gone_is_given_up() {
    let mut manager = Manager::new();
    assert_eq!(handle_server_event(&mut manager, LineEvent::Closed), ServerAction::Stop);
    assert_eq!(handle_server_event(&mut manager, LineEvent::Failed), ServerAction::Stop);
}

#[test]
fn what_the_server_says_to_nobody_is_dropped() {
    let mut manager = Manager::new();
    for event in [
        LineEvent::Line(None),
        asks(json("1"), "m", None),
        answers(json("5"), None, None),
        answers(json("\"1\""), None, None),
    ] {
        assert_eq!(handle_server_event(&mut manager, event), ServerAction::Nothing);
    }
}

#[test]
fn messages_are_written() {
    assert_eq!(
        request_value(u64::MAX, "m".to_string(), None),
        json("{\"jsonrpc\":\"2.0\",\"id\":18446744073709551615,\"method\":\"m\",\"params\":null}")
    );
    assert_eq!(
        notification_value("m".to_string(), json("{\"a\":1}")),
        json("{\"jsonrpc\":\"2.0\",\"method\":\"m\",\"params\":{\"a\":1}}")
    );
    assert_eq!(
        response_value(3, Some(json("[]")), None),
        json("{\"jsonrpc\":\"2.0\",\"id\":3,\"result\":[],\"error\":null}")
    );
}

#[test]
fn a_folder_that_has_gone_is_named_by_its_last_segment() {
    for (root, name) in [("/x/y", "y"), ("/x/y/", ""), ("y", "y"), ("", "")] {
        assert_eq!(
            folder_removed_value(&root.to_string()),
            json(&format!(
                "{{\"jsonrpc\":\"2.0\",\"method\":\"workspace/didChangeWorkspaceFolders\",
                   \"params\":{{\"event\":{{\"added\":[],
                     \"removed\":[{{\"uri\":\"file://{}\",\"name\":\"{}\"}}]}}}}}}",
                root, name
            ))
        );
    }
}
