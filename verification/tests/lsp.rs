use edit::correlator::CloseReason;
use edit::framing::{decode_next, encode, Decoded};
use edit::json::{CompletionReply, LogMessage};
use edit::lsp::{
    completion_items, completion_response, dispatch, envelope, message_from_members,
    parse_server_message, route_notification, Action, Dropped, Event, LoopState, LspClient,
    LspError, LspMessage, LspResponse, Position, Routed, ServerMessage,
};
use serde_json::Value;

fn body_of(wire: &[u8]) -> Value {
    match decode_next(wire) {
        Decoded::Message { start, end } => {
            assert_eq!(end, wire.len());
            let header = std::str::from_utf8(&wire[..start]).unwrap();
            assert_eq!(header, format!("Content-Length: {}\r\n\r\n", end - start));
            serde_json::from_slice(&wire[start..end]).unwrap()
        }
        other => panic!("no message: {:?}", other),
    }
}

fn text(v: &str) -> Value {
    Value::String(v.to_string())
}

fn number(n: u64) -> Value {
    Value::from(n)
}

#[test]
fn envelope_of_a_notification() {
    let body = envelope(None, "exit", b"{}".to_vec()).unwrap();
    assert_eq!(body, b"{\"jsonrpc\":\"2.0\",\"method\":\"exit\",\"params\":{}}".to_vec());
}

#[test]
fn envelope_of_a_request() {
    let body = envelope(Some(12), "a/b", b"[1, \"x\"]".to_vec()).unwrap();
    let v: Value = serde_json::from_slice(&body).unwrap();
    let object = v.as_object().unwrap();
    assert_eq!(object.len(), 4);
    assert_eq!(v["jsonrpc"], text("2.0"));
    assert_eq!(v["id"], number(12));
    assert_eq!(v["method"], text("a/b"));
    assert_eq!(v["params"], Value::Array(vec![number(1), text("x")]));
}

#[test]
fn envelope_escapes_the_method() {
    let body = envelope(None, "quo\"te", b"null".to_vec()).unwrap();
    let v: Value = serde_json::from_slice(&body).unwrap();
    assert_eq!(v["method"], text("quo\"te"));
    assert_eq!(v["params"], Value::Null);
}

#[test]
fn envelope_of_parameters_that_are_no_json() {
    assert_eq!(envelope(None, "m", b"{oops".to_vec()), None);
    assert_eq!(envelope(Some(1), "m", Vec::new()), None);
}

#[test]
fn a_response_is_told_by_id_and_result() {
    match parse_server_message(b"{\"jsonrpc\":\"2.0\",\"id\":7,\"result\":{\"a\":[1,2]}}") {
        Some(ServerMessage::Response { id, result }) => {
            assert_eq!(id, 7);
            assert_eq!(result, b"{\"a\":[1,2]}".to_vec());
        }
        other => panic!("no response: {:?}", other),
    }
}

#[test]
fn a_response_wins_over_a_notification() {
    let body = b"{\"id\":3,\"result\":null,\"method\":\"m\",\"params\":{}}";
    match parse_server_message(body) {
        Some(ServerMessage::Response { id, result }) => {
            assert_eq!(id, 3);
            assert_eq!(result, b"null".to_vec());
        }
        other => panic!("no response: {:?}", other),
    }
}

#[test]
fn a_notification_is_told_by_method_and_params() {
    let body = b"{\"jsonrpc\":\"2.0\",\"method\":\"window/logMessage\",\"params\":{\"type\":3,\"message\":\"hi\"}}";
    match parse_server_message(body) {
        Some(ServerMessage::Notification { method, params }) => {
            assert_eq!(method, "window/logMessage");
            let v: Value = serde_json::from_slice(&params).unwrap();
            assert_eq!(v["type"], number(3));
            assert_eq!(v["message"], text("hi"));
        }
        other => panic!("no notification: {:?}", other),
    }
}

#[test]
fn a_request_from_the_server_reads_as_a_notification() {
    let body = b"{\"id\":3,\"method\":\"m\",\"params\":[]}";
    assert!(matches!(parse_server_message(body), Some(ServerMessage::Notification { .. })));
}

#[test]
fn bodies_of_no_shape_are_no_message() {
    assert!(parse_server_message(b"").is_none());
    assert!(parse_server_message(b"not json").is_none());
    assert!(parse_server_message(b"[1,2]").is_none());
    assert!(parse_server_message(b"{}").is_none());
    assert!(parse_server_message(b"{\"id\":1}").is_none());
    assert!(parse_server_message(b"{\"id\":\"one\",\"result\":1}").is_none());
    assert!(parse_server_message(b"{\"id\":-1,\"result\":1}").is_none());
    assert!(parse_server_message(b"{\"method\":\"m\"}").is_none());
    assert!(parse_server_message(b"{\"method\":5,\"params\":{}}").is_none());
    assert!(parse_server_message(b"{\"id\":1,\"error\":{\"code\":1}}").is_none());
}

#[test]
fn members_make_up_a_message() {
    assert!(matches!(
        message_from_members(Some(1), Some(b"1".to_vec()), None, None),
        Some(ServerMessage::Response { id: 1, .. })
    ));
    assert!(matches!(
        message_from_members(Some(1), None, Some("m".to_string()), Some(b"1".to_vec())),
        Some(ServerMessage::Notification { .. })
    ));
    assert!(message_from_members(Some(1), None, Some("m".to_string()), None).is_none());
    assert!(message_from_members(None, Some(b"1".to_vec()), None, Some(b"1".to_vec())).is_none());
}

#[test]
fn a_log_message_goes_to_the_log() {
    match dispatch("window/logMessage", b"{\"type\":1,\"message\":\"broken\"}") {
        Routed::Log(LogMessage { kind, message }) => {
            assert_eq!(kind, "Error");
            assert_eq!(message, "broken");
        }
        _ => panic!("not logged"),
    }
    match dispatch("window/logMessage", b"{\"type\":4,\"message\":\"\"}") {
        Routed::Log(LogMessage { kind, message }) => {
            assert_eq!(kind, "Log");
            assert_eq!(message, "");
        }
        _ => panic!("not logged"),
    }
}

#[test]
fn a_log_message_without_its_fields_is_malformed() {
    assert!(matches!(dispatch("window/logMessage", b"{\"type\":1}"), Routed::Malformed));
    assert!(matches!(dispatch("window/logMessage", b"nonsense"), Routed::Malformed));
}

#[test]
fn other_notifications_are_unhandled() {
    let params = b"{\"type\":1,\"message\":\"broken\"}";
    assert!(matches!(dispatch("window/showMessage", params), Routed::Unhandled));
    assert!(matches!(dispatch("Window/LogMessage", params), Routed::Unhandled));
    assert!(matches!(dispatch("", params), Routed::Unhandled));
    let log = LogMessage { kind: "Info".to_string(), message: "m".to_string() };
    assert!(matches!(route_notification("$/progress", Some(log)), Routed::Unhandled));
    assert!(matches!(route_notification("window/logMessage", None), Routed::Malformed));
}

fn labels(items: &[lsp_types::CompletionItem]) -> Vec<String> {
    items.iter().map(|i| i.label.clone()).collect()
}

#[test]
fn a_bare_array_of_two_items_comes_out_in_order() {
    let reply = b"[{\"label\":\"alpha\"},{\"label\":\"beta\",\"detail\":\"fn\"}]";
    match completion_response(reply) {
        Some(LspResponse::Completion(items)) => {
            assert_eq!(labels(&items), vec!["alpha".to_string(), "beta".to_string()]);
            assert_eq!(items[1].detail, Some("fn".to_string()));
        }
        None => panic!("no completion"),
    }
}

#[test]
fn a_list_with_a_flag_gives_the_same_items() {
    let bare = b"[{\"label\":\"alpha\"},{\"label\":\"beta\"}]";
    let flagged = b"{\"isIncomplete\":true,\"items\":[{\"label\":\"alpha\"},{\"label\":\"beta\"}]}";
    let unflagged = b"{\"isIncomplete\":false,\"items\":[{\"label\":\"alpha\"},{\"label\":\"beta\"}]}";
    let Some(LspResponse::Completion(a)) = completion_response(bare) else { panic!("bare") };
    let Some(LspResponse::Completion(b)) = completion_response(flagged) else { panic!("flagged") };
    let Some(LspResponse::Completion(c)) = completion_response(unflagged) else { panic!("plain") };
    assert_eq!(a, b);
    assert_eq!(a, c);
    assert_eq!(labels(&b), vec!["alpha".to_string(), "beta".to_string()]);
}

#[test]
fn either_shape_is_brought_down_to_its_items() {
    let item = |l: &str| lsp_types::CompletionItem { label: l.to_string(), ..Default::default() };
    let items = vec![item("x"), item("y"), item("z")];
    assert_eq!(completion_items(CompletionReply::Array(items.clone())), items);
    assert_eq!(
        completion_items(CompletionReply::List { is_incomplete: true, items: items.clone() }),
        items
    );
    assert_eq!(completion_items(CompletionReply::Array(Vec::new())), Vec::new());
}

#[test]
fn a_reply_of_another_shape_is_no_completion() {
    assert!(completion_response(b"{\"items\":[]}").is_none());
    assert!(completion_response(b"[{\"nolabel\":1}]").is_none());
    assert!(completion_response(b"17").is_none());
    assert!(completion_response(b"").is_none());
}

#[test]
fn a_new_client_is_idle() {
    let client: LspClient<u8> = LspClient::new();
    assert_eq!(client.loop_state(), LoopState::Idle);
    assert_eq!(client.pending_count(), 0);
}

#[test]
fn send_message_frames_a_body() {
    assert_eq!(LspClient::<u8>::send_message(b"{}"), encode(b"{}"));
    assert_eq!(LspClient::<u8>::send_message(b"{}"), b"Content-Length: 2\r\n\r\n{}".to_vec());
}

#[test]
fn initialize_sends_the_handshake_and_awaits_the_reply() {
    let mut client: LspClient<&'static str> = LspClient::new();
    let wire = client.initialize(4242, "file:///home/me/project/", "handshake").unwrap();
    let v = body_of(&wire);
    assert_eq!(v["jsonrpc"], text("2.0"));
    assert_eq!(v["id"], number(1));
    assert_eq!(v["method"], text("initialize"));
    assert_eq!(v["params"]["processId"], number(4242));
    let folders = v["params"]["workspaceFolders"].as_array().unwrap();
    assert_eq!(folders.len(), 1);
    assert_eq!(folders[0]["uri"], text("file:///home/me/project/"));
    assert_eq!(folders[0]["name"], text("edit"));
    assert_eq!(client.loop_state(), LoopState::Running);
    assert_eq!(client.pending_count(), 1);

    let reply = b"{\"jsonrpc\":\"2.0\",\"id\":1,\"result\":{\"capabilities\":{}}}".to_vec();
    match client.run(Event::Frame(reply)) {
        Action::Deliver { waiter, result } => {
            assert_eq!(waiter, "handshake");
            assert_eq!(result, b"{\"capabilities\":{}}".to_vec());
        }
        _ => panic!("not delivered"),
    }
    assert_eq!(client.pending_count(), 0);
    assert_eq!(client.loop_state(), LoopState::Running);
}

#[test]
fn a_change_then_a_completion_send_two_messages_in_order() {
    let mut client: LspClient<u32> = LspClient::new();
    let mut sent: Vec<Vec<u8>> = Vec::new();
    sent.push(client.did_change("file:///a.rs", "fn main() {}", 2).unwrap());
    sent.push(
        client.completion("file:///a.rs", Position { line: 0, character: 3 }, 5).unwrap(),
    );
    assert_eq!(sent.len(), 2);

    let first = body_of(&sent[0]);
    assert!(first.get("id").is_none());
    assert_eq!(first["method"], text("textDocument/didChange"));
    assert_eq!(first["params"]["textDocument"]["uri"], text("file:///a.rs"));
    assert_eq!(first["params"]["textDocument"]["version"], number(2));
    let changes = first["params"]["contentChanges"].as_array().unwrap();
    assert_eq!(changes.len(), 1);
    assert_eq!(changes[0]["text"], text("fn main() {}"));
    assert!(changes[0].get("range").is_none());

    let second = body_of(&sent[1]);
    assert_eq!(second["id"], number(1));
    assert_eq!(second["method"], text("textDocument/completion"));
    assert_eq!(second["params"]["textDocument"]["uri"], text("file:///a.rs"));
    assert_eq!(second["params"]["position"]["line"], number(0));
    assert_eq!(second["params"]["position"]["character"], number(3));
    assert_eq!(client.pending_count(), 1);
}

#[test]
fn did_open_announces_the_whole_text() {
    let client: LspClient<u32> = LspClient::new();
    let v = body_of(&client.did_open("file:///src/lib.rs", "pub fn f() {}\n").unwrap());
    assert!(v.get("id").is_none());
    assert_eq!(v["method"], text("textDocument/didOpen"));
    assert_eq!(v["params"]["textDocument"]["uri"], text("file:///src/lib.rs"));
    assert_eq!(v["params"]["textDocument"]["languageId"], text("rust"));
    assert_eq!(v["params"]["textDocument"]["version"], number(1));
    assert_eq!(v["params"]["textDocument"]["text"], text("pub fn f() {}\n"));
    assert_eq!(client.pending_count(), 0);
}

#[test]
fn requests_get_fresh_identifiers() {
    let mut client: LspClient<u32> = LspClient::new();
    let a = body_of(&client.initialize(1, "file:///w/", 0).unwrap());
    let b = body_of(&client.completion("file:///a.rs", Position { line: 1, character: 1 }, 1).unwrap());
    let _ = client.did_change("file:///a.rs", "x", 3).unwrap();
    let c = body_of(&client.completion("file:///a.rs", Position { line: 2, character: 2 }, 2).unwrap());
    assert_eq!(a["id"], number(1));
    assert_eq!(b["id"], number(2));
    assert_eq!(c["id"], number(3));
    assert_eq!(client.pending_count(), 3);
}

#[test]
fn send_request_and_send_notification_build_the_envelopes() {
    let mut client: LspClient<u32> = LspClient::new();
    let v = body_of(&client.send_request("custom/ask", Some(b"{\"k\":true}".to_vec()), 9).unwrap());
    assert_eq!(v["id"], number(1));
    assert_eq!(v["method"], text("custom/ask"));
    assert_eq!(v["params"]["k"], Value::Bool(true));
    let wire = client.send_notification("custom/tell", Some(b"[]".to_vec())).unwrap();
    assert_eq!(
        wire,
        encode(b"{\"jsonrpc\":\"2.0\",\"method\":\"custom/tell\",\"params\":[]}")
    );
    assert_eq!(client.send_request("m", None, 1), Err(LspError::InvalidParams));
    assert_eq!(client.send_notification("m", None), Err(LspError::InvalidParams));
    assert_eq!(client.pending_count(), 1);
}

#[test]
fn a_uri_that_is_none_is_rejected_and_nothing_is_filed() {
    let mut client: LspClient<u32> = LspClient::new();
    let at = Position { line: 0, character: 0 };
    assert_eq!(client.completion("not a uri", at, 1), Err(LspError::InvalidParams));
    assert_eq!(client.did_change("not a uri", "x", 1), Err(LspError::InvalidParams));
    assert_eq!(client.did_open("", "x"), Err(LspError::InvalidParams));
    assert_eq!(client.initialize(1, "::", 1), Err(LspError::InvalidParams));
    assert_eq!(client.pending_count(), 0);
    assert_eq!(client.loop_state(), LoopState::Idle);
    let v = body_of(&client.completion("file:///a.rs", at, 1).unwrap());
    assert_eq!(v["id"], number(1));
}

#[test]
fn replies_in_another_order_reach_their_waiters() {
    let mut client: LspClient<char> = LspClient::new();
    let at = Position { line: 0, character: 0 };
    client.completion("file:///a.rs", at, 'a').unwrap();
    client.completion("file:///b.rs", at, 'b').unwrap();
    client.completion("file:///c.rs", at, 'c').unwrap();
    for (id, expected) in [(2u64, 'b'), (3, 'c'), (1, 'a')] {
        let reply = format!("{{\"id\":{},\"result\":[{}]}}", id, id).into_bytes();
        match client.run(Event::Frame(reply)) {
            Action::Deliver { waiter, result } => {
                assert_eq!(waiter, expected);
                assert_eq!(result, format!("[{}]", id).into_bytes());
            }
            _ => panic!("not delivered"),
        }
    }
    assert_eq!(client.pending_count(), 0);
}

#[test]
fn a_reply_to_nothing_is_dropped() {
    let mut client: LspClient<char> = LspClient::new();
    client.completion("file:///a.rs", Position { line: 0, character: 0 }, 'a').unwrap();
    let stray = ServerMessage::Response { id: 77, result: b"[]".to_vec() };
    assert!(matches!(
        client.handle_server_message(stray),
        Action::Drop(Dropped::UnknownResponse(77))
    ));
    assert_eq!(client.pending_count(), 1);
    let due = ServerMessage::Response { id: 1, result: b"[]".to_vec() };
    assert!(matches!(client.handle_server_message(due), Action::Deliver { waiter: 'a', .. }));
    let again = ServerMessage::Response { id: 1, result: b"[]".to_vec() };
    assert!(matches!(
        client.handle_server_message(again),
        Action::Drop(Dropped::UnknownResponse(1))
    ));
}

#[test]
fn notifications_are_logged_or_dropped() {
    let mut client: LspClient<char> = LspClient::new();
    let log = b"{\"method\":\"window/logMessage\",\"params\":{\"type\":2,\"message\":\"careful\"}}";
    match client.run(Event::Frame(log.to_vec())) {
        Action::Log(LogMessage { kind, message }) => {
            assert_eq!(kind, "Warning");
            assert_eq!(message, "careful");
        }
        _ => panic!("not logged"),
    }
    let bad = b"{\"method\":\"window/logMessage\",\"params\":[]}";
    assert!(matches!(
        client.run(Event::Frame(bad.to_vec())),
        Action::Drop(Dropped::MalformedNotification)
    ));
    let other = b"{\"method\":\"$/progress\",\"params\":{}}";
    assert!(matches!(
        client.run(Event::Frame(other.to_vec())),
        Action::Drop(Dropped::UnhandledNotification)
    ));
    assert!(matches!(
        client.run(Event::Frame(b"{{{".to_vec())),
        Action::Drop(Dropped::Undecodable)
    ));
    assert_eq!(client.loop_state(), LoopState::Idle);
}

#[test]
fn intents_are_sent_or_rejected() {
    let mut client: LspClient<u8> = LspClient::new();
    let change = LspMessage::DidChange("file:///a.rs".to_string(), "fn f() {}".to_string(), 4);
    match client.run(Event::Intent(change, 0)) {
        Action::Send(wire) => {
            let v = body_of(&wire);
            assert_eq!(v["method"], text("textDocument/didChange"));
            assert_eq!(v["params"]["textDocument"]["version"], number(4));
        }
        _ => panic!("not sent"),
    }
    assert_eq!(client.pending_count(), 0);
    let ask = LspMessage::Completion("file:///a.rs".to_string(), Position { line: 3, character: 9 });
    match client.run(Event::Intent(ask, 1)) {
        Action::Send(wire) => {
            let v = body_of(&wire);
            assert_eq!(v["id"], number(1));
            assert_eq!(v["params"]["position"]["line"], number(3));
            assert_eq!(v["params"]["position"]["character"], number(9));
        }
        _ => panic!("not sent"),
    }
    assert_eq!(client.pending_count(), 1);
    let bad = LspMessage::Completion("nowhere".to_string(), Position { line: 0, character: 0 });
    assert!(matches!(
        client.run(Event::Intent(bad, 2)),
        Action::Drop(Dropped::Rejected(LspError::InvalidParams))
    ));
    let wire = client
        .handle_client_message(LspMessage::DidChange("file:///b.rs".to_string(), String::new(), 1), 3)
        .unwrap();
    assert_eq!(body_of(&wire)["params"]["textDocument"]["uri"], text("file:///b.rs"));
    assert_eq!(client.pending_count(), 1);
}

#[test]
fn the_end_of_the_stream_releases_every_waiter() {
    let mut client: LspClient<char> = LspClient::new();
    let at = Position { line: 0, character: 0 };
    client.initialize(1, "file:///w/", 'i').unwrap();
    client.completion("file:///a.rs", at, 'a').unwrap();
    client.completion("file:///b.rs", at, 'b').unwrap();
    client.run(Event::Frame(b"{\"id\":2,\"result\":[]}".to_vec()));
    match client.run(Event::EndOfStream) {
        Action::Close(failed) => {
            assert_eq!(failed.reason, CloseReason::EndOfStream);
            assert_eq!(failed.waiters, vec![(1, 'i'), (3, 'b')]);
        }
        _ => panic!("not closed"),
    }
    assert_eq!(client.loop_state(), LoopState::Closed);
    assert_eq!(client.pending_count(), 0);
    assert!(matches!(client.run(Event::EndOfStream), Action::Ignore));
    assert!(matches!(client.run(Event::Frame(b"{\"id\":1,\"result\":[]}".to_vec())), Action::Ignore));
}

#[test]
fn a_closed_client_sends_nothing() {
    let mut client: LspClient<char> = LspClient::new();
    match client.run(Event::TransportFailed) {
        Action::Close(failed) => {
            assert_eq!(failed.reason, CloseReason::TransportFailed);
            assert!(failed.waiters.is_empty());
        }
        _ => panic!("not closed"),
    }
    let at = Position { line: 0, character: 0 };
    assert_eq!(client.completion("file:///a.rs", at, 'a'), Err(LspError::Closed));
    assert_eq!(client.did_open("file:///a.rs", "x"), Err(LspError::Closed));
    assert_eq!(client.did_change("file:///a.rs", "x", 2), Err(LspError::Closed));
    assert_eq!(client.initialize(1, "file:///w/", 'i'), Err(LspError::Closed));
    assert_eq!(client.loop_state(), LoopState::Closed);
    assert_eq!(client.pending_count(), 0);
}

#[test]
fn the_end_of_the_intents_closes_the_loop() {
    let mut client: LspClient<char> = LspClient::new();
    client.initialize(1, "file:///w/", 'i').unwrap();
    match client.run(Event::IntentsClosed) {
        Action::Close(failed) => {
            assert_eq!(failed.reason, CloseReason::IntentsClosed);
            assert_eq!(failed.waiters, vec![(1, 'i')]);
        }
        _ => panic!("not closed"),
    }
    match client.close(CloseReason::EndOfStream) {
        Action::Close(failed) => assert!(failed.waiters.is_empty()),
        _ => panic!("not closed"),
    }
}
