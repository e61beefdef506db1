use darkdesk_api::connection::{
    frame_response, handle_read, handle_request, route_request, ConnStep, Request,
};
use darkdesk_api::handlers::{close_connection_by_id, route_action, Handler};
use darkdesk_api::json::{parse_json, JsonValue};
use darkdesk_api::messages::send_close_file_transfer;

fn step(data: &[u8]) -> String {
    match handle_read(data) {
        ConnStep::Close => "close".to_string(),
        ConnStep::Reply(r) => format!("reply:{}", r),
        ConnStep::Parse(t) => format!("parse:{}", t),
    }
}

fn parse(text: &str) -> Result<JsonValue, String> {
    parse_json(text)
}

#[test]
fn reads() {
    assert_eq!(step(b""), "close");
    assert_eq!(step(b"ping"), "reply:pong");
    assert_eq!(step(b"ping\0\0\0\0"), "reply:pong");
    assert_eq!(step(b"  heartbeat\r\n"), "reply:pong");
    assert_eq!(step(b"hi"), "reply:pong");
    assert_eq!(step(b"\0\0\0"), "reply:pong");
    assert_eq!(step(b"{\"a\":1}"), "parse:{\"a\":1}");
    assert_eq!(step(b"[1]\0\0"), "parse:[1]");
    assert_eq!(step(b"  {} \n\0"), "parse:  {} \n");
    assert_eq!(step(b"hello world"), "parse:hello world");
    assert_eq!(step("ééééé".as_bytes()), "parse:ééééé");
    assert_eq!(step(b"\xff\xfe"), "reply:pong");
}

#[test]
fn requests() {
    match route_request(&Err("expected value at line 1 column 1".to_string())) {
        Request::Reply(r) => assert_eq!(
            r,
            "{\"error\": \"Invalid JSON format: expected value at line 1 column 1\"}\n"
        ),
        Request::Dispatch { .. } => panic!("dispatched"),
    }
    for text in ["{}", "[1,2]", "{\"action\":1}", "{\"payload\":{}}"] {
        match route_request(&parse(text)) {
            Request::Reply(r) => assert_eq!(r, "{\"error\": \"Missing 'action' field\"}\n"),
            Request::Dispatch { .. } => panic!("dispatched"),
        }
    }
    match route_request(&parse("{\"action\":\"get_server_status\"}")) {
        Request::Dispatch { action, payload } => {
            assert_eq!(action, "get_server_status");
            assert!(matches!(payload, JsonValue::Null));
        }
        Request::Reply(_) => panic!("replied"),
    }
    match route_request(&parse("{\"action\":\"x\",\"payload\":{\"id\":\"7\"}}")) {
        Request::Dispatch { action, payload } => {
            assert_eq!(action, "x");
            assert_eq!(payload.str_member("id"), Some("7"));
        }
        Request::Reply(_) => panic!("replied"),
    }
}

#[test]
fn close_file_transfer_request_reaches_its_handler() {
    let out = send_close_file_transfer("122656574");
    let text = match handle_read(out.message.as_bytes()) {
        ConnStep::Parse(t) => t,
        _ => panic!("not parsed"),
    };
    match handle_request(&text) {
        Request::Dispatch { action, payload } => {
            assert_eq!(route_action(&action), Handler::CloseConnectionById);
            let o = close_connection_by_id(&payload);
            match &o.effects[0] {
                darkdesk_api::handlers::Effect::KillConnect(k) => {
                    assert_eq!(k, "--file-transfer 122656574")
                }
                _ => panic!("wrong effect"),
            }
        }
        Request::Reply(_) => panic!("replied"),
    }
}

#[test]
fn framing() {
    assert_eq!(frame_response("{}"), "{}\n");
    assert_eq!(frame_response(""), "\n");
}

#[test]
fn request_texts() {
    match handle_request("{\"action\": \"get_server_status\", \"payload\": {\"a\": [1, 2.5]}}") {
        Request::Dispatch { action, payload } => {
            assert_eq!(action, "get_server_status");
            assert!(matches!(payload.get("a"), Some(JsonValue::Array(_))));
        }
        Request::Reply(_) => panic!("replied"),
    }
    match handle_request("{\"action\": ") {
        Request::Reply(r) => assert!(r.starts_with("{\"error\": \"Invalid JSON format: EOF")),
        Request::Dispatch { .. } => panic!("dispatched"),
    }
    match handle_request("{\"payload\": 1}") {
        Request::Reply(r) => assert_eq!(r, "{\"error\": \"Missing 'action' field\"}\n"),
        Request::Dispatch { .. } => panic!("dispatched"),
    }
}
