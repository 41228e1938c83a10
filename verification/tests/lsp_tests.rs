use worker_rpc::framing::{decode_clen_frame, DecodeStep};
use worker_rpc::lsp::{
    encode_cancel_request, encode_notification, encode_request, get_status, initialize_params,
    route_message, LspRoute, INITIALIZE_TIMEOUT_MS, REQUEST_TIMEOUT_MS,
};
use worker_rpc::supervisor::{WorkerHandle, WorkerMeta};

fn body_of(framed: &Vec<u8>) -> String {
    match decode_clen_frame(framed) {
        DecodeStep::Frame { body, consumed } => {
            assert_eq!(consumed, framed.len());
            String::from_utf8(body).expect("utf-8 body")
        }
        _ => panic!("expected one whole frame"),
    }
}

#[test]
fn request_frame_round_trips() {
    let framed = encode_request(1, "initialize", "{}");
    let body = body_of(&framed);
    assert_eq!(body, "{\"jsonrpc\":\"2.0\",\"id\":1,\"method\":\"initialize\",\"params\":{}}");
}

#[test]
fn notification_frame_has_no_id() {
    let framed = encode_notification("initialized", "{}");
    let body = body_of(&framed);
    assert_eq!(body, "{\"jsonrpc\":\"2.0\",\"method\":\"initialized\",\"params\":{}}");
}

#[test]
fn cancel_notice_names_the_request() {
    let framed = encode_cancel_request(17);
    let body = body_of(&framed);
    assert_eq!(body, "{\"jsonrpc\":\"2.0\",\"method\":\"$/cancelRequest\",\"params\":{\"id\":17}}");
}

#[test]
fn method_with_special_characters_is_escaped() {
    let framed = encode_notification("odd\"name", "null");
    let body = body_of(&framed);
    assert_eq!(body, "{\"jsonrpc\":\"2.0\",\"method\":\"odd\\\"name\",\"params\":null}");
}

#[test]
fn diagnostics_are_forwarded_whole() {
    let msg = "{\"jsonrpc\":\"2.0\",\"method\":\"textDocument/publishDiagnostics\",\"params\":{\"uri\":\"file:///a.py\",\"diagnostics\":[]}}";
    match route_message(msg) {
        LspRoute::Diagnostics { params } => {
            // The forwarded parameters are re-serialised, which orders
            // the keys; compare the parsed values.
            let got: serde_json::Value = serde_json::from_str(&params).expect("valid json");
            let want: serde_json::Value =
                serde_json::from_str("{\"uri\":\"file:///a.py\",\"diagnostics\":[]}").unwrap();
            assert_eq!(got, want);
        }
        _ => panic!("expected diagnostics"),
    }
}

#[test]
fn window_messages_go_to_the_log() {
    let msg = "{\"method\":\"window/logMessage\",\"params\":{\"type\":3,\"message\":\"indexing\"}}";
    match route_message(msg) {
        LspRoute::LogMessage { message } => assert_eq!(message, "indexing"),
        _ => panic!("expected a log message"),
    }
    let msg = "{\"method\":\"window/showMessage\",\"params\":{\"message\":\"hi\"}}";
    match route_message(msg) {
        LspRoute::ShowMessage { message } => assert_eq!(message, "hi"),
        _ => panic!("expected a shown message"),
    }
}

#[test]
fn other_notifications_are_noted() {
    let msg = "{\"method\":\"telemetry/event\",\"params\":{}}";
    match route_message(msg) {
        LspRoute::OtherNotification { method } => assert_eq!(method, "telemetry/event"),
        _ => panic!("expected an unhandled notification"),
    }
}

#[test]
fn replies_resolve_by_identifier() {
    let msg = "{\"jsonrpc\":\"2.0\",\"id\":4,\"result\":{\"capabilities\":{}}}";
    match route_message(msg) {
        LspRoute::Reply { id, outcome } => {
            assert_eq!(id, 4);
            assert_eq!(outcome.unwrap(), "{\"capabilities\":{}}");
        }
        _ => panic!("expected a reply"),
    }
}

#[test]
fn error_replies_carry_the_message() {
    let msg = "{\"id\":9,\"error\":{\"code\":-32601,\"message\":\"method not found\"}}";
    match route_message(msg) {
        LspRoute::Reply { id, outcome } => {
            assert_eq!(id, 9);
            assert_eq!(outcome.unwrap_err(), "method not found");
        }
        _ => panic!("expected a reply"),
    }
    let msg = "{\"id\":9,\"error\":{\"code\":1}}";
    match route_message(msg) {
        LspRoute::Reply { outcome, .. } => assert_eq!(outcome.unwrap_err(), "Unknown error"),
        _ => panic!("expected a reply"),
    }
}

#[test]
fn reply_without_result_is_null() {
    let msg = "{\"id\":2}";
    match route_message(msg) {
        LspRoute::Reply { id, outcome } => {
            assert_eq!(id, 2);
            assert_eq!(outcome.unwrap(), "null");
        }
        _ => panic!("expected a reply"),
    }
}

#[test]
fn message_with_neither_method_nor_id_is_ignored() {
    match route_message("{\"jsonrpc\":\"2.0\"}") {
        LspRoute::Ignored => {}
        _ => panic!("expected it ignored"),
    }
    match route_message("not json at all") {
        LspRoute::Ignored => {}
        _ => panic!("expected it ignored"),
    }
}

#[test]
fn status_projects_the_slot() {
    let s = get_status(None, 2);
    assert!(!s.running);
    assert!(!s.initialized);
    assert_eq!(s.restart_count, 2);

    let h = WorkerHandle {
        pid: 11,
        started_at_ms: 5,
        meta: WorkerMeta::Lsp { initialized: true, pyright_version: Some("1.1.400".to_string()) },
    };
    let s = get_status(Some(&h), 0);
    assert!(s.running);
    assert!(s.initialized);
    assert_eq!(s.pyright_version.as_deref(), Some("1.1.400"));
}

#[test]
fn initialize_params_name_the_interpreter() {
    let params = initialize_params(42, Some("/work"), "/usr/bin/python3");
    let v: serde_json::Value = serde_json::from_str(&params).expect("valid json");
    assert_eq!(v["processId"], 42);
    assert_eq!(v["rootUri"], "file:///work");
    assert_eq!(v["initializationOptions"]["python"]["pythonPath"], "/usr/bin/python3");
    assert!(v["capabilities"]["textDocument"]["hover"].is_object());

    let params = initialize_params(1, None, "py");
    let v: serde_json::Value = serde_json::from_str(&params).expect("valid json");
    assert!(v["rootUri"].is_null());
}

#[test]
fn request_timeouts_match_the_protocol() {
    assert_eq!(REQUEST_TIMEOUT_MS, 5000);
    assert_eq!(INITIALIZE_TIMEOUT_MS, 30000);
}
