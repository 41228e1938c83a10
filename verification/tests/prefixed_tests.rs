use worker_rpc::httpserver::{http_server_status, http_reader_step, HttpReaderAction};
use worker_rpc::prefixed::{classify_prefixed_line, encode_prefixed, TagKind};
use worker_rpc::supervisor::{Supervisor, WorkerHandle, WorkerKind, WorkerMeta};

#[test]
fn classify_recognises_each_marker() {
    let f = classify_prefixed_line("__RESPONSE__:{\"a\":1}");
    assert_eq!(f.kind, TagKind::Response);
    assert_eq!(f.payload, "{\"a\":1}");
    let f = classify_prefixed_line("__READY__:{}");
    assert_eq!(f.kind, TagKind::Ready);
    assert_eq!(f.payload, "{}");
    let f = classify_prefixed_line("__REQUEST__:log");
    assert_eq!(f.kind, TagKind::Request);
    assert_eq!(f.payload, "log");
    let f = classify_prefixed_line("__ERROR__:oops");
    assert_eq!(f.kind, TagKind::Error);
    assert_eq!(f.payload, "oops");
    let f = classify_prefixed_line("__LOG__:starting");
    assert_eq!(f.kind, TagKind::Log);
    assert_eq!(f.payload, "starting");
}

#[test]
fn unmarked_line_passes_through_whole() {
    let f = classify_prefixed_line("Loading model weights...");
    assert_eq!(f.kind, TagKind::Plain);
    assert_eq!(f.payload, "Loading model weights...");
}

#[test]
fn prefixed_payload_round_trips() {
    for kind in [TagKind::Response, TagKind::Ready, TagKind::Request, TagKind::Error, TagKind::Log]
    {
        let payload = "{\"value\":\"caf\u{00e9}\"}";
        let line = encode_prefixed(kind, payload);
        let back = classify_prefixed_line(&line);
        assert_eq!(back.kind, kind);
        assert_eq!(back.payload, payload);
    }
}

#[test]
fn empty_payload_round_trips() {
    let line = encode_prefixed(TagKind::Log, "");
    let back = classify_prefixed_line(&line);
    assert_eq!(back.kind, TagKind::Log);
    assert_eq!(back.payload, "");
}

#[test]
fn ready_line_completes_http_server_start() {
    // A fake child announces readiness; the reader signals it, and the
    // installed worker reports a running status on the announced port.
    let line = "__READY__:{\"host\":\"127.0.0.1\",\"port\":9999,\"runtime\":\"sklearn\",\"model_info\":null}";
    let info = match http_reader_step(line, false) {
        HttpReaderAction::Ready { info } => info,
        _ => panic!("expected the readiness signal"),
    };
    assert_eq!(info.host, "127.0.0.1");
    assert_eq!(info.port, 9999);
    assert_eq!(info.runtime, "sklearn");

    let mut sup = Supervisor::new();
    sup.install(
        WorkerKind::HttpServer,
        WorkerHandle {
            pid: 4321,
            started_at_ms: 0,
            meta: WorkerMeta::Http {
                version_id: "v-1".to_string(),
                model_name: "m".to_string(),
                host: info.host.clone(),
                port: info.port,
                runtime: info.runtime.clone(),
                model_info: None,
            },
        },
    )
    .expect("slot was empty");
    let status = http_server_status(sup.get(WorkerKind::HttpServer));
    assert!(status.running);
    assert_eq!(status.port, Some(9999));
    assert_eq!(status.host.as_deref(), Some("127.0.0.1"));
    assert_eq!(status.url.as_deref(), Some("http://127.0.0.1:9999"));
}

#[test]
fn second_ready_line_is_ignored() {
    let line = "__READY__:{\"host\":\"h\",\"port\":1,\"runtime\":\"r\"}";
    match http_reader_step(line, true) {
        HttpReaderAction::Nothing => {}
        _ => panic!("a second readiness line must be ignored"),
    }
}

#[test]
fn error_before_ready_fails_the_start() {
    let line = "__ERROR__:{\"code\":\"LOAD\",\"message\":\"bad model\"}";
    match http_reader_step(line, false) {
        HttpReaderAction::ErrorReport { report, fail_start } => {
            assert!(fail_start);
            assert_eq!(report.code, "LOAD");
            assert_eq!(report.message, "bad model");
        }
        _ => panic!("expected an error report"),
    }
    match http_reader_step(line, true) {
        HttpReaderAction::ErrorReport { fail_start, .. } => assert!(!fail_start),
        _ => panic!("expected an error report"),
    }
}
