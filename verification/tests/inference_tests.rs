use worker_rpc::correlator::PendingTable;
use worker_rpc::inference::{
    build_predict_command, failure_message, inference_ready_step, inference_server_status,
    parse_response_line, ReadyDecision, LOAD_TIMEOUT_SECS, PREDICT_TIMEOUT_SECS,
};
use worker_rpc::supervisor::{WorkerHandle, WorkerMeta};
use worker_rpc::WorkerError;

#[test]
fn response_line_parses_into_fields() {
    let line = "__RESPONSE__:{\"request_id\":\"r1\",\"status\":\"ok\",\"type\":\"ready\",\"model_info\":{\"type\":\"classifier\"}}";
    let rep = parse_response_line(line).expect("a reply");
    assert_eq!(rep.request_id, "r1");
    assert_eq!(rep.status, "ok");
    assert_eq!(rep.response_type.as_deref(), Some("ready"));
    assert_eq!(rep.message, None);
    assert_eq!(rep.model_info.as_deref(), Some("{\"type\":\"classifier\"}"));
}

#[test]
fn unmarked_or_incomplete_lines_are_no_reply() {
    assert!(parse_response_line("plain text").is_none());
    assert!(parse_response_line("__READY__:{\"request_id\":\"r\",\"status\":\"ok\"}").is_none());
    assert!(parse_response_line("__RESPONSE__:{\"status\":\"ok\"}").is_none());
    assert!(parse_response_line("__RESPONSE__:{\"request_id\":\"r\"}").is_none());
    assert!(parse_response_line("__RESPONSE__:not json").is_none());
}

#[test]
fn ready_step_decides_start_outcome() {
    let ready = parse_response_line(
        "__RESPONSE__:{\"request_id\":\"startup\",\"status\":\"ok\",\"type\":\"ready\"}",
    )
    .unwrap();
    assert_eq!(inference_ready_step(&ready), ReadyDecision::Ready);

    let failed = parse_response_line(
        "__RESPONSE__:{\"request_id\":\"startup\",\"status\":\"error\",\"message\":\"no such file\"}",
    )
    .unwrap();
    assert_eq!(inference_ready_step(&failed), ReadyDecision::Failed);
    assert_eq!(failure_message(&failed), "no such file");

    let failed_silent = parse_response_line(
        "__RESPONSE__:{\"request_id\":\"startup\",\"status\":\"error\"}",
    )
    .unwrap();
    assert_eq!(failure_message(&failed_silent), "Unknown error");

    let other = parse_response_line(
        "__RESPONSE__:{\"request_id\":\"p1\",\"status\":\"ok\"}",
    )
    .unwrap();
    assert_eq!(inference_ready_step(&other), ReadyDecision::Ignore);
}

#[test]
fn predict_command_is_exact_json() {
    let cmd = build_predict_command("req-1", "{\"rows\":[[1,2]]}");
    assert_eq!(
        cmd,
        "{\"cmd\":\"predict\",\"request_id\":\"req-1\",\"input\":{\"rows\":[[1,2]]}}"
    );
}

#[test]
fn predict_command_escapes_the_identifier() {
    let cmd = build_predict_command("a\"b\\c", "null");
    assert_eq!(cmd, "{\"cmd\":\"predict\",\"request_id\":\"a\\\"b\\\\c\",\"input\":null}");
    let cmd = build_predict_command("tab\tend", "1");
    assert_eq!(cmd, "{\"cmd\":\"predict\",\"request_id\":\"tab\\u0009end\",\"input\":1}");
}

#[test]
fn status_reflects_the_slot() {
    let status = inference_server_status(None, None);
    assert!(!status.running);
    assert_eq!(status.model_path, None);

    let h = WorkerHandle {
        pid: 7,
        started_at_ms: 0,
        meta: WorkerMeta::Inference {
            model_path: "/models/m1.joblib".to_string(),
            model_info: Some("{\"type\":\"regressor\"}".to_string()),
        },
    };
    let status = inference_server_status(Some(&h), Some(vec!["f1".to_string()]));
    assert!(status.running);
    assert_eq!(status.model_path.as_deref(), Some("/models/m1.joblib"));
    assert_eq!(status.model_info.as_deref(), Some("{\"type\":\"regressor\"}"));
    assert_eq!(status.feature_names, Some(vec!["f1".to_string()]));
}

#[test]
fn predict_request_times_out_and_leaves_no_entry() {
    // A prediction against a worker that never writes a matching reply:
    // the waiter is registered, the deadline passes, the sweep resolves
    // the call with a timeout and the pending table returns to baseline.
    let mut pending: PendingTable<&'static str> = PendingTable::new();
    let started_at: u64 = 1_000;
    let id = pending.register(started_at + 200, "predict-waiter");
    assert_eq!(pending.len(), 1);

    let expired = pending.take_expired(started_at + 200);
    assert_eq!(expired.len(), 1);
    assert_eq!(expired[0].id, id);
    let outcome: Result<String, WorkerError> = Err(WorkerError::Timeout);
    assert_eq!(outcome.unwrap_err().tag(), "timeout");
    assert_eq!(pending.len(), 0);
    assert!(pending.take(id).is_none());
}

#[test]
fn timeout_constants_match_the_protocol() {
    assert_eq!(LOAD_TIMEOUT_SECS, 30);
    assert_eq!(PREDICT_TIMEOUT_SECS, 10);
}
