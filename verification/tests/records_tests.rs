use worker_rpc::httpserver::{can_delete_version, RequestStats};
use worker_rpc::indexing::toplevel_chunk;
use worker_rpc::jsontext::{
    extract_i64_field, extract_number_field, extract_raw_field, extract_str_field,
    extract_u64_field,
};
use worker_rpc::numtext::u64_to_dec;
use worker_rpc::records::{list_example_datasets, HttpServerConfig, PythonBundleError};
use worker_rpc::supervisor::{WorkerHandle, WorkerMeta};
use worker_rpc::WorkerError;

#[test]
fn error_tags_cover_the_taxonomy() {
    assert_eq!(WorkerError::SpawnFailed("x".to_string()).tag(), "spawn_failed");
    assert_eq!(WorkerError::AlreadyRunning.tag(), "already_running");
    assert_eq!(WorkerError::Timeout.tag(), "timeout");
    assert_eq!(WorkerError::Disconnected.tag(), "disconnected");
    assert_eq!(WorkerError::ProtocolError("bad".to_string()).tag(), "protocol_error");
    assert_eq!(WorkerError::NotRunning.tag(), "not_running");
}

#[test]
fn default_config_is_loopback_8080() {
    let c = HttpServerConfig::default();
    assert_eq!(c.host, "127.0.0.1");
    assert_eq!(c.port, 8080);
    assert!(!c.use_onnx);
    assert!(c.cors_origins.is_none());
}

#[test]
fn bundle_errors_describe_themselves() {
    assert_eq!(PythonBundleError::BinaryMissing.message(), "Python binary missing");
    assert_eq!(
        PythonBundleError::Corrupted("missing sklearn".to_string()).message(),
        "Bundle corrupted: missing sklearn"
    );
    assert_eq!(PythonBundleError::Io("denied".to_string()).message(), "IO error: denied");
}

#[test]
fn example_datasets_are_the_two_shipped() {
    let ds = list_example_datasets();
    assert_eq!(ds.len(), 2);
    assert_eq!(ds[0].id, "iris.csv");
    assert_eq!(ds[0].task_type, "classification");
    assert_eq!(ds[1].id, "california_housing.csv");
    assert_eq!(ds[1].target_column, "MedHouseVal");
}

#[test]
fn toplevel_chunk_hashes_the_content() {
    let chunk = toplevel_chunk("hello");
    assert_eq!(chunk.chunk_id, "toplevel:0");
    assert_eq!(chunk.content, "hello");
    assert_eq!(
        chunk.content_hash,
        "2cf24dba5fb0a30e26e83b2ac5b9e29e1b161e5c1fa7425e73043362938b9824"
    );
    assert_eq!(chunk.symbol_type, "toplevel");
    assert_eq!(chunk.start_line, 0);
    assert_eq!(chunk.end_line, 0);
}

#[test]
fn toplevel_chunk_spans_every_line() {
    let chunk = toplevel_chunk("a\nb\nc\n");
    assert_eq!(chunk.end_line, 2);
    let chunk = toplevel_chunk("");
    assert_eq!(chunk.end_line, 0);
}

#[test]
fn json_field_extraction_reads_the_text() {
    let s = "{\"a\":\"x\",\"n\":7,\"neg\":-3,\"obj\":{\"k\":1},\"f\":1.5}";
    assert_eq!(extract_str_field(s, "a").as_deref(), Some("x"));
    assert_eq!(extract_str_field(s, "n"), None);
    assert_eq!(extract_str_field(s, "missing"), None);
    assert_eq!(extract_u64_field(s, "n"), Some(7));
    assert_eq!(extract_u64_field(s, "neg"), None);
    assert_eq!(extract_i64_field(s, "neg"), Some(-3));
    assert_eq!(extract_raw_field(s, "obj").as_deref(), Some("{\"k\":1}"));
    assert_eq!(extract_number_field(s, "f").as_deref(), Some("1.5"));
    assert_eq!(extract_number_field(s, "a"), None);
    assert_eq!(extract_str_field("not json", "a"), None);
}

#[test]
fn decimal_text_is_exact() {
    assert_eq!(&u64_to_dec(0)[..], b"0");
    assert_eq!(&u64_to_dec(9)[..], b"9");
    assert_eq!(&u64_to_dec(1234567890)[..], b"1234567890");
    assert_eq!(&u64_to_dec(u64::MAX)[..], b"18446744073709551615");
}

#[test]
fn request_stats_count_and_window() {
    let mut stats = RequestStats::new();
    for i in 0..105u16 {
        stats.add_request(worker_rpc::httpserver::HttpRequestEntry {
            id: format!("r{}", i),
            timestamp: i as i64,
            method: "POST".to_string(),
            path: "/predict".to_string(),
            status_code: if i % 5 == 0 { 500 } else { 200 },
            latency: "1.5".to_string(),
            batch_size: 1,
        });
    }
    assert_eq!(stats.total_requests, 105);
    assert_eq!(stats.failed_requests, 21);
    assert_eq!(stats.successful_requests, 84);
    assert_eq!(stats.recent.len(), 100);
    // The oldest five were dropped.
    assert_eq!(stats.recent[0].id, "r5");
    assert_eq!(stats.recent[99].id, "r104");
    stats.reset();
    assert_eq!(stats.total_requests, 0);
    assert!(stats.recent.is_empty());
}

#[test]
fn serving_version_blocks_deletion() {
    let h = WorkerHandle {
        pid: 1,
        started_at_ms: 0,
        meta: WorkerMeta::Http {
            version_id: "v-7".to_string(),
            model_name: "m".to_string(),
            host: "h".to_string(),
            port: 1,
            runtime: "r".to_string(),
            model_info: None,
        },
    };
    assert!(!can_delete_version(Some(&h), "v-7"));
    assert!(can_delete_version(Some(&h), "v-8"));
    assert!(can_delete_version(None, "v-7"));
}
