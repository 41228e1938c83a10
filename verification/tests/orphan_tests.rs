use worker_rpc::orphan::{
    get_http_pid_file_path, get_pid_file_path, orphan_cleanup_plan, parse_pid_marker,
    pid_marker_contents,
};

fn parse(text: &str) -> Option<i32> {
    parse_pid_marker(&text.as_bytes().to_vec())
}

#[test]
fn plain_pid_parses() {
    assert_eq!(parse("12345"), Some(12345));
    assert_eq!(parse("0"), Some(0));
}

#[test]
fn surrounding_whitespace_is_trimmed() {
    assert_eq!(parse("  678 \n"), Some(678));
    assert_eq!(parse("\t42\r\n"), Some(42));
}

#[test]
fn signed_pids_parse() {
    assert_eq!(parse("-5"), Some(-5));
    assert_eq!(parse("+7"), Some(7));
    assert_eq!(parse("-2147483648"), Some(i32::MIN));
    assert_eq!(parse("2147483647"), Some(i32::MAX));
}

#[test]
fn garbage_names_no_process() {
    assert_eq!(parse(""), None);
    assert_eq!(parse("   "), None);
    assert_eq!(parse("abc"), None);
    assert_eq!(parse("12a"), None);
    assert_eq!(parse("+"), None);
    assert_eq!(parse("-"), None);
    assert_eq!(parse("1 2"), None);
}

#[test]
fn out_of_range_pids_are_rejected() {
    assert_eq!(parse("2147483648"), None);
    assert_eq!(parse("-2147483649"), None);
    assert_eq!(parse("99999999999999999999999"), None);
}

#[test]
fn marker_round_trips() {
    let contents = pid_marker_contents(4242);
    assert_eq!(&contents[..], b"4242");
    assert_eq!(parse_pid_marker(&contents), Some(4242));
}

#[test]
fn cleanup_always_removes_an_existing_marker() {
    let good = b"31337".to_vec();
    let plan = orphan_cleanup_plan(Some(&good));
    assert!(plan.remove_marker);
    assert_eq!(plan.kill_pid, Some(31337));

    // A stale or corrupt marker is still removed; there is just nothing
    // to signal.
    let bad = b"not-a-pid".to_vec();
    let plan = orphan_cleanup_plan(Some(&bad));
    assert!(plan.remove_marker);
    assert_eq!(plan.kill_pid, None);

    let plan = orphan_cleanup_plan(None);
    assert!(!plan.remove_marker);
    assert_eq!(plan.kill_pid, None);
}

#[test]
fn marker_paths_are_per_kind() {
    assert_eq!(get_pid_file_path("/data/app"), "/data/app/inference_server.pid");
    assert_eq!(get_http_pid_file_path("/data/app"), "/data/app/http_server.pid");
}
