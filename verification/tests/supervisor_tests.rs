use worker_rpc::restart::{RestartAction, RestartPhase, RestartPolicy, RestartState};
use worker_rpc::supervisor::{Supervisor, WorkerHandle, WorkerKind, WorkerMeta};
use worker_rpc::WorkerError;

fn script_handle(pid: u32) -> WorkerHandle {
    WorkerHandle { pid, started_at_ms: 0, meta: WorkerMeta::Script }
}

#[test]
fn only_the_first_start_succeeds() {
    let mut sup = Supervisor::new();
    assert!(sup.install(WorkerKind::ScriptRunner, script_handle(10)).is_ok());
    for pid in [11, 12, 13] {
        match sup.install(WorkerKind::ScriptRunner, script_handle(pid)) {
            Err(WorkerError::AlreadyRunning) => {}
            other => panic!("expected AlreadyRunning, got {:?}", other.map(|_| ())),
        }
    }
    // The incumbent is untouched.
    assert_eq!(sup.get(WorkerKind::ScriptRunner).unwrap().pid, 10);
}

#[test]
fn stop_then_start_succeeds_again() {
    let mut sup = Supervisor::new();
    sup.install(WorkerKind::InferenceServer, script_handle(1)).unwrap();
    let removed = sup.remove(WorkerKind::InferenceServer).unwrap();
    assert_eq!(removed.pid, 1);
    assert!(!sup.is_running(WorkerKind::InferenceServer));
    assert!(sup.install(WorkerKind::InferenceServer, script_handle(2)).is_ok());
    assert_eq!(sup.get(WorkerKind::InferenceServer).unwrap().pid, 2);
}

#[test]
fn kinds_have_independent_slots() {
    let mut sup = Supervisor::new();
    sup.install(WorkerKind::ScriptRunner, script_handle(1)).unwrap();
    sup.install(WorkerKind::InferenceServer, script_handle(2)).unwrap();
    sup.install(WorkerKind::HttpServer, script_handle(3)).unwrap();
    sup.install(WorkerKind::LanguageServer, script_handle(4)).unwrap();
    assert!(sup.is_running(WorkerKind::ScriptRunner));
    assert!(sup.is_running(WorkerKind::LanguageServer));
    sup.remove(WorkerKind::HttpServer).unwrap();
    assert!(!sup.is_running(WorkerKind::HttpServer));
    assert!(sup.is_running(WorkerKind::InferenceServer));
}

#[test]
fn stopping_a_stopped_worker_reports_not_running() {
    let mut sup = Supervisor::new();
    match sup.remove(WorkerKind::HttpServer) {
        Err(WorkerError::NotRunning) => {}
        _ => panic!("expected NotRunning"),
    }
}

#[test]
fn crashes_restart_exactly_three_times_then_give_up() {
    // A child that crashes immediately on every spawn: three restart
    // attempts with the configured backoff delays, then the terminal
    // give-up, and no further automatic restart.
    let policy = RestartPolicy::language_server_default();
    let mut st = RestartState::new();
    st.on_spawn();
    let mut delays: Vec<u64> = Vec::new();
    let mut gave_up = false;
    for _crash in 0..5 {
        if st.phase == RestartPhase::GivenUp {
            break;
        }
        st.on_eof();
        assert_eq!(st.phase, RestartPhase::Crashed);
        match st.decide_restart(&policy) {
            RestartAction::Restart { delay_ms } => {
                delays.push(delay_ms);
                assert_eq!(st.phase, RestartPhase::Starting);
            }
            RestartAction::GiveUp => {
                gave_up = true;
                assert_eq!(st.phase, RestartPhase::GivenUp);
                break;
            }
        }
    }
    assert_eq!(delays, vec![1000, 3000, 10000]);
    assert!(gave_up);
    // Stream closure in the terminal state changes nothing.
    st.on_eof();
    assert_eq!(st.phase, RestartPhase::GivenUp);
}

#[test]
fn readiness_resets_the_crash_counter() {
    let policy = RestartPolicy::language_server_default();
    let mut st = RestartState::new();
    st.on_spawn();
    st.on_eof();
    assert!(matches!(st.decide_restart(&policy), RestartAction::Restart { delay_ms: 1000 }));
    st.on_ready();
    assert_eq!(st.crash_count, 0);
    st.on_eof();
    assert!(matches!(st.decide_restart(&policy), RestartAction::Restart { delay_ms: 1000 }));
}

#[test]
fn graceful_stop_walks_through_stopping() {
    let mut st = RestartState::new();
    st.on_spawn();
    st.on_ready();
    st.on_stop_requested();
    assert_eq!(st.phase, RestartPhase::Stopping);
    st.on_eof();
    assert_eq!(st.phase, RestartPhase::Stopped);
}
