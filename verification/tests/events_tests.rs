use worker_rpc::events::{parse_output_line, ScriptEvent};

#[test]
fn log_event_parses() {
    match parse_output_line("{\"type\":\"log\",\"message\":\"loading data\"}") {
        ScriptEvent::Log { message } => assert_eq!(message, "loading data"),
        _ => panic!("expected a log event"),
    }
}

#[test]
fn progress_event_parses() {
    match parse_output_line("{\"type\":\"progress\",\"current\":3,\"total\":10}") {
        ScriptEvent::Progress { current, total } => {
            assert_eq!(current, 3);
            assert_eq!(total, 10);
        }
        _ => panic!("expected a progress event"),
    }
}

#[test]
fn error_event_parses() {
    match parse_output_line("{\"type\":\"error\",\"message\":\"boom\"}") {
        ScriptEvent::Error { message } => assert_eq!(message, "boom"),
        _ => panic!("expected an error event"),
    }
}

#[test]
fn complete_event_parses() {
    match parse_output_line("{\"type\":\"complete\"}") {
        ScriptEvent::Complete => {}
        _ => panic!("expected completion"),
    }
}

#[test]
fn metrics_event_carries_raw_payload() {
    match parse_output_line(
        "{\"type\":\"metrics\",\"modelType\":\"random_forest\",\"data\":{\"acc\":0.9}}",
    ) {
        ScriptEvent::Metrics { model_type, data } => {
            assert_eq!(model_type, "random_forest");
            assert_eq!(data, "{\"acc\":0.9}");
        }
        _ => panic!("expected metrics"),
    }
}

#[test]
fn data_profile_event_parses() {
    match parse_output_line("{\"type\":\"dataProfile\",\"nodeId\":\"n1\",\"data\":[1,2]}") {
        ScriptEvent::DataProfile { node_id, data } => {
            assert_eq!(node_id, "n1");
            assert_eq!(data, "[1,2]");
        }
        _ => panic!("expected a data profile"),
    }
}

#[test]
fn trial_event_parses() {
    match parse_output_line(
        "{\"type\":\"trial\",\"trialNumber\":7,\"params\":{\"lr\":0.1},\"score\":0.83,\"durationMs\":120}",
    ) {
        ScriptEvent::Trial { trial_number, params, score, duration_ms } => {
            assert_eq!(trial_number, 7);
            assert_eq!(params, "{\"lr\":0.1}");
            assert_eq!(score, "0.83");
            assert_eq!(duration_ms, Some(120));
        }
        _ => panic!("expected a trial"),
    }
}

#[test]
fn trial_without_duration_parses() {
    match parse_output_line(
        "{\"type\":\"trial\",\"trialNumber\":1,\"params\":{},\"score\":1}",
    ) {
        ScriptEvent::Trial { duration_ms, .. } => assert_eq!(duration_ms, None),
        _ => panic!("expected a trial"),
    }
}

#[test]
fn tuning_complete_event_parses() {
    match parse_output_line(
        "{\"type\":\"tuningComplete\",\"bestParams\":{\"d\":3},\"bestScore\":0.95,\"totalTrials\":20}",
    ) {
        ScriptEvent::TuningComplete { best_params, best_score, total_trials, duration_ms } => {
            assert_eq!(best_params, "{\"d\":3}");
            assert_eq!(best_score, "0.95");
            assert_eq!(total_trials, 20);
            assert_eq!(duration_ms, None);
        }
        _ => panic!("expected tuning completion"),
    }
}

#[test]
fn explain_events_parse() {
    match parse_output_line("{\"type\":\"explainProgress\",\"data\":{\"p\":1}}") {
        ScriptEvent::ExplainProgress { data } => assert_eq!(data, "{\"p\":1}"),
        _ => panic!("expected explain progress"),
    }
    match parse_output_line("{\"type\":\"featureImportance\",\"data\":[0.5]}") {
        ScriptEvent::FeatureImportance { data } => assert_eq!(data, "[0.5]"),
        _ => panic!("expected feature importance"),
    }
    match parse_output_line("{\"type\":\"shapData\",\"data\":{}}") {
        ScriptEvent::ShapData { data } => assert_eq!(data, "{}"),
        _ => panic!("expected shap data"),
    }
    match parse_output_line("{\"type\":\"partialDependence\",\"data\":{}}") {
        ScriptEvent::PartialDependence { data } => assert_eq!(data, "{}"),
        _ => panic!("expected partial dependence"),
    }
    match parse_output_line("{\"type\":\"explainMetadata\",\"data\":{}}") {
        ScriptEvent::ExplainMetadata { data } => assert_eq!(data, "{}"),
        _ => panic!("expected explain metadata"),
    }
    match parse_output_line("{\"type\":\"explainComplete\",\"durationMs\":900}") {
        ScriptEvent::ExplainComplete { duration_ms } => assert_eq!(duration_ms, 900),
        _ => panic!("expected explain completion"),
    }
}

#[test]
fn unparseable_line_falls_back_to_log() {
    let raw = "Traceback (most recent call last):";
    match parse_output_line(raw) {
        ScriptEvent::Log { message } => assert_eq!(message, raw),
        _ => panic!("expected the raw-line fallback"),
    }
}

#[test]
fn unknown_tag_falls_back_to_log() {
    let raw = "{\"type\":\"telemetry\",\"x\":1}";
    match parse_output_line(raw) {
        ScriptEvent::Log { message } => assert_eq!(message, raw),
        _ => panic!("expected the raw-line fallback"),
    }
}

#[test]
fn missing_required_field_falls_back_to_log() {
    let raw = "{\"type\":\"progress\",\"current\":3}";
    match parse_output_line(raw) {
        ScriptEvent::Log { message } => assert_eq!(message, raw),
        _ => panic!("expected the raw-line fallback"),
    }
}

#[test]
fn out_of_range_count_falls_back_to_log() {
    let raw = "{\"type\":\"progress\",\"current\":5000000000,\"total\":10}";
    match parse_output_line(raw) {
        ScriptEvent::Log { message } => assert_eq!(message, raw),
        _ => panic!("expected the raw-line fallback"),
    }
}
