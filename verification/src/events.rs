use vstd::prelude::*;
use crate::jsontext::{extract_number_field, extract_raw_field, extract_str_field,
    extract_u64_field, json_number_field, json_raw_field, json_str_field, json_u64_field,
    str_eq};

verus! {

/// One event decoded from the script runner's plain-line JSON stream,
/// or synthesised by the runner itself (`Exit`). Payloads that the
/// application only forwards — metrics tables, data profiles,
/// explanation artifacts, hyperparameters, scores — are carried as the
/// raw JSON text of the field.
pub enum ScriptEvent {
    Log { message: String },
    Progress { current: u32, total: u32 },
    Error { message: String },
    Metrics { model_type: String, data: String },
    DataProfile { node_id: String, data: String },
    Complete,
    Exit { code: i32 },
    Trial { trial_number: u32, params: String, score: String, duration_ms: Option<u64> },
    TuningComplete {
        best_params: String,
        best_score: String,
        total_trials: u32,
        duration_ms: Option<u64>,
    },
    ExplainProgress { data: String },
    FeatureImportance { data: String },
    ShapData { data: String },
    PartialDependence { data: String },
    ExplainMetadata { data: String },
    ExplainComplete { duration_ms: u64 },
}

/// The mathematical shape of a decoded event: the same variants as
/// `ScriptEvent`, over character sequences.
pub enum EventShape {
    Log(Seq<char>),
    Progress(u32, u32),
    Error(Seq<char>),
    Metrics(Seq<char>, Seq<char>),
    DataProfile(Seq<char>, Seq<char>),
    Complete,
    Trial(u32, Seq<char>, Seq<char>, Option<u64>),
    TuningComplete(Seq<char>, Seq<char>, u32, Option<u64>),
    ExplainProgress(Seq<char>),
    FeatureImportance(Seq<char>),
    ShapData(Seq<char>),
    PartialDependence(Seq<char>),
    ExplainMetadata(Seq<char>),
    ExplainComplete(u64),
}

/// The value of an unsigned top-level field when it fits 32 bits.
pub open spec fn u32_field(l: Seq<char>, n: Seq<char>) -> Option<u32> {
    match json_u64_field(l, n) {
        Some(v) => if v <= u32::MAX {
            Some(v as u32)
        } else {
            None
        },
        None => None,
    }
}

/// The event a line of the script runner's stdout decodes to.
///
/// The `type` field selects the kind; each kind requires its fields. A
/// line whose JSON does not parse, carries an unknown tag, or misses a
/// required field falls back to a `Log` carrying the raw line, so no
/// line is ever dropped.
pub open spec fn spec_parse_output_line(l: Seq<char>) -> EventShape {
    match json_str_field(l, "type"@) {
        None => EventShape::Log(l),
        Some(t) => if t == "log"@ {
            match json_str_field(l, "message"@) {
                Some(m) => EventShape::Log(m),
                None => EventShape::Log(l),
            }
        } else if t == "progress"@ {
            match (u32_field(l, "current"@), u32_field(l, "total"@)) {
                (Some(c), Some(n)) => EventShape::Progress(c, n),
                _ => EventShape::Log(l),
            }
        } else if t == "error"@ {
            match json_str_field(l, "message"@) {
                Some(m) => EventShape::Error(m),
                None => EventShape::Log(l),
            }
        } else if t == "complete"@ {
            EventShape::Complete
        } else if t == "metrics"@ {
            match (json_str_field(l, "modelType"@), json_raw_field(l, "data"@)) {
                (Some(m), Some(d)) => EventShape::Metrics(m, d),
                _ => EventShape::Log(l),
            }
        } else if t == "dataProfile"@ {
            match (json_str_field(l, "nodeId"@), json_raw_field(l, "data"@)) {
                (Some(n), Some(d)) => EventShape::DataProfile(n, d),
                _ => EventShape::Log(l),
            }
        } else if t == "trial"@ {
            match (u32_field(l, "trialNumber"@), json_raw_field(l, "params"@), json_number_field(l, "score"@)) {
                (Some(n), Some(p), Some(sc)) => EventShape::Trial(
                    n,
                    p,
                    sc,
                    json_u64_field(l, "durationMs"@),
                ),
                _ => EventShape::Log(l),
            }
        } else if t == "tuningComplete"@ {
            match (json_raw_field(l, "bestParams"@), json_number_field(l, "bestScore"@), u32_field(l, "totalTrials"@)) {
                (Some(p), Some(sc), Some(n)) => EventShape::TuningComplete(
                    p,
                    sc,
                    n,
                    json_u64_field(l, "durationMs"@),
                ),
                _ => EventShape::Log(l),
            }
        } else if t == "explainProgress"@ {
            match json_raw_field(l, "data"@) {
                Some(d) => EventShape::ExplainProgress(d),
                None => EventShape::Log(l),
            }
        } else if t == "featureImportance"@ {
            match json_raw_field(l, "data"@) {
                Some(d) => EventShape::FeatureImportance(d),
                None => EventShape::Log(l),
            }
        } else if t == "shapData"@ {
            match json_raw_field(l, "data"@) {
                Some(d) => EventShape::ShapData(d),
                None => EventShape::Log(l),
            }
        } else if t == "partialDependence"@ {
            match json_raw_field(l, "data"@) {
                Some(d) => EventShape::PartialDependence(d),
                None => EventShape::Log(l),
            }
        } else if t == "explainMetadata"@ {
            match json_raw_field(l, "data"@) {
                Some(d) => EventShape::ExplainMetadata(d),
                None => EventShape::Log(l),
            }
        } else if t == "explainComplete"@ {
            match json_u64_field(l, "durationMs"@) {
                Some(d) => EventShape::ExplainComplete(d),
                None => EventShape::Log(l),
            }
        } else {
            EventShape::Log(l)
        },
    }
}

/// Whether the decoded event `r` realises the shape `e`.
pub open spec fn event_matches(r: ScriptEvent, e: EventShape) -> bool {
    match e {
        EventShape::Log(m) => r matches ScriptEvent::Log { message } && message@ == m,
        EventShape::Progress(c, n) => r matches ScriptEvent::Progress { current, total }
            && current == c && total == n,
        EventShape::Error(m) => r matches ScriptEvent::Error { message } && message@ == m,
        EventShape::Metrics(m, d) => r matches ScriptEvent::Metrics { model_type, data }
            && model_type@ == m && data@ == d,
        EventShape::DataProfile(n, d) => r matches ScriptEvent::DataProfile { node_id, data }
            && node_id@ == n && data@ == d,
        EventShape::Complete => r matches ScriptEvent::Complete,
        EventShape::Trial(n, p, sc, dur) => r matches ScriptEvent::Trial {
            trial_number,
            params,
            score,
            duration_ms,
        } && trial_number == n && params@ == p && score@ == sc && duration_ms == dur,
        EventShape::TuningComplete(p, sc, n, dur) => r matches ScriptEvent::TuningComplete {
            best_params,
            best_score,
            total_trials,
            duration_ms,
        } && best_params@ == p && best_score@ == sc && total_trials == n && duration_ms == dur,
        EventShape::ExplainProgress(d) => r matches ScriptEvent::ExplainProgress { data }
            && data@ == d,
        EventShape::FeatureImportance(d) => r matches ScriptEvent::FeatureImportance { data }
            && data@ == d,
        EventShape::ShapData(d) => r matches ScriptEvent::ShapData { data } && data@ == d,
        EventShape::PartialDependence(d) => r matches ScriptEvent::PartialDependence { data }
            && data@ == d,
        EventShape::ExplainMetadata(d) => r matches ScriptEvent::ExplainMetadata { data }
            && data@ == d,
        EventShape::ExplainComplete(d) => r matches ScriptEvent::ExplainComplete { duration_ms }
            && duration_ms == d,
    }
}

/// The value of the top-level field `name` when it is an unsigned
/// integer fitting 32 bits.
pub fn extract_u32_field(s: &str, name: &str) -> (r: Option<u32>)
    ensures
        r == u32_field(s@, name@),
{
    match extract_u64_field(s, name) {
        Some(v) => if v <= u32::MAX as u64 {
            Some(v as u32)
        } else {
            None
        },
        None => None,
    }
}

/// Decode one line of the script runner's stdout.
pub fn parse_output_line(line: &str) -> (r: ScriptEvent)
    ensures
        event_matches(r, spec_parse_output_line(line@)),
{
    let ty = match extract_str_field(line, "type") {
        Some(t) => t,
        None => {
            return ScriptEvent::Log { message: line.to_owned() };
        }
    };
    let t = ty.as_str();
    if str_eq(t, "log") {
        if let Some(message) = extract_str_field(line, "message") {
            return ScriptEvent::Log { message };
        }
    } else if str_eq(t, "progress") {
        if let Some(current) = extract_u32_field(line, "current") {
            if let Some(total) = extract_u32_field(line, "total") {
                return ScriptEvent::Progress { current, total };
            }
        }
    } else if str_eq(t, "error") {
        if let Some(message) = extract_str_field(line, "message") {
            return ScriptEvent::Error { message };
        }
    } else if str_eq(t, "complete") {
        return ScriptEvent::Complete;
    } else if str_eq(t, "metrics") {
        if let Some(model_type) = extract_str_field(line, "modelType") {
            if let Some(data) = extract_raw_field(line, "data") {
                return ScriptEvent::Metrics { model_type, data };
            }
        }
    } else if str_eq(t, "dataProfile") {
        if let Some(node_id) = extract_str_field(line, "nodeId") {
            if let Some(data) = extract_raw_field(line, "data") {
                return ScriptEvent::DataProfile { node_id, data };
            }
        }
    } else if str_eq(t, "trial") {
        if let Some(trial_number) = extract_u32_field(line, "trialNumber") {
            if let Some(params) = extract_raw_field(line, "params") {
                if let Some(score) = extract_number_field(line, "score") {
                    let duration_ms = extract_u64_field(line, "durationMs");
                    return ScriptEvent::Trial { trial_number, params, score, duration_ms };
                }
            }
        }
    } else if str_eq(t, "tuningComplete") {
        if let Some(best_params) = extract_raw_field(line, "bestParams") {
            if let Some(best_score) = extract_number_field(line, "bestScore") {
                if let Some(total_trials) = extract_u32_field(line, "totalTrials") {
                    let duration_ms = extract_u64_field(line, "durationMs");
                    return ScriptEvent::TuningComplete {
                        best_params,
                        best_score,
                        total_trials,
                        duration_ms,
                    };
                }
            }
        }
    } else if str_eq(t, "explainProgress") {
        if let Some(data) = extract_raw_field(line, "data") {
            return ScriptEvent::ExplainProgress { data };
        }
    } else if str_eq(t, "featureImportance") {
        if let Some(data) = extract_raw_field(line, "data") {
            return ScriptEvent::FeatureImportance { data };
        }
    } else if str_eq(t, "shapData") {
        if let Some(data) = extract_raw_field(line, "data") {
            return ScriptEvent::ShapData { data };
        }
    } else if str_eq(t, "partialDependence") {
        if let Some(data) = extract_raw_field(line, "data") {
            return ScriptEvent::PartialDependence { data };
        }
    } else if str_eq(t, "explainMetadata") {
        if let Some(data) = extract_raw_field(line, "data") {
            return ScriptEvent::ExplainMetadata { data };
        }
    } else if str_eq(t, "explainComplete") {
        if let Some(duration_ms) = extract_u64_field(line, "durationMs") {
            return ScriptEvent::ExplainComplete { duration_ms };
        }
    }
    ScriptEvent::Log { message: line.to_owned() }
}

} // verus!
