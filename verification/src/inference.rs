use vstd::prelude::*;
use crate::jsontext::{append_json_escaped, extract_raw_field, extract_str_field, json_escaped,
    json_raw_field, json_str_field, str_eq};
use crate::prefixed::{classify_prefixed_line, spec_classify, TagKind};
use crate::supervisor::{WorkerHandle, WorkerMeta};

verus! {

broadcast use vstd::string::group_string_axioms;

/// How long a freshly spawned inference server may take to signal
/// readiness before the half-started child is killed, in seconds.
pub const LOAD_TIMEOUT_SECS: u64 = 30;

/// How long one prediction request may take before it times out, in
/// seconds.
pub const PREDICT_TIMEOUT_SECS: u64 = 10;

/// One reply line from the inference server, already stripped of its
/// `__RESPONSE__:` marker and broken into the fields the protocol
/// reads. The payload keeps the whole JSON text, so fields that are
/// only forwarded — predictions, probabilities, class labels — ride
/// along untouched.
pub struct InferenceReply {
    pub request_id: String,
    pub status: String,
    pub response_type: Option<String>,
    pub message: Option<String>,
    pub model_info: Option<String>,
    pub payload: String,
}

/// The fields of an inference reply, read from its JSON payload text.
pub open spec fn reply_wf(r: InferenceReply, p: Seq<char>) -> bool {
    &&& json_str_field(p, "request_id"@) == Some(r.request_id@)
    &&& json_str_field(p, "status"@) == Some(r.status@)
    &&& (match r.response_type {
        Some(v) => json_str_field(p, "type"@) == Some(v@),
        None => json_str_field(p, "type"@) is None,
    })
    &&& (match r.message {
        Some(v) => json_str_field(p, "message"@) == Some(v@),
        None => json_str_field(p, "message"@) is None,
    })
    &&& (match r.model_info {
        Some(v) => json_raw_field(p, "model_info"@) == Some(v@),
        None => json_raw_field(p, "model_info"@) is None,
    })
    &&& r.payload@ == p
}

/// Break an inference reply payload into its fields.
///
/// A payload without both a `request_id` and a `status` string is no
/// reply at all and is rejected.
pub fn parse_inference_payload(payload: &str) -> (r: Option<InferenceReply>)
    ensures
        match r {
            Some(rep) => reply_wf(rep, payload@),
            None => json_str_field(payload@, "request_id"@) is None || json_str_field(
                payload@,
                "status"@,
            ) is None,
        },
{
    let request_id = match extract_str_field(payload, "request_id") {
        Some(v) => v,
        None => {
            return None;
        }
    };
    let status = match extract_str_field(payload, "status") {
        Some(v) => v,
        None => {
            return None;
        }
    };
    let response_type = extract_str_field(payload, "type");
    let message = extract_str_field(payload, "message");
    let model_info = extract_raw_field(payload, "model_info");
    Some(InferenceReply {
        request_id,
        status,
        response_type,
        message,
        model_info,
        payload: payload.to_owned(),
    })
}

/// Decode one stdout line of the inference server: only a line bearing
/// the `__RESPONSE__:` marker whose payload has the required fields is
/// a reply; everything else is ignored by this stream's reader.
pub fn parse_response_line(line: &str) -> (r: Option<InferenceReply>)
    ensures
        match r {
            Some(rep) => spec_classify(line@).0 == TagKind::Response && reply_wf(
                rep,
                spec_classify(line@).1,
            ),
            None => spec_classify(line@).0 != TagKind::Response || json_str_field(
                spec_classify(line@).1,
                "request_id"@,
            ) is None || json_str_field(spec_classify(line@).1, "status"@) is None,
        },
{
    let frame = classify_prefixed_line(line);
    match frame.kind {
        TagKind::Response => parse_inference_payload(frame.payload.as_str()),
        _ => None,
    }
}

/// What the start-up wait loop does with one decoded reply.
#[derive(Clone, Copy, Debug, PartialEq, Eq, Structural)]
pub enum ReadyDecision {
    /// The worker announced it is ready: finish the start successfully.
    Ready,
    /// The worker reported a load error: kill it and fail the start.
    Failed,
    /// Some other reply: keep waiting.
    Ignore,
}

/// Decide what one reply means to the readiness wait: status `ok` with
/// type `ready` completes the start, status `error` fails it, and
/// anything else is ignored until the deadline.
pub fn inference_ready_step(rep: &InferenceReply) -> (r: ReadyDecision)
    ensures
        rep.status@ == "ok"@ && (rep.response_type matches Some(t) && t@ == "ready"@)
            ==> r == ReadyDecision::Ready,
        rep.status@ == "error"@ ==> r == ReadyDecision::Failed,
        r == ReadyDecision::Ready ==> rep.status@ == "ok"@ && (rep.response_type matches Some(t)
            && t@ == "ready"@),
        r == ReadyDecision::Failed ==> rep.status@ == "error"@,
{
    proof {
        reveal_strlit("ok");
        reveal_strlit("error");
        assert("ok"@.len() == 2);
        assert("error"@.len() == 5);
        assert("ok"@ != "error"@);
    }
    if str_eq(rep.status.as_str(), "ok") {
        match &rep.response_type {
            Some(t) => {
                if str_eq(t.as_str(), "ready") {
                    ReadyDecision::Ready
                } else {
                    ReadyDecision::Ignore
                }
            }
            None => ReadyDecision::Ignore,
        }
    } else if str_eq(rep.status.as_str(), "error") {
        ReadyDecision::Failed
    } else {
        ReadyDecision::Ignore
    }
}

/// The error text surfaced when a failing reply carries no message.
pub fn failure_message(rep: &InferenceReply) -> (r: String)
    ensures
        match rep.message {
            Some(m) => r@ == m@,
            None => r@ == "Unknown error"@,
        },
{
    match &rep.message {
        Some(m) => m.clone(),
        None => "Unknown error".to_owned(),
    }
}

/// The single-line JSON command sent to the inference server's stdin
/// for one prediction: `{"cmd":"predict","request_id":...,"input":...}`.
/// `input_json` must already be JSON text; the request identifier is
/// escaped here.
pub open spec fn spec_predict_command(request_id: Seq<char>, input_json: Seq<char>) -> Seq<char> {
    "{\"cmd\":\"predict\",\"request_id\":\""@ + json_escaped(request_id)
        + "\",\"input\":"@ + input_json + "}"@
}

/// Build the prediction command line for `request_id` over
/// `input_json`, without the terminating line feed the writer adds.
pub fn build_predict_command(request_id: &str, input_json: &str) -> (r: String)
    ensures
        r@ == spec_predict_command(request_id@, input_json@),
{
    let mut out = "{\"cmd\":\"predict\",\"request_id\":\"".to_owned();
    append_json_escaped(&mut out, request_id);
    out.append("\",\"input\":");
    out.append(input_json);
    out.append("}");
    out
}

/// The status report of the inference server, as surfaced to the shell.
pub struct ServerStatus {
    pub running: bool,
    pub model_path: Option<String>,
    pub feature_names: Option<Vec<String>>,
    pub model_info: Option<String>,
}

/// Project the supervisor's inference slot into a status report.
/// `feature_names` is whatever the caller read from storage for the
/// served version; introspection itself never touches the child.
pub fn inference_server_status(
    slot: Option<&WorkerHandle>,
    feature_names: Option<Vec<String>>,
) -> (r: ServerStatus)
    requires
        match slot {
            Some(h) => h.meta is Inference,
            None => true,
        },
    ensures
        r.running == (slot is Some),
        match slot {
            Some(h) => h.meta matches WorkerMeta::Inference { model_path, model_info }
                && r.model_path matches Some(p) && p@ == model_path@
                && r.model_info == model_info,
            None => r.model_path is None && r.model_info is None && r.feature_names is None,
        },
        slot is Some ==> r.feature_names == feature_names,
{
    match slot {
        Some(h) => match &h.meta {
            WorkerMeta::Inference { model_path, model_info } => ServerStatus {
                running: true,
                model_path: Some(model_path.clone()),
                feature_names,
                model_info: model_info.clone(),
            },
            _ => ServerStatus {
                running: true,
                model_path: None,
                feature_names,
                model_info: None,
            },
        },
        None => ServerStatus {
            running: false,
            model_path: None,
            feature_names: None,
            model_info: None,
        },
    }
}

} // verus!
