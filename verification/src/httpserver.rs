use vstd::prelude::*;
use crate::jsontext::{extract_i64_field, extract_number_field, extract_str_field,
    extract_u64_field, json_i64_field, json_number_field, json_str_field, json_u64_field};
use crate::numtext::{append_dec_u64, dec_chars};
use crate::prefixed::{classify_prefixed_line, spec_classify, TagKind};
use crate::supervisor::{WorkerHandle, WorkerMeta};

verus! {

/// How long a freshly spawned model-serving server may take to print
/// its readiness line before the start is abandoned, in seconds.
pub const HTTP_START_TIMEOUT_SECS: u64 = 30;

/// How many served requests the in-memory metrics keep.
pub const RECENT_REQUESTS_KEPT: usize = 100;

/// The readiness announcement of the model-serving server: where it
/// listens, which runtime loaded the model, and the model's description
/// as raw JSON.
pub struct HttpReady {
    pub host: String,
    pub port: u16,
    pub runtime: String,
    pub model_info: Option<String>,
}

/// The value of an unsigned top-level field when it fits 16 bits.
pub open spec fn u16_field(l: Seq<char>, n: Seq<char>) -> Option<u16> {
    match json_u64_field(l, n) {
        Some(v) => if v <= u16::MAX {
            Some(v as u16)
        } else {
            None
        },
        None => None,
    }
}

/// The fields of a readiness announcement, read from its JSON text.
pub open spec fn http_ready_wf(r: HttpReady, p: Seq<char>) -> bool {
    &&& json_str_field(p, "host"@) == Some(r.host@)
    &&& u16_field(p, "port"@) == Some(r.port)
    &&& json_str_field(p, "runtime"@) == Some(r.runtime@)
    &&& (match r.model_info {
        Some(v) => crate::jsontext::json_raw_field(p, "model_info"@) == Some(v@),
        None => crate::jsontext::json_raw_field(p, "model_info"@) is None,
    })
}

/// Parse the payload of a `__READY__:` line. The host, port and runtime
/// are required; an announcement missing any of them is discarded and
/// the wait goes on.
pub fn parse_http_ready(payload: &str) -> (r: Option<HttpReady>)
    ensures
        match r {
            Some(rd) => http_ready_wf(rd, payload@),
            None => json_str_field(payload@, "host"@) is None || u16_field(payload@, "port"@)
                is None || json_str_field(payload@, "runtime"@) is None,
        },
{
    let host = match extract_str_field(payload, "host") {
        Some(v) => v,
        None => {
            return None;
        }
    };
    let port = match extract_u64_field(payload, "port") {
        Some(v) => {
            if v <= u16::MAX as u64 {
                v as u16
            } else {
                return None;
            }
        }
        None => {
            return None;
        }
    };
    let runtime = match extract_str_field(payload, "runtime") {
        Some(v) => v,
        None => {
            return None;
        }
    };
    let model_info = crate::jsontext::extract_raw_field(payload, "model_info");
    Some(HttpReady { host, port, runtime, model_info })
}

/// One served request, as reported on a `__REQUEST__:` line. The
/// latency is carried as the raw JSON number text; what the library
/// counts — totals and status classes — is integral.
#[derive(Clone)]
pub struct HttpRequestEntry {
    pub id: String,
    pub timestamp: i64,
    pub method: String,
    pub path: String,
    pub status_code: u16,
    pub latency: String,
    pub batch_size: u32,
}

/// The value of an unsigned top-level field when it fits 32 bits, with
/// a default of 1 when absent.
pub open spec fn batch_size_field(l: Seq<char>) -> Option<u32> {
    match json_u64_field(l, "batch_size"@) {
        Some(v) => if v <= u32::MAX {
            Some(v as u32)
        } else {
            None
        },
        None => Some(1u32),
    }
}

/// The fields of a request record, read from its JSON text.
pub open spec fn http_request_wf(r: HttpRequestEntry, p: Seq<char>) -> bool {
    &&& json_str_field(p, "id"@) == Some(r.id@)
    &&& json_i64_field(p, "timestamp"@) == Some(r.timestamp)
    &&& json_str_field(p, "method"@) == Some(r.method@)
    &&& json_str_field(p, "path"@) == Some(r.path@)
    &&& u16_field(p, "status_code"@) == Some(r.status_code)
    &&& json_number_field(p, "latency_ms"@) == Some(r.latency@)
    &&& batch_size_field(p) == Some(r.batch_size)
}

/// Parse the payload of a `__REQUEST__:` line. All fields but the batch
/// size are required; a missing batch size counts as one.
pub fn parse_http_request_log(payload: &str) -> (r: Option<HttpRequestEntry>)
    ensures
        match r {
            Some(e) => http_request_wf(e, payload@),
            None => json_str_field(payload@, "id"@) is None || json_i64_field(
                payload@,
                "timestamp"@,
            ) is None || json_str_field(payload@, "method"@) is None || json_str_field(
                payload@,
                "path"@,
            ) is None || u16_field(payload@, "status_code"@) is None || json_number_field(
                payload@,
                "latency_ms"@,
            ) is None || batch_size_field(payload@) is None,
        },
{
    let id = match extract_str_field(payload, "id") {
        Some(v) => v,
        None => {
            return None;
        }
    };
    let timestamp = match extract_i64_field(payload, "timestamp") {
        Some(v) => v,
        None => {
            return None;
        }
    };
    let method = match extract_str_field(payload, "method") {
        Some(v) => v,
        None => {
            return None;
        }
    };
    let path = match extract_str_field(payload, "path") {
        Some(v) => v,
        None => {
            return None;
        }
    };
    let status_code = match extract_u64_field(payload, "status_code") {
        Some(v) => {
            if v <= u16::MAX as u64 {
                v as u16
            } else {
                return None;
            }
        }
        None => {
            return None;
        }
    };
    let latency = match extract_number_field(payload, "latency_ms") {
        Some(v) => v,
        None => {
            return None;
        }
    };
    let batch_size = match extract_u64_field(payload, "batch_size") {
        Some(v) => {
            if v <= u32::MAX as u64 {
                v as u32
            } else {
                return None;
            }
        }
        None => 1,
    };
    Some(HttpRequestEntry { id, timestamp, method, path, status_code, latency, batch_size })
}

/// An out-of-band error report from the server.
pub struct HttpErrorReport {
    pub code: String,
    pub message: String,
}

/// The fields of an error report, read from its JSON text.
pub open spec fn http_error_wf(r: HttpErrorReport, p: Seq<char>) -> bool {
    &&& json_str_field(p, "code"@) == Some(r.code@)
    &&& json_str_field(p, "message"@) == Some(r.message@)
}

/// Parse the payload of an `__ERROR__:` line.
pub fn parse_http_error(payload: &str) -> (r: Option<HttpErrorReport>)
    ensures
        match r {
            Some(e) => http_error_wf(e, payload@),
            None => json_str_field(payload@, "code"@) is None || json_str_field(
                payload@,
                "message"@,
            ) is None,
        },
{
    let code = match extract_str_field(payload, "code") {
        Some(v) => v,
        None => {
            return None;
        }
    };
    let message = match extract_str_field(payload, "message") {
        Some(v) => v,
        None => {
            return None;
        }
    };
    Some(HttpErrorReport { code, message })
}

/// What the stdout reader does with one line of the model-serving
/// server.
pub enum HttpReaderAction {
    /// A first, well-formed readiness line: complete the start.
    Ready { info: HttpReady },
    /// A served-request record: count it and forward it.
    RequestLog { entry: HttpRequestEntry },
    /// An error report: forward it, and fail the start if the server
    /// was not ready yet.
    ErrorReport { report: HttpErrorReport, fail_start: bool },
    /// Diagnostic text: forward it.
    ServerLog { text: String },
    /// Anything else is ignored.
    Nothing,
}

/// Decide what one stdout line of the model-serving server means, given
/// whether the readiness signal was already delivered. A second
/// readiness line is ignored; an error before readiness fails the
/// start; request records and logs are forwarded whenever they parse.
pub fn http_reader_step(line: &str, ready_sent: bool) -> (r: HttpReaderAction)
    ensures
        ({
            let (kind, p) = spec_classify(line@);
            match kind {
                TagKind::Ready => match r {
                    HttpReaderAction::Ready { info } => !ready_sent && http_ready_wf(info, p),
                    HttpReaderAction::Nothing => ready_sent || json_str_field(p, "host"@) is None
                        || u16_field(p, "port"@) is None || json_str_field(p, "runtime"@) is None,
                    _ => false,
                },
                TagKind::Request => match r {
                    HttpReaderAction::RequestLog { entry } => http_request_wf(entry, p),
                    HttpReaderAction::Nothing => !(parse_ok_request(p)),
                    _ => false,
                },
                TagKind::Error => match r {
                    HttpReaderAction::ErrorReport { report, fail_start } => http_error_wf(
                        report,
                        p,
                    ) && fail_start == !ready_sent,
                    HttpReaderAction::Nothing => json_str_field(p, "code"@) is None
                        || json_str_field(p, "message"@) is None,
                    _ => false,
                },
                TagKind::Log => r matches HttpReaderAction::ServerLog { text } && text@ == p,
                _ => r is Nothing,
            }
        }),
{
    let frame = classify_prefixed_line(line);
    match frame.kind {
        TagKind::Ready => {
            if ready_sent {
                return HttpReaderAction::Nothing;
            }
            match parse_http_ready(frame.payload.as_str()) {
                Some(info) => HttpReaderAction::Ready { info },
                None => HttpReaderAction::Nothing,
            }
        }
        TagKind::Request => match parse_http_request_log(frame.payload.as_str()) {
            Some(entry) => HttpReaderAction::RequestLog { entry },
            None => HttpReaderAction::Nothing,
        },
        TagKind::Error => match parse_http_error(frame.payload.as_str()) {
            Some(report) => HttpReaderAction::ErrorReport { report, fail_start: !ready_sent },
            None => HttpReaderAction::Nothing,
        },
        TagKind::Log => HttpReaderAction::ServerLog { text: frame.payload },
        _ => HttpReaderAction::Nothing,
    }
}

/// Whether a request-record payload carries every required field.
pub open spec fn parse_ok_request(p: Seq<char>) -> bool {
    &&& json_str_field(p, "id"@) is Some
    &&& json_i64_field(p, "timestamp"@) is Some
    &&& json_str_field(p, "method"@) is Some
    &&& json_str_field(p, "path"@) is Some
    &&& u16_field(p, "status_code"@) is Some
    &&& json_number_field(p, "latency_ms"@) is Some
    &&& batch_size_field(p) is Some
}

/// The in-memory request counters of the model-serving server: totals,
/// a success/failure split, and the most recent records, newest last.
pub struct RequestStats {
    pub total_requests: u64,
    pub successful_requests: u64,
    pub failed_requests: u64,
    pub recent: Vec<HttpRequestEntry>,
}

/// A status code in the 2xx–3xx range counts as a success.
pub open spec fn is_success_code(code: u16) -> bool {
    200 <= code < 400
}

impl RequestStats {
    /// Counters add up, and the recent window is bounded.
    pub open spec fn wf(&self) -> bool {
        &&& self.total_requests == self.successful_requests + self.failed_requests
        &&& self.recent@.len() <= RECENT_REQUESTS_KEPT
    }

    pub fn new() -> (s: Self)
        ensures
            s.wf(),
            s.total_requests == 0,
            s.successful_requests == 0,
            s.failed_requests == 0,
            s.recent@ == Seq::<HttpRequestEntry>::empty(),
    {
        RequestStats {
            total_requests: 0,
            successful_requests: 0,
            failed_requests: 0,
            recent: Vec::new(),
        }
    }

    /// Count one served request and remember it, dropping the oldest
    /// record once the window is full.
    pub fn add_request(&mut self, entry: HttpRequestEntry)
        requires
            old(self).wf(),
            old(self).total_requests < u64::MAX,
        ensures
            final(self).wf(),
            final(self).total_requests == old(self).total_requests + 1,
            is_success_code(entry.status_code) ==> final(self).successful_requests == old(
                self,
            ).successful_requests + 1 && final(self).failed_requests == old(self).failed_requests,
            !is_success_code(entry.status_code) ==> final(self).failed_requests == old(
                self,
            ).failed_requests + 1 && final(self).successful_requests == old(
                self,
            ).successful_requests,
            final(self).recent@ == if old(self).recent@.len() < RECENT_REQUESTS_KEPT {
                old(self).recent@.push(entry)
            } else {
                old(self).recent@.skip(1).push(entry)
            },
    {
        self.total_requests = self.total_requests + 1;
        if 200 <= entry.status_code && entry.status_code < 400 {
            self.successful_requests = self.successful_requests + 1;
        } else {
            self.failed_requests = self.failed_requests + 1;
        }
        if self.recent.len() >= RECENT_REQUESTS_KEPT {
            let ghost before = self.recent@;
            self.recent.remove(0);
            proof {
                assert(self.recent@ =~= before.skip(1));
            }
        }
        self.recent.push(entry);
    }

    /// Forget everything counted so far.
    pub fn reset(&mut self)
        ensures
            final(self).wf(),
            final(self).total_requests == 0,
            final(self).successful_requests == 0,
            final(self).failed_requests == 0,
            final(self).recent@ == Seq::<HttpRequestEntry>::empty(),
    {
        self.total_requests = 0;
        self.successful_requests = 0;
        self.failed_requests = 0;
        self.recent.clear();
    }
}

/// The status report of the model-serving server, as surfaced to the
/// shell, with the base URL it listens on.
pub struct HttpServerStatus {
    pub running: bool,
    pub host: Option<String>,
    pub port: Option<u16>,
    pub version_id: Option<String>,
    pub model_name: Option<String>,
    pub runtime: Option<String>,
    pub model_info: Option<String>,
    pub url: Option<String>,
}

/// The base URL of a server at `host` and `port`.
pub open spec fn spec_server_url(host: Seq<char>, port: u16) -> Seq<char> {
    "http://"@ + host + ":"@ + dec_chars(port as nat)
}

/// Build the base URL for `host` and `port`.
pub fn server_url(host: &str, port: u16) -> (r: String)
    ensures
        r@ == spec_server_url(host@, port),
{
    let mut out = "http://".to_owned();
    out.append(host);
    out.append(":");
    append_dec_u64(&mut out, port as u64);
    out
}

/// Project the supervisor's model-serving slot into a status report.
pub fn http_server_status(slot: Option<&WorkerHandle>) -> (r: HttpServerStatus)
    requires
        match slot {
            Some(h) => h.meta is Http,
            None => true,
        },
    ensures
        r.running == (slot is Some),
        match slot {
            Some(h) => h.meta matches WorkerMeta::Http {
                version_id,
                model_name,
                host,
                port,
                runtime,
                model_info,
            } && (r.host matches Some(v) && v@ == host@) && r.port == Some(port)
                && (r.version_id matches Some(v) && v@ == version_id@)
                && (r.model_name matches Some(v) && v@ == model_name@)
                && (r.runtime matches Some(v) && v@ == runtime@)
                && r.model_info == model_info
                && (r.url matches Some(u) && u@ == spec_server_url(host@, port)),
            None => r.host is None && r.port is None && r.version_id is None && r.model_name
                is None && r.runtime is None && r.model_info is None && r.url is None,
        },
{
    match slot {
        Some(h) => match &h.meta {
            WorkerMeta::Http { version_id, model_name, host, port, runtime, model_info } => {
                let url = server_url(host.as_str(), *port);
                HttpServerStatus {
                    running: true,
                    host: Some(host.clone()),
                    port: Some(*port),
                    version_id: Some(version_id.clone()),
                    model_name: Some(model_name.clone()),
                    runtime: Some(runtime.clone()),
                    model_info: model_info.clone(),
                    url: Some(url),
                }
            }
            _ => HttpServerStatus {
                running: true,
                host: None,
                port: None,
                version_id: None,
                model_name: None,
                runtime: None,
                model_info: None,
                url: None,
            },
        },
        None => HttpServerStatus {
            running: false,
            host: None,
            port: None,
            version_id: None,
            model_name: None,
            runtime: None,
            model_info: None,
            url: None,
        },
    }
}

/// Whether a model version may be deleted: not while the model-serving
/// server is serving exactly that version.
pub fn can_delete_version(slot: Option<&WorkerHandle>, version: &str) -> (r: bool)
    ensures
        r == match slot {
            Some(h) => !(h.meta matches WorkerMeta::Http { version_id, .. } && version_id@
                == version@),
            None => true,
        },
{
    match slot {
        Some(h) => match &h.meta {
            WorkerMeta::Http { version_id, .. } => !crate::jsontext::str_eq(
                version_id.as_str(),
                version,
            ),
            _ => true,
        },
        None => true,
    }
}

} // verus!
