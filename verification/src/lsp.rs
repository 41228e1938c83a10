use vstd::prelude::*;
use vstd::utf8::encode_utf8;
use crate::framing::{clen_frame, encode_clen_frame};
use crate::jsontext::{append_json_escaped, extract_i64_field, extract_raw_field,
    extract_str_field, extract_str_field_in, json_escaped, json_i64_field, json_raw_field,
    json_str_field, json_str_field_in, str_eq};
use crate::completion::split_lines;
use crate::numtext::{append_dec_u64, dec_chars};
use crate::prefixed::{has_prefix, strip_prefix_of};
use crate::supervisor::{WorkerHandle, WorkerMeta};
use crate::textscan::{trim_chars, trim_str};

verus! {

broadcast use vstd::string::group_string_axioms;

/// How long an ordinary language-server request may wait for its reply,
/// in milliseconds.
pub const REQUEST_TIMEOUT_MS: u64 = 5000;

/// How long the `initialize` request may wait: the language server can
/// be slow to come up.
pub const INITIALIZE_TIMEOUT_MS: u64 = 30000;

/// The language-server status as surfaced to the shell.
pub struct LspStatus {
    pub running: bool,
    pub initialized: bool,
    pub pyright_version: Option<String>,
    pub restart_count: i32,
}

/// The JSON-RPC request body for `id`, `method` and `params`; `params`
/// must already be JSON text.
pub open spec fn spec_jsonrpc_request(id: u64, method: Seq<char>, params: Seq<char>) -> Seq<char> {
    "{\"jsonrpc\":\"2.0\",\"id\":"@ + dec_chars(id as nat) + ",\"method\":\""@ + json_escaped(
        method,
    ) + "\",\"params\":"@ + params + "}"@
}

/// The JSON-RPC notification body for `method` and `params`: the same
/// shape without an identifier, so no reply is ever routed back.
pub open spec fn spec_jsonrpc_notification(method: Seq<char>, params: Seq<char>) -> Seq<char> {
    "{\"jsonrpc\":\"2.0\",\"method\":\""@ + json_escaped(method) + "\",\"params\":"@ + params
        + "}"@
}

/// Build the JSON-RPC request body.
pub fn jsonrpc_request_body(id: u64, method: &str, params: &str) -> (r: String)
    ensures
        r@ == spec_jsonrpc_request(id, method@, params@),
{
    let mut out = "{\"jsonrpc\":\"2.0\",\"id\":".to_owned();
    append_dec_u64(&mut out, id);
    out.append(",\"method\":\"");
    append_json_escaped(&mut out, method);
    out.append("\",\"params\":");
    out.append(params);
    out.append("}");
    out
}

/// Build the JSON-RPC notification body.
pub fn jsonrpc_notification_body(method: &str, params: &str) -> (r: String)
    ensures
        r@ == spec_jsonrpc_notification(method@, params@),
{
    let mut out = "{\"jsonrpc\":\"2.0\",\"method\":\"".to_owned();
    append_json_escaped(&mut out, method);
    out.append("\",\"params\":");
    out.append(params);
    out.append("}");
    out
}

/// Encode a request as one length-prefixed frame, ready to write to the
/// worker's stdin. The header counts the body's UTF-8 bytes exactly.
pub fn encode_request(id: u64, method: &str, params: &str) -> (r: Vec<u8>)
    ensures
        r@ == clen_frame(encode_utf8(spec_jsonrpc_request(id, method@, params@))),
{
    let body = jsonrpc_request_body(id, method, params);
    let bytes = body.as_str().as_bytes_vec();
    encode_clen_frame(&bytes)
}

/// Encode a notification as one length-prefixed frame.
pub fn encode_notification(method: &str, params: &str) -> (r: Vec<u8>)
    ensures
        r@ == clen_frame(encode_utf8(spec_jsonrpc_notification(method@, params@))),
{
    let body = jsonrpc_notification_body(method, params);
    let bytes = body.as_str().as_bytes_vec();
    encode_clen_frame(&bytes)
}

/// The cancellation notice sent, best effort, after a local timeout:
/// `$/cancelRequest` naming the abandoned identifier. The caller does
/// not wait for the worker to acknowledge it.
pub fn encode_cancel_request(id: u64) -> (r: Vec<u8>)
    ensures
        r@ == clen_frame(
            encode_utf8(
                spec_jsonrpc_notification("$/cancelRequest"@, "{\"id\":"@ + dec_chars(id as nat) + "}"@),
            ),
        ),
{
    let mut params = "{\"id\":".to_owned();
    append_dec_u64(&mut params, id);
    params.append("}");
    encode_notification("$/cancelRequest", params.as_str())
}

/// Where one decoded language-server message goes.
pub enum LspRoute {
    /// `textDocument/publishDiagnostics`: its parameters go to the
    /// shell as a diagnostics event.
    Diagnostics { params: String },
    /// `window/logMessage`: its message text goes to the diagnostic log.
    LogMessage { message: String },
    /// `window/showMessage`: its message text goes to the diagnostic log.
    ShowMessage { message: String },
    /// Any other notification or server-initiated request: noted and
    /// dropped.
    OtherNotification { method: String },
    /// A reply: the correlator resolves the waiter registered under
    /// `id` with the outcome.
    Reply { id: i64, outcome: Result<String, String> },
    /// A message with neither method nor identifier.
    Ignored,
}

/// The outcome carried by a reply body: the error's message when the
/// body reports an error (`Unknown error` when it reports one without a
/// message), else the result re-serialised as JSON text (`null` when
/// the body has no result field at all).
pub open spec fn spec_reply_outcome(l: Seq<char>) -> Result<Seq<char>, Seq<char>> {
    if json_raw_field(l, "error"@) is Some {
        match json_str_field_in(l, "error"@, "message"@) {
            Some(m) => Err(m),
            None => Err("Unknown error"@),
        }
    } else {
        match json_raw_field(l, "result"@) {
            Some(v) => Ok(v),
            None => Ok("null"@),
        }
    }
}

/// Dispatch one decoded message body.
///
/// A message with a `method` is a notification (or a server-initiated
/// request): diagnostics are forwarded whole, window messages go to the
/// log, the rest is noted. A message without a method but with an
/// integer `id` is the reply to the request with that identifier, and
/// resolves to its error message or to its result. Anything else is
/// ignored.
pub fn route_message(body: &str) -> (r: LspRoute)
    ensures
        ({
            let l = body@;
            let m = json_str_field(l, "method"@);
            &&& (m == Some("textDocument/publishDiagnostics"@) && json_raw_field(l, "params"@)
                is Some ==> (r matches LspRoute::Diagnostics { params } && Some(params@)
                == json_raw_field(l, "params"@)))
            &&& (m == Some("textDocument/publishDiagnostics"@) && json_raw_field(l, "params"@)
                is None ==> r is Ignored)
            &&& (m == Some("window/logMessage"@) && json_str_field_in(l, "params"@, "message"@)
                is Some ==> (r matches LspRoute::LogMessage { message } && Some(message@)
                == json_str_field_in(l, "params"@, "message"@)))
            &&& (m == Some("window/logMessage"@) && json_str_field_in(l, "params"@, "message"@)
                is None ==> r is Ignored)
            &&& (m == Some("window/showMessage"@) && json_str_field_in(l, "params"@, "message"@)
                is Some ==> (r matches LspRoute::ShowMessage { message } && Some(message@)
                == json_str_field_in(l, "params"@, "message"@)))
            &&& (m == Some("window/showMessage"@) && json_str_field_in(l, "params"@, "message"@)
                is None ==> r is Ignored)
            &&& (match m {
                Some(name) => name != "textDocument/publishDiagnostics"@ && name
                    != "window/logMessage"@ && name != "window/showMessage"@ ==> (r matches
                LspRoute::OtherNotification { method } && method@ == name),
                None => true,
            })
            &&& (m is None ==> (match json_i64_field(l, "id"@) {
                Some(id) => r matches LspRoute::Reply { id: rid, outcome } && rid == id && (
                match outcome {
                    Ok(v) => spec_reply_outcome(l) == Ok::<Seq<char>, Seq<char>>(v@),
                    Err(e) => spec_reply_outcome(l) == Err::<Seq<char>, Seq<char>>(e@),
                }),
                None => r is Ignored,
            }))
        }),
{
    proof {
        reveal_strlit("textDocument/publishDiagnostics");
        reveal_strlit("window/logMessage");
        reveal_strlit("window/showMessage");
        assert("textDocument/publishDiagnostics"@.len() == 31);
        assert("window/logMessage"@.len() == 17);
        assert("window/showMessage"@.len() == 18);
    }
    if let Some(method) = extract_str_field(body, "method") {
        let m = method.as_str();
        if str_eq(m, "textDocument/publishDiagnostics") {
            match extract_raw_field(body, "params") {
                Some(params) => LspRoute::Diagnostics { params },
                None => LspRoute::Ignored,
            }
        } else if str_eq(m, "window/logMessage") {
            match extract_str_field_in(body, "params", "message") {
                Some(message) => LspRoute::LogMessage { message },
                None => LspRoute::Ignored,
            }
        } else if str_eq(m, "window/showMessage") {
            match extract_str_field_in(body, "params", "message") {
                Some(message) => LspRoute::ShowMessage { message },
                None => LspRoute::Ignored,
            }
        } else {
            LspRoute::OtherNotification { method }
        }
    } else if let Some(id) = extract_i64_field(body, "id") {
        let outcome = if extract_raw_field(body, "error").is_some() {
            match extract_str_field_in(body, "error", "message") {
                Some(m) => Err(m),
                None => Err("Unknown error".to_owned()),
            }
        } else {
            match extract_raw_field(body, "result") {
                Some(v) => Ok(v),
                None => Ok("null".to_owned()),
            }
        };
        LspRoute::Reply { id, outcome }
    } else {
        LspRoute::Ignored
    }
}

/// Project the supervisor's language-server slot, and the restart
/// counter, into a status report. Introspection never blocks on the
/// child.
pub fn get_status(slot: Option<&WorkerHandle>, restart_count: i32) -> (r: LspStatus)
    requires
        match slot {
            Some(h) => h.meta is Lsp,
            None => true,
        },
    ensures
        r.running == (slot is Some),
        r.restart_count == restart_count,
        match slot {
            Some(h) => h.meta matches WorkerMeta::Lsp { initialized, pyright_version }
                && r.initialized == initialized && r.pyright_version == pyright_version,
            None => !r.initialized && r.pyright_version is None,
        },
{
    match slot {
        Some(h) => match &h.meta {
            WorkerMeta::Lsp { initialized, pyright_version } => LspStatus {
                running: true,
                initialized: *initialized,
                pyright_version: pyright_version.clone(),
                restart_count,
            },
            _ => LspStatus {
                running: true,
                initialized: false,
                pyright_version: None,
                restart_count,
            },
        },
        None => LspStatus {
            running: false,
            initialized: false,
            pyright_version: None,
            restart_count,
        },
    }
}

/// The `initialize` parameters sent right after spawning the language
/// server: this process's identifier, the workspace root as a `file://`
/// URI when one is set, the client's capabilities, and the interpreter
/// the server should analyse with.
pub open spec fn spec_initialize_params(
    process_id: u64,
    workspace_root: Option<Seq<char>>,
    python_path: Seq<char>,
) -> Seq<char> {
    "{\"processId\":"@ + dec_chars(process_id as nat) + ",\"rootUri\":"@ + (match workspace_root {
        Some(root) => "\"file://"@ + json_escaped(root) + "\""@,
        None => "null"@,
    }) + ",\"capabilities\":"@ + spec_client_capabilities()
        + ",\"initializationOptions\":{\"python\":{\"pythonPath\":\""@ + json_escaped(python_path)
        + "\"}}}"@
}

/// The static capabilities the client announces: hover and completion
/// formats, diagnostics with related information, and definition links.
pub open spec fn spec_client_capabilities() -> Seq<char> {
    "{\"textDocument\":{\"hover\":{\"contentFormat\":[\"markdown\",\"plaintext\"]},\"completion\":{\"completionItem\":{\"snippetSupport\":true,\"documentationFormat\":[\"markdown\",\"plaintext\"]},\"contextSupport\":true},\"publishDiagnostics\":{\"relatedInformation\":true,\"codeDescriptionSupport\":true},\"definition\":{\"linkSupport\":true}}}"@
}

/// Build the `initialize` parameters.
pub fn initialize_params(
    process_id: u64,
    workspace_root: Option<&str>,
    python_path: &str,
) -> (r: String)
    ensures
        r@ == spec_initialize_params(
            process_id,
            match workspace_root {
                Some(w) => Some(w@),
                None => None,
            },
            python_path@,
        ),
{
    let mut out = "{\"processId\":".to_owned();
    append_dec_u64(&mut out, process_id);
    out.append(",\"rootUri\":");
    match workspace_root {
        Some(root) => {
            out.append("\"file://");
            append_json_escaped(&mut out, root);
            out.append("\"");
        }
        None => {
            out.append("null");
        }
    }
    out.append(",\"capabilities\":");
    out.append(
        "{\"textDocument\":{\"hover\":{\"contentFormat\":[\"markdown\",\"plaintext\"]},\"completion\":{\"completionItem\":{\"snippetSupport\":true,\"documentationFormat\":[\"markdown\",\"plaintext\"]},\"contextSupport\":true},\"publishDiagnostics\":{\"relatedInformation\":true,\"codeDescriptionSupport\":true},\"definition\":{\"linkSupport\":true}}}",
    );
    out.append(",\"initializationOptions\":{\"python\":{\"pythonPath\":\"");
    append_json_escaped(&mut out, python_path);
    out.append("\"}}}");
    out
}


/// The version the language server reports: the first output line, when
/// it reads `pyright <version>`, names the version.
pub open spec fn spec_pyright_version(out: Seq<char>) -> Option<Seq<char>> {
    let ls = split_lines(out);
    if ls.len() > 0 && has_prefix(ls[0], "pyright "@) {
        Some(trim_chars(ls[0].skip("pyright "@.len() as int)))
    } else {
        None
    }
}

/// Read the version out of the `--version` output.
pub fn parse_pyright_version(out: &str) -> (r: Option<String>)
    ensures
        match r {
            Some(v) => spec_pyright_version(out@) == Some(v@),
            None => spec_pyright_version(out@) is None,
        },
{
    let lines = crate::completion::split_lines_vec(out);
    if lines.len() == 0 {
        return None;
    }
    proof {
        assert(lines.deep_view()[0] == lines[0]@);
    }
    match strip_prefix_of(lines[0].as_str(), "pyright ") {
        Some(rest) => Some(trim_str(rest)),
        None => None,
    }
}

} // verus!
