use vstd::prelude::*;
use crate::framing::{is_ws_byte, trim_ws};
use crate::numtext::{all_digits, dec_digits, dec_val, lemma_dec_digits, parse_dec_u64_range,
    u64_to_dec};

verus! {

/// The process identifier named by a PID marker file holding `s`.
///
/// The text is trimmed of surrounding whitespace and read as an
/// optionally signed decimal; anything else, or a value outside the
/// signed 32-bit range, names no process.
pub open spec fn spec_pid_of_marker(s: Seq<u8>) -> Option<int> {
    let t = trim_ws(s);
    if t.len() >= 2 && (t[0] == 43 || t[0] == 45) {
        let d = t.skip(1);
        if all_digits(d) {
            let v = dec_val(d) as int;
            if t[0] == 45 {
                if -v >= i32::MIN {
                    Some(-v)
                } else {
                    None
                }
            } else {
                if v <= i32::MAX {
                    Some(v)
                } else {
                    None
                }
            }
        } else {
            None
        }
    } else if t.len() >= 1 && all_digits(t) && dec_val(t) <= i32::MAX {
        Some(dec_val(t) as int)
    } else {
        None
    }
}

/// Parse the contents of a PID marker file.
pub fn parse_pid_marker(content: &Vec<u8>) -> (r: Option<i32>)
    ensures
        match r {
            Some(pid) => spec_pid_of_marker(content@) == Some(pid as int),
            None => spec_pid_of_marker(content@) is None,
        },
{
    let (ts, te) = crate::framing::trim_range(content, 0, content.len());
    let ghost t = trim_ws(content@);
    proof {
        assert(content@.subrange(0, content@.len() as int) =~= content@);
    }
    if te - ts >= 2 && (content[ts] == 43 || content[ts] == 45) {
        let neg = content[ts] == 45;
        proof {
            assert(t[0] == content@[ts as int]);
            assert(t.skip(1) =~= content@.subrange(ts + 1, te as int));
        }
        match parse_dec_u64_range(content.as_slice(), ts + 1, te) {
            Some(v) => {
                if neg {
                    if v <= 2147483648u64 {
                        if v == 2147483648u64 {
                            Some(i32::MIN)
                        } else {
                            Some(-(v as i32))
                        }
                    } else {
                        None
                    }
                } else {
                    if v <= 2147483647u64 {
                        Some(v as i32)
                    } else {
                        None
                    }
                }
            }
            None => {
                proof {
                    let d = t.skip(1);
                    if all_digits(d) {
                        crate::numtext::lemma_dec_val_prefix_le(d, d.len() as int);
                    }
                }
                None
            }
        }
    } else if te > ts {
        proof {
            assert(t =~= content@.subrange(ts as int, te as int));
            if t.len() >= 2 {
                assert(t[0] == content@[ts as int]);
            }
        }
        match parse_dec_u64_range(content.as_slice(), ts, te) {
            Some(v) => {
                if v <= 2147483647u64 {
                    Some(v as i32)
                } else {
                    None
                }
            }
            None => None,
        }
    } else {
        None
    }
}

/// The startup cleanup decision for one worker kind's PID marker.
pub struct CleanupPlan {
    /// The stale process to signal, best effort, if the marker named one.
    pub kill_pid: Option<i32>,
    /// Whether to delete the marker file.
    pub remove_marker: bool,
}

/// Decide the orphan cleanup for a marker file found (or not) at
/// startup.
///
/// Whenever a marker file exists it is removed afterwards, whether or
/// not its contents named a live — or any — process; the named process,
/// if one parses, is signalled best-effort, since the identifier may be
/// stale or reused.
pub fn orphan_cleanup_plan(marker: Option<&Vec<u8>>) -> (r: CleanupPlan)
    ensures
        r.remove_marker == (marker is Some),
        match marker {
            Some(c) => match r.kill_pid {
                Some(pid) => spec_pid_of_marker(c@) == Some(pid as int),
                None => spec_pid_of_marker(c@) is None,
            },
            None => r.kill_pid is None,
        },
{
    match marker {
        Some(content) => CleanupPlan { kill_pid: parse_pid_marker(content), remove_marker: true },
        None => CleanupPlan { kill_pid: None, remove_marker: false },
    }
}

/// The marker file path for the inference server under `app_data_dir`.
pub fn get_pid_file_path(app_data_dir: &str) -> (r: String)
    ensures
        r@ == app_data_dir@ + "/inference_server.pid"@,
{
    let mut out = app_data_dir.to_owned();
    out.append("/inference_server.pid");
    out
}

/// The marker file path for the model-serving server under
/// `app_data_dir`.
pub fn get_http_pid_file_path(app_data_dir: &str) -> (r: String)
    ensures
        r@ == app_data_dir@ + "/http_server.pid"@,
{
    let mut out = app_data_dir.to_owned();
    out.append("/http_server.pid");
    out
}

/// The bytes written to a PID marker right after a successful spawn:
/// the child's process identifier in decimal.
pub fn pid_marker_contents(pid: u32) -> (r: Vec<u8>)
    ensures
        r@ == dec_digits(pid as nat),
{
    u64_to_dec(pid as u64)
}

/// A marker written for `pid` reads back as `pid`: writing the marker
/// and parsing it at the next startup name the same process.
pub proof fn lemma_pid_marker_round_trip(pid: u32)
    requires
        pid <= i32::MAX,
    ensures
        spec_pid_of_marker(dec_digits(pid as nat)) == Some(pid as int),
{
    lemma_dec_digits(pid as nat);
    let d = dec_digits(pid as nat);
    assert(48 <= d[0] <= 57);
    assert(48 <= d[d.len() - 1] <= 57);
    assert(!is_ws_byte(d[0]) && !is_ws_byte(d.last()));
    crate::framing::lemma_trim_no_ws(d);
    assert(trim_ws(d) == d);
    assert(!(d[0] == 43 || d[0] == 45));
}

} // verus!
