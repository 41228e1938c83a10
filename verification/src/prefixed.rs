use vstd::prelude::*;

verus! {

/// `p` is a prefix of `s`.
pub open spec fn has_prefix(s: Seq<char>, p: Seq<char>) -> bool {
    p.len() <= s.len() && s.take(p.len() as int) == p
}

/// The frame kinds of the prefixed-line protocol spoken by the
/// inference and model-serving workers on their stdout.
#[derive(Clone, Copy, Debug, PartialEq, Eq, Structural)]
pub enum TagKind {
    /// `__RESPONSE__:` — a reply carrying a request identifier.
    Response,
    /// `__READY__:` — the unsolicited readiness announcement.
    Ready,
    /// `__REQUEST__:` — a served-request log record.
    Request,
    /// `__ERROR__:` — an out-of-band error report.
    Error,
    /// `__LOG__:` — free-form diagnostic text.
    Log,
    /// No marker: an untagged line.
    Plain,
}

/// The literal marker that announces a frame of kind `k`.
pub open spec fn spec_tag_prefix(k: TagKind) -> Seq<char> {
    match k {
        TagKind::Response => "__RESPONSE__:"@,
        TagKind::Ready => "__READY__:"@,
        TagKind::Request => "__REQUEST__:"@,
        TagKind::Error => "__ERROR__:"@,
        TagKind::Log => "__LOG__:"@,
        TagKind::Plain => Seq::<char>::empty(),
    }
}

/// Which frame a line is, and its payload: the first matching marker
/// selects the kind and the payload is everything after it; a line with
/// no marker is passed through whole.
pub open spec fn spec_classify(s: Seq<char>) -> (TagKind, Seq<char>) {
    if has_prefix(s, spec_tag_prefix(TagKind::Response)) {
        (TagKind::Response, s.skip(spec_tag_prefix(TagKind::Response).len() as int))
    } else if has_prefix(s, spec_tag_prefix(TagKind::Ready)) {
        (TagKind::Ready, s.skip(spec_tag_prefix(TagKind::Ready).len() as int))
    } else if has_prefix(s, spec_tag_prefix(TagKind::Request)) {
        (TagKind::Request, s.skip(spec_tag_prefix(TagKind::Request).len() as int))
    } else if has_prefix(s, spec_tag_prefix(TagKind::Error)) {
        (TagKind::Error, s.skip(spec_tag_prefix(TagKind::Error).len() as int))
    } else if has_prefix(s, spec_tag_prefix(TagKind::Log)) {
        (TagKind::Log, s.skip(spec_tag_prefix(TagKind::Log).len() as int))
    } else {
        (TagKind::Plain, s)
    }
}

/// A classified line of the prefixed protocol: its kind and its payload.
pub struct PrefixedFrame {
    pub kind: TagKind,
    pub payload: String,
}

/// Whether `p` is a prefix of `s`, comparing character by character.
pub fn str_has_prefix(s: &str, p: &str) -> (r: bool)
    ensures
        r == has_prefix(s@, p@),
{
    let sl = s.unicode_len();
    let pl = p.unicode_len();
    if pl > sl {
        return false;
    }
    let mut i: usize = 0;
    while i < pl
        invariant
            0 <= i <= pl,
            pl == p@.len(),
            sl == s@.len(),
            pl <= sl,
            forall|j: int| 0 <= j < i ==> s@[j] == p@[j],
        decreases pl - i,
    {
        if s.get_char(i) != p.get_char(i) {
            proof {
                assert(s@.take(pl as int)[i as int] != p@[i as int]);
            }
            return false;
        }
        i = i + 1;
    }
    proof {
        assert(s@.take(pl as int) =~= p@);
    }
    true
}

/// The rest of `s` after the prefix `p`, or `None` if `p` does not
/// start `s`.
pub fn strip_prefix_of<'a>(s: &'a str, p: &str) -> (r: Option<&'a str>)
    ensures
        match r {
            Some(t) => has_prefix(s@, p@) && t@ == s@.skip(p@.len() as int),
            None => !has_prefix(s@, p@),
        },
{
    if str_has_prefix(s, p) {
        let sl = s.unicode_len();
        let pl = p.unicode_len();
        let t = s.substring_char(pl, sl);
        proof {
            assert(t@ =~= s@.skip(p@.len() as int));
        }
        Some(t)
    } else {
        None
    }
}

/// Classify one line of the prefixed protocol.
///
/// The marker, if any, selects the frame kind, and the payload is the
/// text after it; an unmarked line comes back whole as `Plain`, so no
/// line is ever dropped.
pub fn classify_prefixed_line(line: &str) -> (r: PrefixedFrame)
    ensures
        r.kind == spec_classify(line@).0,
        r.payload@ == spec_classify(line@).1,
{
    if let Some(t) = strip_prefix_of(line, "__RESPONSE__:") {
        PrefixedFrame { kind: TagKind::Response, payload: t.to_owned() }
    } else if let Some(t) = strip_prefix_of(line, "__READY__:") {
        PrefixedFrame { kind: TagKind::Ready, payload: t.to_owned() }
    } else if let Some(t) = strip_prefix_of(line, "__REQUEST__:") {
        PrefixedFrame { kind: TagKind::Request, payload: t.to_owned() }
    } else if let Some(t) = strip_prefix_of(line, "__ERROR__:") {
        PrefixedFrame { kind: TagKind::Error, payload: t.to_owned() }
    } else if let Some(t) = strip_prefix_of(line, "__LOG__:") {
        PrefixedFrame { kind: TagKind::Log, payload: t.to_owned() }
    } else {
        PrefixedFrame { kind: TagKind::Plain, payload: line.to_owned() }
    }
}

/// Build the marked line for a frame of kind `k` around `payload`,
/// without the trailing line feed the transport adds.
pub fn encode_prefixed(k: TagKind, payload: &str) -> (r: String)
    ensures
        r@ == spec_tag_prefix(k) + payload@,
{
    let prefix = match k {
        TagKind::Response => "__RESPONSE__:",
        TagKind::Ready => "__READY__:",
        TagKind::Request => "__REQUEST__:",
        TagKind::Error => "__ERROR__:",
        TagKind::Log => "__LOG__:",
        TagKind::Plain => "",
    };
    let mut out = prefix.to_owned();
    out.append(payload);
    proof {
        if k is Plain {
            reveal_strlit("");
            assert(out@ =~= spec_tag_prefix(k) + payload@);
        }
    }
    out
}

/// The index of the first line feed in `s`, or `s.len()` if none occurs.
pub open spec fn find_char_nl(s: Seq<char>) -> nat
    decreases s.len(),
{
    if s.len() == 0 {
        0
    } else if s[0] == '\n' {
        0
    } else {
        1 + find_char_nl(s.skip(1))
    }
}

/// What the line transport delivers for a stream starting with `s`: the
/// text before the first line feed.
pub open spec fn spec_first_line(s: Seq<char>) -> Seq<char> {
    s.take(find_char_nl(s) as int)
}

/// A witness pins `find_char_nl` down.
pub proof fn lemma_find_char_nl_at(s: Seq<char>, k: int)
    requires
        0 <= k <= s.len(),
        k < s.len() ==> s[k] == '\n',
        forall|i: int| 0 <= i < k ==> s[i] != '\n',
    ensures
        find_char_nl(s) == k,
    decreases s.len(),
{
    if s.len() > 0 && s[0] != '\n' {
        assert(k >= 1);
        lemma_find_char_nl_at(s.skip(1), k - 1);
        assert(forall|i: int| 0 <= i < s.skip(1).len() ==> s.skip(1)[i] == s[i + 1]);
    }
}

/// Round trip of the prefixed-line framing: a payload without an
/// embedded line feed, written as its marked line plus the terminating
/// line feed, is read back as the same kind and the identical payload.
/// (A payload holding a line feed cannot round-trip through a
/// line-delimited transport: the transport would split it.)
pub proof fn lemma_prefixed_round_trip(k: TagKind, payload: Seq<char>)
    requires
        k != TagKind::Plain,
        forall|i: int| 0 <= i < payload.len() ==> payload[i] != '\n',
    ensures
        spec_classify(spec_first_line(spec_tag_prefix(k) + payload + seq!['\n'])) == (k, payload),
{
    reveal_strlit("__RESPONSE__:");
    reveal_strlit("__READY__:");
    reveal_strlit("__REQUEST__:");
    reveal_strlit("__ERROR__:");
    reveal_strlit("__LOG__:");
    let pfx = spec_tag_prefix(k);
    let stream = pfx + payload + seq!['\n'];
    assert forall|i: int| 0 <= i < pfx.len() as int + payload.len() as int implies stream[i] != '\n' by {
        if i < pfx.len() {
            assert(stream[i] == pfx[i]);
        } else {
            assert(stream[i] == payload[i - pfx.len()]);
        }
    }
    assert(stream[pfx.len() as int + payload.len() as int] == '\n');
    lemma_find_char_nl_at(stream, pfx.len() as int + payload.len() as int);
    let line = spec_first_line(stream);
    assert(line =~= pfx + payload);
    assert(has_prefix(line, pfx)) by {
        assert(line.take(pfx.len() as int) =~= pfx);
    }
    let resp = spec_tag_prefix(TagKind::Response);
    let ready = spec_tag_prefix(TagKind::Ready);
    let req = spec_tag_prefix(TagKind::Request);
    let err = spec_tag_prefix(TagKind::Error);
    match k {
        TagKind::Response => {
            assert(line.skip(resp.len() as int) =~= payload);
        }
        TagKind::Ready => {
            assert(!has_prefix(line, resp)) by {
                if has_prefix(line, resp) {
                    assert(line.take(resp.len() as int)[4] == resp[4]);
                    assert(line[4] == ready[4]);
                }
            }
            assert(line.skip(ready.len() as int) =~= payload);
        }
        TagKind::Request => {
            assert(!has_prefix(line, resp)) by {
                if has_prefix(line, resp) {
                    assert(line.take(resp.len() as int)[4] == resp[4]);
                    assert(line[4] == req[4]);
                }
            }
            assert(!has_prefix(line, ready)) by {
                if has_prefix(line, ready) {
                    assert(line.take(ready.len() as int)[4] == ready[4]);
                    assert(line[4] == req[4]);
                }
            }
            assert(line.skip(req.len() as int) =~= payload);
        }
        TagKind::Error => {
            assert(!has_prefix(line, resp)) by {
                if has_prefix(line, resp) {
                    assert(line.take(resp.len() as int)[2] == resp[2]);
                    assert(line[2] == err[2]);
                }
            }
            assert(!has_prefix(line, ready)) by {
                if has_prefix(line, ready) {
                    assert(line.take(ready.len() as int)[2] == ready[2]);
                    assert(line[2] == err[2]);
                }
            }
            assert(!has_prefix(line, req)) by {
                if has_prefix(line, req) {
                    assert(line.take(req.len() as int)[2] == req[2]);
                    assert(line[2] == err[2]);
                }
            }
            assert(line.skip(err.len() as int) =~= payload);
        }
        TagKind::Log => {
            let log = spec_tag_prefix(TagKind::Log);
            assert(!has_prefix(line, resp)) by {
                if has_prefix(line, resp) {
                    assert(line.take(resp.len() as int)[2] == resp[2]);
                    assert(line[2] == log[2]);
                }
            }
            assert(!has_prefix(line, ready)) by {
                if has_prefix(line, ready) {
                    assert(line.take(ready.len() as int)[2] == ready[2]);
                    assert(line[2] == log[2]);
                }
            }
            assert(!has_prefix(line, req)) by {
                if has_prefix(line, req) {
                    assert(line.take(req.len() as int)[2] == req[2]);
                    assert(line[2] == log[2]);
                }
            }
            assert(!has_prefix(line, err)) by {
                if has_prefix(line, err) {
                    assert(line.take(err.len() as int)[3] == err[3]);
                    assert(line[3] == log[3]);
                }
            }
            assert(line.skip(log.len() as int) =~= payload);
        }
        TagKind::Plain => {}
    }
}

} // verus!
