use vstd::prelude::*;
use crate::numtext::{all_digits, dec_digits, dec_val, lemma_dec_digits, parse_dec_u64_range,
    push_dec_u64};

verus! {

/// ASCII whitespace, as trimmed from header lines: tab through carriage
/// return, and space.
pub open spec fn is_ws_byte(b: u8) -> bool {
    9 <= b <= 13 || b == 32
}

/// `s` with trailing whitespace removed.
pub open spec fn trim_end_ws(s: Seq<u8>) -> Seq<u8>
    decreases s.len(),
{
    if s.len() > 0 && is_ws_byte(s.last()) {
        trim_end_ws(s.drop_last())
    } else {
        s
    }
}

/// `s` with leading whitespace removed.
pub open spec fn trim_start_ws(s: Seq<u8>) -> Seq<u8>
    decreases s.len(),
{
    if s.len() > 0 && is_ws_byte(s[0]) {
        trim_start_ws(s.skip(1))
    } else {
        s
    }
}

/// `s` with whitespace removed from both ends.
pub open spec fn trim_ws(s: Seq<u8>) -> Seq<u8> {
    trim_start_ws(trim_end_ws(s))
}

/// A sequence that neither starts nor ends in whitespace trims to itself.
pub proof fn lemma_trim_no_ws(s: Seq<u8>)
    requires
        s.len() == 0 || (!is_ws_byte(s[0]) && !is_ws_byte(s.last())),
    ensures
        trim_ws(s) == s,
{
    if s.len() == 0 {
        assert(trim_end_ws(s) == s);
        assert(trim_start_ws(s) == s);
    }
}

/// The index of the first line feed in `s`, or `s.len()` if none occurs.
pub open spec fn find_nl(s: Seq<u8>) -> nat
    decreases s.len(),
{
    if s.len() == 0 {
        0
    } else if s[0] == 10 {
        0
    } else {
        1 + find_nl(s.skip(1))
    }
}

/// `find_nl` finds the first line feed: nothing before it is one, and it
/// is one unless the whole sequence has none.
pub proof fn lemma_find_nl(s: Seq<u8>)
    ensures
        find_nl(s) <= s.len(),
        forall|i: int| 0 <= i < find_nl(s) ==> s[i] != 10,
        find_nl(s) < s.len() ==> s[find_nl(s) as int] == 10,
    decreases s.len(),
{
    if s.len() > 0 && s[0] != 10 {
        lemma_find_nl(s.skip(1));
        assert forall|i: int| 0 <= i < find_nl(s) implies s[i] != 10 by {
            if i > 0 {
                assert(s.skip(1)[i - 1] == s[i]);
                assert(s.skip(1)[i - 1] != 10);
            }
        }
        if find_nl(s) < s.len() {
            assert(s.skip(1)[find_nl(s.skip(1)) as int] == s[find_nl(s) as int]);
        }
    }
}

/// A witness pins `find_nl` down: if nothing before `k` is a line feed
/// and `s[k]` is one, the first line feed is at `k`.
pub proof fn lemma_find_nl_at(s: Seq<u8>, k: int)
    requires
        0 <= k < s.len(),
        s[k] == 10,
        forall|i: int| 0 <= i < k ==> s[i] != 10,
    ensures
        find_nl(s) == k,
{
    lemma_find_nl(s);
    if find_nl(s) < k {
        assert(s[find_nl(s) as int] == 10);
    }
    if find_nl(s) > k {
        assert(s[k] != 10);
    }
}

/// There is no line feed at all exactly when `find_nl` runs off the end.
pub proof fn lemma_find_nl_none(s: Seq<u8>)
    requires
        forall|i: int| 0 <= i < s.len() ==> s[i] != 10,
    ensures
        find_nl(s) == s.len(),
{
    lemma_find_nl(s);
    if find_nl(s) < s.len() {
        assert(s[find_nl(s) as int] == 10);
    }
}

/// The byte at position `i` of the `Content-Length: ` header prefix.
pub open spec fn clen_prefix_byte(i: int) -> u8 {
    if i == 0 {
        67
    } else if i == 1 {
        111
    } else if i == 2 {
        110
    } else if i == 3 {
        116
    } else if i == 4 {
        101
    } else if i == 5 {
        110
    } else if i == 6 {
        116
    } else if i == 7 {
        45
    } else if i == 8 {
        76
    } else if i == 9 {
        101
    } else if i == 10 {
        110
    } else if i == 11 {
        103
    } else if i == 12 {
        116
    } else if i == 13 {
        104
    } else if i == 14 {
        58
    } else {
        32
    }
}

/// The bytes of `Content-Length: `, the header naming the body length.
pub open spec fn clen_prefix() -> Seq<u8> {
    Seq::new(16, |i: int| clen_prefix_byte(i))
}

/// The bytes of one length-prefixed frame around `body`: the
/// `Content-Length` header gives the exact byte count of the body — a
/// byte count, not a character count — followed by a blank line and the
/// body itself, which may freely contain line breaks.
pub open spec fn clen_frame(body: Seq<u8>) -> Seq<u8> {
    clen_prefix() + dec_digits(body.len()) + seq![13u8, 10u8, 13u8, 10u8] + body
}

/// The outcome of scanning the header block at the front of a buffer.
pub enum HeaderScan {
    /// The header block is not complete yet.
    NeedMore,
    /// The header block is complete but unusable: a `Content-Length`
    /// value that does not parse, or a blank line before any length was
    /// seen. There is no way to resynchronise after this.
    Bad,
    /// A complete header block: the announced body length, and the
    /// offset just past the blank line.
    Found { content_len: nat, header_end: nat },
}

/// Scan header lines from the front of `rest`: each line runs to a line
/// feed and is trimmed of surrounding whitespace; a `Content-Length: `
/// line records the announced length (the last one wins); a blank line
/// ends the block.
pub open spec fn spec_scan_headers(rest: Seq<u8>, clen: Option<nat>) -> HeaderScan
    decreases rest.len(),
    via spec_scan_headers_decreases
{
    let nl = find_nl(rest);
    if nl == rest.len() {
        HeaderScan::NeedMore
    } else {
        let line = trim_ws(rest.take(nl as int));
        let tail = rest.skip(nl as int + 1);
        if line.len() == 0 {
            match clen {
                Some(n) => HeaderScan::Found { content_len: n, header_end: nl + 1 },
                None => HeaderScan::Bad,
            }
        } else {
            let next = if line.len() >= 16 && line.take(16) == clen_prefix() {
                let digits = line.skip(16);
                if digits.len() > 0 && all_digits(digits) && dec_val(digits) <= u64::MAX {
                    Some(Some(dec_val(digits)))
                } else {
                    None
                }
            } else {
                Some(clen)
            };
            match next {
                None => HeaderScan::Bad,
                Some(c) => match spec_scan_headers(tail, c) {
                    HeaderScan::NeedMore => HeaderScan::NeedMore,
                    HeaderScan::Bad => HeaderScan::Bad,
                    HeaderScan::Found { content_len, header_end } => HeaderScan::Found {
                        content_len,
                        header_end: header_end + nl + 1,
                    },
                },
            }
        }
    }
}

#[via_fn]
proof fn spec_scan_headers_decreases(rest: Seq<u8>, clen: Option<nat>) {
    lemma_find_nl(rest);
}

/// The outcome of one decode attempt on a buffer.
pub enum FrameScan {
    /// More bytes are needed before a whole frame is present.
    NeedMore,
    /// The header block is corrupt; the connection cannot resynchronise
    /// and must be closed.
    Bad,
    /// One whole frame: its body, and how many bytes of the buffer it
    /// consumed.
    Complete { body: Seq<u8>, consumed: nat },
}

/// Decode one length-prefixed frame from the front of `buf`.
pub open spec fn spec_decode_clen(buf: Seq<u8>) -> FrameScan {
    match spec_scan_headers(buf, None) {
        HeaderScan::NeedMore => FrameScan::NeedMore,
        HeaderScan::Bad => FrameScan::Bad,
        HeaderScan::Found { content_len, header_end } => if header_end + content_len
            <= buf.len() {
            FrameScan::Complete {
                body: buf.subrange(header_end as int, (header_end + content_len) as int),
                consumed: header_end + content_len,
            }
        } else {
            FrameScan::NeedMore
        },
    }
}

/// The result handed back by the streaming decoder.
pub enum DecodeStep {
    /// One whole frame: its body bytes, and how much of the buffer to
    /// drop.
    Frame { body: Vec<u8>, consumed: usize },
    /// No whole frame yet; keep reading.
    NeedMore,
    /// The header block is corrupt. A corrupt length cannot be
    /// resynchronised, so the transport must be closed.
    Malformed,
}

/// Encode `body` as one length-prefixed frame.
///
/// The header byte count equals the body's exact byte length, so a body
/// holding multi-byte characters or embedded line breaks survives the
/// trip untouched.
pub fn encode_clen_frame(body: &Vec<u8>) -> (out: Vec<u8>)
    ensures
        out@ == clen_frame(body@),
{
    let mut out: Vec<u8> = Vec::new();
    out.push(67);
    out.push(111);
    out.push(110);
    out.push(116);
    out.push(101);
    out.push(110);
    out.push(116);
    out.push(45);
    out.push(76);
    out.push(101);
    out.push(110);
    out.push(103);
    out.push(116);
    out.push(104);
    out.push(58);
    out.push(32);
    proof {
        assert(out@ =~= clen_prefix());
    }
    push_dec_u64(body.len() as u64, &mut out);
    out.push(13);
    out.push(10);
    out.push(13);
    out.push(10);
    out.extend_from_slice(body.as_slice());
    proof {
        assert(out@ =~= clen_frame(body@));
    }
    out
}

/// Whether byte `i` of `s` is ASCII whitespace.
fn ws_at(s: &Vec<u8>, i: usize) -> (r: bool)
    requires
        i < s@.len(),
    ensures
        r == is_ws_byte(s@[i as int]),
{
    let b = s[i];
    9 <= b && b <= 13 || b == 32
}

/// The trimmed bounds of `s[from..to]`: the subrange between the
/// returned bounds is the line with surrounding whitespace removed.
pub fn trim_range(s: &Vec<u8>, from: usize, to: usize) -> (r: (usize, usize))
    requires
        from <= to <= s@.len(),
    ensures
        from <= r.0 <= r.1 <= to,
        s@.subrange(r.0 as int, r.1 as int) == trim_ws(s@.subrange(from as int, to as int)),
{
    let ghost whole = s@.subrange(from as int, to as int);
    let mut end = to;
    while end > from && ws_at(s, end - 1)
        invariant
            from <= end <= to <= s@.len(),
            trim_end_ws(s@.subrange(from as int, end as int)) == trim_end_ws(whole),
            whole == s@.subrange(from as int, to as int),
        decreases end,
    {
        proof {
            let cur = s@.subrange(from as int, end as int);
            assert(cur.last() == s@[end - 1]);
            assert(cur.drop_last() =~= s@.subrange(from as int, end - 1));
        }
        end = end - 1;
    }
    proof {
        let cur = s@.subrange(from as int, end as int);
        if end > from {
            assert(cur.last() == s@[end - 1]);
        }
        assert(trim_end_ws(cur) == cur);
    }
    let mut start = from;
    while start < end && ws_at(s, start)
        invariant
            from <= start <= end <= to <= s@.len(),
            trim_end_ws(s@.subrange(from as int, end as int)) == s@.subrange(
                from as int,
                end as int,
            ),
            trim_start_ws(s@.subrange(start as int, end as int)) == trim_start_ws(
                s@.subrange(from as int, end as int),
            ),
            whole == s@.subrange(from as int, to as int),
            trim_ws(whole) == trim_start_ws(s@.subrange(from as int, end as int)),
        decreases end - start,
    {
        proof {
            let cur = s@.subrange(start as int, end as int);
            assert(cur[0] == s@[start as int]);
            assert(cur.skip(1) =~= s@.subrange(start + 1, end as int));
        }
        start = start + 1;
    }
    proof {
        let cur = s@.subrange(start as int, end as int);
        if start < end {
            assert(cur[0] == s@[start as int]);
        }
        assert(trim_start_ws(cur) == cur);
    }
    (start, end)
}

/// Whether the 16 bytes at `from` spell `Content-Length: `.
fn has_clen_prefix(s: &Vec<u8>, from: usize) -> (r: bool)
    requires
        from + 16 <= s@.len(),
    ensures
        r == (s@.subrange(from as int, from + 16) == clen_prefix()),
{
    let _len = s.len();
    let r = s[from] == 67 && s[from + 1] == 111 && s[from + 2] == 110 && s[from + 3] == 116
        && s[from + 4] == 101 && s[from + 5] == 110 && s[from + 6] == 116 && s[from + 7] == 45
        && s[from + 8] == 76 && s[from + 9] == 101 && s[from + 10] == 110 && s[from + 11] == 103
        && s[from + 12] == 116 && s[from + 13] == 104 && s[from + 14] == 58 && s[from + 15] == 32;
    proof {
        let sub = s@.subrange(from as int, from + 16);
        if r {
            assert(sub =~= clen_prefix());
        } else {
            if sub == clen_prefix() {
                assert(forall|i: int| 0 <= i < 16 ==> sub[i] == clen_prefix_byte(i));
                assert(sub[0] == 67 && sub[1] == 111 && sub[2] == 110 && sub[3] == 116
                    && sub[4] == 101 && sub[5] == 110 && sub[6] == 116 && sub[7] == 45
                    && sub[8] == 76 && sub[9] == 101 && sub[10] == 110 && sub[11] == 103
                    && sub[12] == 116 && sub[13] == 104 && sub[14] == 58 && sub[15] == 32);
            }
        }
    }
    r
}

/// Decode one length-prefixed frame from the front of `buf`.
///
/// The decoder is resumable: on `NeedMore` the caller reads further
/// bytes, appends them, and calls again; on `Frame` it drops `consumed`
/// bytes from the front and may call again for the next frame. On
/// `Malformed` the header block was corrupt, which for this framing is
/// fatal to the connection.
pub fn decode_clen_frame(buf: &Vec<u8>) -> (r: DecodeStep)
    ensures
        match r {
            DecodeStep::Frame { body, consumed } => spec_decode_clen(buf@) == (
            FrameScan::Complete { body: body@, consumed: consumed as nat }),
            DecodeStep::NeedMore => spec_decode_clen(buf@) is NeedMore,
            DecodeStep::Malformed => spec_decode_clen(buf@) is Bad,
        },
{
    let mut pos: usize = 0;
    let mut clen: Option<u64> = None;
    proof {
        assert(buf@.skip(0) =~= buf@);
    }
    loop
        invariant
            pos <= buf@.len(),
            spec_scan_headers(buf@, None) == match spec_scan_headers(
                buf@.skip(pos as int),
                match clen {
                    Some(v) => Some(v as nat),
                    None => None,
                },
            ) {
                HeaderScan::NeedMore => HeaderScan::NeedMore,
                HeaderScan::Bad => HeaderScan::Bad,
                HeaderScan::Found { content_len, header_end } => HeaderScan::Found {
                    content_len,
                    header_end: (header_end + pos) as nat,
                },
            },
        decreases buf@.len() - pos,
    {
        let ghost rest = buf@.skip(pos as int);
        let ghost cur = match clen {
            Some(v) => Some(v as nat),
            None => None,
        };
        // Find the end of the current header line.
        let mut j = pos;
        while j < buf.len() && buf[j] != 10
            invariant
                pos <= j <= buf@.len(),
                forall|i: int| pos <= i < j ==> buf@[i] != 10,
            decreases buf@.len() - j,
        {
            j = j + 1;
        }
        if j == buf.len() {
            proof {
                assert(forall|i: int| 0 <= i < rest.len() ==> rest[i] == buf@[pos + i]);
                lemma_find_nl_none(rest);
            }
            return DecodeStep::NeedMore;
        }
        proof {
            assert(forall|i: int| 0 <= i < rest.len() ==> rest[i] == buf@[pos + i]);
            lemma_find_nl_at(rest, j - pos);
            assert(rest.take(j - pos) =~= buf@.subrange(pos as int, j as int));
        }
        let (ts, te) = trim_range(buf, pos, j);
        let ghost line = trim_ws(rest.take(j - pos));
        proof {
            assert(line == buf@.subrange(ts as int, te as int));
            assert(rest.skip(j - pos + 1) =~= buf@.skip(j + 1));
        }
        if ts == te {
            // Blank line: the header block ends here.
            proof {
                assert(line.len() == 0);
            }
            match clen {
                Some(n) => {
                    proof {
                        assert(spec_scan_headers(rest, cur) == (HeaderScan::Found {
                            content_len: n as nat,
                            header_end: (j - pos + 1) as nat,
                        }));
                        assert(spec_scan_headers(buf@, None) == (HeaderScan::Found {
                            content_len: n as nat,
                            header_end: (j + 1) as nat,
                        }));
                    }
                    let header_end = j + 1;
                    if n > (buf.len() - header_end) as u64 {
                        return DecodeStep::NeedMore;
                    }
                    let n_us = n as usize;
                    let mut body: Vec<u8> = Vec::new();
                    let whole = buf.as_slice();
                    body.extend_from_slice(&whole[header_end..header_end + n_us]);
                    proof {
                        assert(body@ =~= buf@.subrange(
                            header_end as int,
                            header_end + n_us,
                        ));
                    }
                    return DecodeStep::Frame { body, consumed: header_end + n_us };
                }
                None => {
                    proof {
                        assert(spec_scan_headers(rest, cur) == HeaderScan::Bad);
                    }
                    return DecodeStep::Malformed;
                }
            }
        } else if te - ts >= 16 && has_clen_prefix(buf, ts) {
            proof {
                assert(line.take(16) =~= buf@.subrange(ts as int, ts + 16));
                assert(line.skip(16) =~= buf@.subrange(ts + 16, te as int));
            }
            let parsed = parse_dec_u64_range(buf.as_slice(), ts + 16, te);
            match parsed {
                Some(v) => {
                    proof {
                        let digits = line.skip(16);
                        assert(digits.len() > 0 && all_digits(digits) && dec_val(digits)
                            <= u64::MAX);
                        assert(v as nat == dec_val(digits));
                    }
                    clen = Some(v);
                    pos = j + 1;
                }
                None => {
                    proof {
                        let digits = line.skip(16);
                        assert(!(digits.len() > 0 && all_digits(digits) && dec_val(digits)
                            <= u64::MAX));
                        assert(spec_scan_headers(rest, cur) == HeaderScan::Bad);
                    }
                    return DecodeStep::Malformed;
                }
            }
        } else {
            proof {
                if line.len() >= 16 {
                    assert(line.take(16) =~= buf@.subrange(ts as int, ts + 16));
                }
            }
            pos = j + 1;
        }
    }
}

/// Framing round trip: decoding an encoded frame yields exactly the
/// original body — whatever bytes it holds, embedded line breaks and
/// multi-byte characters included — and consumes exactly the frame.
pub proof fn lemma_clen_round_trip(body: Seq<u8>)
    requires
        body.len() <= u64::MAX,
    ensures
        spec_decode_clen(clen_frame(body)) == (FrameScan::Complete {
            body,
            consumed: clen_frame(body).len(),
        }),
{
    lemma_dec_digits(body.len());
    let p = clen_prefix();
    let d = dec_digits(body.len());
    let frame = clen_frame(body);
    let dl = d.len() as int;
    // The first line feed sits just after the carriage return that ends
    // the header line.
    assert forall|i: int| 0 <= i < 16 + dl + 1 implies frame[i] != 10 by {
        if i < 16 {
            assert(frame[i] == clen_prefix_byte(i));
        } else if i < 16 + dl {
            assert(frame[i] == d[i - 16]);
            assert(48 <= d[i - 16] <= 57);
        } else {
            assert(frame[i] == 13);
        }
    }
    assert(frame[16 + dl + 1] == 10);
    lemma_find_nl_at(frame, 16 + dl + 1);
    let nl = 16 + dl + 1;
    // The header line trims to the prefix plus the digits.
    let rawline = frame.take(nl);
    assert(rawline.last() == 13);
    assert(rawline.drop_last() =~= p + d);
    assert(trim_end_ws(rawline) == trim_end_ws(p + d));
    assert((p + d)[0] == 67 && !is_ws_byte(67));
    assert((p + d).last() == d[dl - 1]);
    assert(48 <= d[dl - 1] <= 57);
    assert(trim_end_ws(p + d) == p + d);
    assert(trim_start_ws(p + d) == p + d);
    let line = trim_ws(rawline);
    assert(line == p + d);
    assert(line.len() >= 16);
    assert(line.take(16) =~= p);
    assert(line.skip(16) =~= d);
    // The scan records the body length and recurses past the header line.
    let tail = frame.skip(nl + 1);
    assert(tail =~= seq![13u8, 10u8] + body);
    // The next line is the blank separator.
    assert(tail[0] == 13 && tail[1] == 10);
    lemma_find_nl_at(tail, 1);
    let line2raw = tail.take(1);
    assert(line2raw =~= seq![13u8]);
    assert(trim_end_ws(Seq::<u8>::empty()) == Seq::<u8>::empty());
    assert(trim_start_ws(Seq::<u8>::empty()) == Seq::<u8>::empty());
    assert(line2raw.drop_last() =~= Seq::<u8>::empty());
    assert(is_ws_byte(13));
    assert(trim_end_ws(line2raw) == Seq::<u8>::empty());
    assert(trim_ws(line2raw).len() == 0);
    let tail2 = tail.skip(2);
    assert(spec_scan_headers(tail, Some(body.len())) == (HeaderScan::Found {
        content_len: body.len(),
        header_end: 2nat,
    }));
    assert(spec_scan_headers(frame, None) == (HeaderScan::Found {
        content_len: body.len(),
        header_end: (nl + 3) as nat,
    }));
    assert(frame.len() == nl + 3 + body.len());
    assert(frame.subrange(nl + 3, nl + 3 + body.len() as int) =~= body);
}

} // verus!
