use vstd::prelude::*;

verus! {

/// `pat` occurs in `s` at position `i`.
pub open spec fn occurs_at(s: Seq<char>, pat: Seq<char>, i: int) -> bool {
    0 <= i && i + pat.len() <= s.len() && s.subrange(i, i + pat.len()) == pat
}

/// The position of the first occurrence of `pat` in `s`, or -1 if none.
pub open spec fn first_occurrence(s: Seq<char>, pat: Seq<char>) -> int
    decreases s.len(),
{
    if pat.len() > s.len() {
        -1
    } else if s.take(pat.len() as int) == pat {
        0
    } else if s.len() == 0 {
        -1
    } else {
        let r = first_occurrence(s.skip(1), pat);
        if r < 0 {
            -1
        } else {
            r + 1
        }
    }
}

/// `first_occurrence` finds the first occurrence: nothing earlier
/// matches, and -1 means nothing matches at all.
pub proof fn lemma_first_occurrence(s: Seq<char>, pat: Seq<char>)
    ensures
        first_occurrence(s, pat) == -1 ==> forall|i: int| !occurs_at(s, pat, i),
        first_occurrence(s, pat) >= 0 ==> {
            let r = first_occurrence(s, pat);
            &&& occurs_at(s, pat, r)
            &&& forall|i: int| 0 <= i < r ==> !occurs_at(s, pat, i)
        },
    decreases s.len(),
{
    if pat.len() > s.len() {
        assert forall|i: int| !occurs_at(s, pat, i) by {}
    } else if s.take(pat.len() as int) == pat {
        assert(occurs_at(s, pat, 0)) by {
            assert(s.subrange(0, pat.len() as int) =~= s.take(pat.len() as int));
        }
    } else if s.len() == 0 {
        assert forall|i: int| !occurs_at(s, pat, i) by {
            if 0 <= i && i + pat.len() <= s.len() {
                assert(pat.len() == 0 && i == 0);
                assert(s.subrange(0, 0) =~= s.take(0));
            }
        }
    } else {
        lemma_first_occurrence(s.skip(1), pat);
        let r1 = first_occurrence(s.skip(1), pat);
        assert(!occurs_at(s, pat, 0)) by {
            assert(s.subrange(0, pat.len() as int) =~= s.take(pat.len() as int));
        }
        assert forall|i: int| 1 <= i && i + pat.len() <= s.len() implies occurs_at(s, pat, i)
            == occurs_at(s.skip(1), pat, i - 1) by {
            assert(s.subrange(i, i + pat.len()) =~= s.skip(1).subrange(i - 1, i - 1 + pat.len()));
        }
        if r1 == -1 {
            assert forall|i: int| !occurs_at(s, pat, i) by {
                if 1 <= i && i + pat.len() <= s.len() {
                    assert(!occurs_at(s.skip(1), pat, i - 1));
                }
            }
        } else {
            assert(occurs_at(s.skip(1), pat, r1));
            assert(occurs_at(s, pat, r1 + 1));
            assert forall|i: int| 0 <= i < r1 + 1 implies !occurs_at(s, pat, i) by {
                if i >= 1 {
                    assert(!occurs_at(s.skip(1), pat, i - 1));
                }
            }
        }
    }
}

/// Whether `pat` occurs at position `i` of `s`, checked character by
/// character.
fn matches_at(s: &str, pat: &str, i: usize, sl: usize, pl: usize) -> (r: bool)
    requires
        sl == s@.len(),
        pl == pat@.len(),
        i + pl <= sl,
    ensures
        r == occurs_at(s@, pat@, i as int),
{
    let mut j: usize = 0;
    while j < pl
        invariant
            0 <= j <= pl,
            sl == s@.len(),
            pl == pat@.len(),
            i + pl <= sl,
            forall|k: int| 0 <= k < j ==> s@[i + k] == pat@[k],
        decreases pl - j,
    {
        if s.get_char(i + j) != pat.get_char(j) {
            proof {
                assert(s@.subrange(i as int, i + pl)[j as int] == s@[i + j]);
            }
            return false;
        }
        j = j + 1;
    }
    proof {
        assert(s@.subrange(i as int, i + pl) =~= pat@);
    }
    true
}

/// The position of the first occurrence of `pat` in `s`, if any.
pub fn find_sub(s: &str, pat: &str) -> (r: Option<usize>)
    ensures
        match r {
            Some(i) => first_occurrence(s@, pat@) == i as int,
            None => first_occurrence(s@, pat@) == -1,
        },
{
    proof {
        lemma_first_occurrence(s@, pat@);
    }
    let sl = s.unicode_len();
    let pl = pat.unicode_len();
    if pl > sl {
        return None;
    }
    if pl == 0 {
        proof {
            assert(s@.take(0) =~= pat@);
        }
        return Some(0);
    }
    let mut i: usize = 0;
    while i <= sl - pl
        invariant
            0 <= i,
            i <= sl - pl + 1,
            sl == s@.len(),
            pl == pat@.len(),
            0 < pl <= sl,
            forall|k: int| 0 <= k < i ==> !occurs_at(s@, pat@, k),
        decreases sl - i,
    {
        if matches_at(s, pat, i, sl, pl) {
            proof {
                lemma_first_occurrence(s@, pat@);
                let r = first_occurrence(s@, pat@);
                if r == -1 {
                    assert(!occurs_at(s@, pat@, i as int));
                }
                if r < i as int {
                    assert(!occurs_at(s@, pat@, r));
                }
            }
            return Some(i);
        }
        i = i + 1;
    }
    proof {
        assert forall|k: int| !occurs_at(s@, pat@, k) by {
            if 0 <= k && k + pat@.len() <= s@.len() {
                assert(!occurs_at(s@, pat@, k));
            }
        }
        lemma_first_occurrence(s@, pat@);
        if first_occurrence(s@, pat@) >= 0 {
            assert(occurs_at(s@, pat@, first_occurrence(s@, pat@)));
        }
    }
    None
}

/// `s` with every occurrence of `pat` removed, scanning left to right
/// without overlap.
pub open spec fn remove_all(s: Seq<char>, pat: Seq<char>) -> Seq<char>
    decreases s.len(),
    via remove_all_decreases
{
    if pat.len() == 0 {
        s
    } else {
        let i = first_occurrence(s, pat);
        if i < 0 {
            s
        } else {
            s.take(i) + remove_all(s.skip(i + pat.len()), pat)
        }
    }
}

#[via_fn]
proof fn remove_all_decreases(s: Seq<char>, pat: Seq<char>) {
    if pat.len() > 0 {
        lemma_first_occurrence(s, pat);
    }
}

/// Remove every occurrence of `pat` from `s`.
pub fn remove_all_sub(s: &str, pat: &str) -> (r: String)
    requires
        pat@.len() > 0,
    ensures
        r@ == remove_all(s@, pat@),
{
    let mut out = String::new();
    let mut cur = s.to_owned();
    loop
        invariant
            pat@.len() > 0,
            remove_all(s@, pat@) == out@ + remove_all(cur@, pat@),
        decreases cur@.len(),
    {
        match find_sub(cur.as_str(), pat) {
            None => {
                out.append(cur.as_str());
                proof {
                    assert(remove_all(s@, pat@) =~= out@);
                }
                return out;
            }
            Some(i) => {
                proof {
                    lemma_first_occurrence(cur@, pat@);
                }
                let cl = cur.as_str().unicode_len();
                let pl = pat.unicode_len();
                let head = cur.as_str().substring_char(0, i);
                out.append(head);
                let tail = cur.as_str().substring_char(i + pl, cl);
                let next = tail.to_owned();
                proof {
                    assert(head@ =~= cur@.take(i as int));
                    assert(next@ =~= cur@.skip(i as int + pat@.len() as int));
                }
                cur = next;
            }
        }
    }
}

/// `a`, seen case-insensitively (ASCII), has the lower-case character
/// `p` at this position.
pub open spec fn char_matches_ci(a: char, p: char) -> bool {
    a == p || ('A' <= a <= 'Z' && (a as u32) + 32 == p as u32)
}

/// The lower-case pattern `pat` occurs, case-insensitively, at `i`.
pub open spec fn occurs_ci_at(s: Seq<char>, pat: Seq<char>, i: int) -> bool {
    0 <= i && i + pat.len() <= s.len() && forall|j: int|
        0 <= j < pat.len() ==> char_matches_ci(s[i + j], #[trigger] pat[j])
}

/// The lower-case pattern `pat` occurs somewhere in `s`, comparing
/// ASCII letters case-insensitively — the same test as lower-casing `s`
/// first and searching for `pat`.
pub open spec fn contains_ci(s: Seq<char>, pat: Seq<char>) -> bool {
    exists|i: int| occurs_ci_at(s, pat, i)
}

/// Whether the lower-case pattern `pat` occurs in `s`, comparing ASCII
/// letters case-insensitively.
pub fn contains_ci_sub(s: &str, pat: &str) -> (r: bool)
    ensures
        r == contains_ci(s@, pat@),
{
    let sl = s.unicode_len();
    let pl = pat.unicode_len();
    if pl > sl {
        proof {
            assert forall|i: int| !occurs_ci_at(s@, pat@, i) by {}
        }
        return false;
    }
    if pl == 0 {
        proof {
            assert(occurs_ci_at(s@, pat@, 0));
        }
        return true;
    }
    let mut i: usize = 0;
    while i <= sl - pl
        invariant
            0 <= i,
            i <= sl - pl + 1,
            sl == s@.len(),
            pl == pat@.len(),
            0 < pl <= sl,
            forall|k: int| 0 <= k < i ==> !occurs_ci_at(s@, pat@, k),
        decreases sl - i,
    {
        let mut j: usize = 0;
        let mut ok = true;
        while j < pl
            invariant
                0 <= j <= pl,
                sl == s@.len(),
                pl == pat@.len(),
                i + pl <= sl,
                ok ==> forall|k: int| 0 <= k < j ==> char_matches_ci(s@[i + k], #[trigger] pat@[k]),
                !ok ==> !occurs_ci_at(s@, pat@, i as int),
            decreases pl - j,
        {
            if ok {
                let a = s.get_char(i + j);
                let p = pat.get_char(j);
                let m = a == p || ('A' <= a && a <= 'Z' && (a as u32) + 32 == p as u32);
                if !m {
                    ok = false;
                }
            }
            j = j + 1;
        }
        if ok {
            proof {
                assert(occurs_ci_at(s@, pat@, i as int));
            }
            return true;
        }
        i = i + 1;
    }
    proof {
        assert forall|k: int| !occurs_ci_at(s@, pat@, k) by {
            if 0 <= k && k + pat@.len() <= s@.len() {
                assert(!occurs_ci_at(s@, pat@, k));
            }
        }
    }
    false
}

/// ASCII whitespace, as trimmed from the ends of a text.
pub open spec fn is_ws_char(c: char) -> bool {
    c == ' ' || c == '\t' || c == '\n' || c == '\r' || c == '\u{b}' || c == '\u{c}'
}

/// `s` with trailing whitespace removed.
pub open spec fn trim_end_chars(s: Seq<char>) -> Seq<char>
    decreases s.len(),
{
    if s.len() > 0 && is_ws_char(s.last()) {
        trim_end_chars(s.drop_last())
    } else {
        s
    }
}

/// `s` with leading whitespace removed.
pub open spec fn trim_start_chars(s: Seq<char>) -> Seq<char>
    decreases s.len(),
{
    if s.len() > 0 && is_ws_char(s[0]) {
        trim_start_chars(s.skip(1))
    } else {
        s
    }
}

/// `s` with whitespace removed from both ends.
pub open spec fn trim_chars(s: Seq<char>) -> Seq<char> {
    trim_start_chars(trim_end_chars(s))
}

/// Whether the character at `i` is ASCII whitespace.
fn ws_char_at(s: &str, i: usize) -> (r: bool)
    requires
        i < s@.len(),
    ensures
        r == is_ws_char(s@[i as int]),
{
    let c = s.get_char(i);
    c == ' ' || c == '\t' || c == '\n' || c == '\r' || c == '\u{b}' || c == '\u{c}'
}

/// The trimmed bounds of `s`: the subrange between them is `s` with
/// surrounding whitespace removed.
pub fn trim_bounds(s: &str) -> (r: (usize, usize))
    ensures
        r.0 <= r.1 <= s@.len(),
        s@.subrange(r.0 as int, r.1 as int) == trim_chars(s@),
{
    let sl = s.unicode_len();
    let mut end = sl;
    proof {
        assert(s@.subrange(0, sl as int) =~= s@);
    }
    while end > 0 && ws_char_at(s, end - 1)
        invariant
            0 <= end <= sl,
            sl == s@.len(),
            trim_end_chars(s@.subrange(0, end as int)) == trim_end_chars(s@),
        decreases end,
    {
        proof {
            let cur = s@.subrange(0, end as int);
            assert(cur.last() == s@[end - 1]);
            assert(cur.drop_last() =~= s@.subrange(0, end - 1));
        }
        end = end - 1;
    }
    proof {
        let cur = s@.subrange(0, end as int);
        if end > 0 {
            assert(cur.last() == s@[end - 1]);
        }
        assert(trim_end_chars(cur) == cur);
    }
    let mut start: usize = 0;
    while start < end && ws_char_at(s, start)
        invariant
            0 <= start <= end <= sl,
            sl == s@.len(),
            trim_end_chars(s@.subrange(0, end as int)) == s@.subrange(0, end as int),
            trim_chars(s@) == trim_start_chars(s@.subrange(start as int, end as int)),
        decreases end - start,
    {
        proof {
            let cur = s@.subrange(start as int, end as int);
            assert(cur[0] == s@[start as int]);
            assert(cur.skip(1) =~= s@.subrange(start + 1, end as int));
        }
        start = start + 1;
    }
    proof {
        let cur = s@.subrange(start as int, end as int);
        if start < end {
            assert(cur[0] == s@[start as int]);
        }
        assert(trim_start_chars(cur) == cur);
    }
    (start, end)
}

/// `s` with surrounding whitespace removed, as a fresh string.
pub fn trim_str(s: &str) -> (r: String)
    ensures
        r@ == trim_chars(s@),
{
    let (a, b) = trim_bounds(s);
    let t = s.substring_char(a, b);
    proof {
        assert(t@ =~= s@.subrange(a as int, b as int));
    }
    t.to_owned()
}

} // verus!
