use vstd::prelude::*;
use crate::jsontext::str_eq;

verus! {

/// One outstanding request keyed by a caller-supplied string token,
/// with the caller's one-shot reply channel as an opaque waiter.
pub struct TokenEntry<T> {
    pub token: String,
    pub waiter: T,
}

/// The pending-request table of the worker variants whose protocol
/// echoes a caller-supplied request identifier rather than a numeric
/// one. Each token maps to at most one waiter; registering a token
/// again replaces the stale waiter, and removal is idempotent.
pub struct TokenTable<T> {
    entries: Vec<TokenEntry<T>>,
}

/// All tokens in `s` are pairwise distinct.
pub open spec fn distinct_tokens<T>(s: Seq<TokenEntry<T>>) -> bool {
    forall|i: int, j: int|
        0 <= i < j < s.len() ==> #[trigger] s[i].token@ != #[trigger] s[j].token@
}

/// The index of the first entry of `s` carrying `token`, or -1.
pub open spec fn find_token<T>(s: Seq<TokenEntry<T>>, token: Seq<char>) -> int
    decreases s.len(),
{
    if s.len() == 0 {
        -1
    } else if s[0].token@ == token {
        0
    } else {
        let r = find_token(s.skip(1), token);
        if r < 0 {
            -1
        } else {
            r + 1
        }
    }
}

/// `find_token` finds the first carrier of the token, if any.
pub proof fn lemma_find_token<T>(s: Seq<TokenEntry<T>>, token: Seq<char>)
    ensures
        find_token(s, token) == -1 ==> forall|i: int| 0 <= i < s.len() ==> s[i].token@ != token,
        find_token(s, token) != -1 ==> {
            let r = find_token(s, token);
            &&& 0 <= r < s.len()
            &&& s[r].token@ == token
            &&& forall|i: int| 0 <= i < r ==> s[i].token@ != token
        },
    decreases s.len(),
{
    if s.len() > 0 && s[0].token@ != token {
        lemma_find_token(s.skip(1), token);
        let r1 = find_token(s.skip(1), token);
        if r1 == -1 {
            assert forall|i: int| 0 <= i < s.len() implies s[i].token@ != token by {
                if i > 0 {
                    assert(s.skip(1)[i - 1] == s[i]);
                }
            }
        } else {
            assert(s[r1 + 1] == s.skip(1)[r1]);
            assert forall|i: int| 0 <= i < r1 + 1 implies s[i].token@ != token by {
                if i > 0 {
                    assert(s.skip(1)[i - 1] == s[i]);
                }
            }
        }
    }
}

impl<T> TokenTable<T> {
    /// The pending entries, in registration order.
    pub closed spec fn view(&self) -> Seq<TokenEntry<T>> {
        self.entries@
    }

    /// Tokens are pairwise distinct.
    pub open spec fn wf(&self) -> bool {
        distinct_tokens(self@)
    }

    /// Whether a waiter is registered under `token`.
    pub open spec fn has_token(&self, token: Seq<char>) -> bool {
        find_token(self@, token) != -1
    }

    pub fn new() -> (t: Self)
        ensures
            t@ == Seq::<TokenEntry<T>>::empty(),
            t.wf(),
    {
        TokenTable { entries: Vec::new() }
    }

    pub fn len(&self) -> (n: usize)
        ensures
            n == self@.len(),
    {
        self.entries.len()
    }

    /// Register a waiter under `token` before the frame is written, so a
    /// reply can never arrive before its waiter exists. A token already
    /// in flight has its waiter replaced — the stale waiter is returned
    /// so the caller can resolve it as superseded.
    pub fn register(&mut self, token: &str, waiter: T) -> (prev: Option<T>)
        requires
            old(self).wf(),
        ensures
            old(self).has_token(token@) ==> {
                let i = find_token(old(self)@, token@);
                &&& prev matches Some(p) && p == old(self)@[i].waiter
                &&& final(self)@.len() == old(self)@.len()
                &&& final(self)@[i].token@ == token@
                &&& final(self)@[i].waiter == waiter
                &&& forall|j: int|
                    0 <= j < old(self)@.len() && j != i ==> final(self)@[j] == old(self)@[j]
            },
            !old(self).has_token(token@) ==> {
                &&& prev matches None
                &&& final(self)@.len() == old(self)@.len() + 1
                &&& final(self)@[old(self)@.len() as int].token@ == token@
                &&& final(self)@[old(self)@.len() as int].waiter == waiter
                &&& forall|j: int| 0 <= j < old(self)@.len() ==> final(self)@[j] == old(self)@[j]
            },
            final(self).has_token(token@),
            final(self).wf(),
    {
        let ghost orig = self.entries@;
        let mut i: usize = 0;
        while i < self.entries.len()
            invariant
                orig == old(self)@,
                self.entries@ == orig,
                0 <= i <= orig.len(),
                forall|j: int| 0 <= j < i ==> orig[j].token@ != token@,
                distinct_tokens(orig),
            decreases orig.len() - i,
        {
            if str_eq(self.entries[i].token.as_str(), token) {
                let old_entry = self.entries.remove(i);
                self.entries.insert(i, TokenEntry { token: token.to_owned(), waiter });
                proof {
                    lemma_find_token(orig, token@);
                    let fo = find_token(orig, token@);
                    if fo < i as int {
                        assert(orig[fo].token@ != token@);
                    }
                    if fo > i as int {
                        assert(orig[i as int].token@ != token@);
                    }
                    assert(fo == i as int);
                    assert forall|j: int|
                        0 <= j < orig.len() && j != i as int implies self.entries@[j] == orig[j] by {
                        if j < i as int {
                            assert(orig.remove(i as int)[j] == orig[j]);
                        } else {
                            assert(orig.remove(i as int)[j - 1] == orig[j]);
                        }
                    }
                    assert(self.entries@[i as int].token@ == token@);
                    assert forall|a: int, b: int|
                        0 <= a < b < self.entries@.len() implies #[trigger] self.entries@[a].token@
                        != #[trigger] self.entries@[b].token@ by {
                        if a != i as int && b != i as int {
                            assert(self.entries@[a] == orig[a] && self.entries@[b] == orig[b]);
                        } else if a == i as int {
                            assert(self.entries@[b] == orig[b]);
                            assert(orig[i as int].token@ != orig[b].token@);
                        } else {
                            assert(self.entries@[a] == orig[a]);
                            assert(orig[a].token@ != orig[i as int].token@);
                        }
                    }
                    lemma_find_token(self.entries@, token@);
                    if find_token(self.entries@, token@) == -1 {
                        assert(self.entries@[i as int].token@ != token@);
                    }
                }
                return Some(old_entry.waiter);
            }
            i = i + 1;
        }
        self.entries.push(TokenEntry { token: token.to_owned(), waiter });
        proof {
            lemma_find_token(orig, token@);
            let n = self.entries@.len();
            assert forall|a: int, b: int|
                0 <= a < b < n implies #[trigger] self.entries@[a].token@
                != #[trigger] self.entries@[b].token@ by {
                if b < n - 1 {
                    assert(self.entries@[a] == orig[a] && self.entries@[b] == orig[b]);
                } else {
                    assert(self.entries@[b].token@ == token@);
                    assert(self.entries@[a] == orig[a]);
                    assert(orig[a].token@ != token@);
                }
            }
            lemma_find_token(self.entries@, token@);
            if find_token(self.entries@, token@) == -1 {
                assert(self.entries@[n - 1].token@ != token@);
            }
        }
        None
    }

    /// Remove and return the waiter registered under `token`, if any:
    /// the reply carrying this token reaches exactly this waiter, and a
    /// second take — the timeout racing a late reply — finds nothing.
    pub fn take(&mut self, token: &str) -> (r: Option<T>)
        requires
            old(self).wf(),
        ensures
            old(self).has_token(token@) ==> {
                let i = find_token(old(self)@, token@);
                &&& r matches Some(w)
                &&& w == old(self)@[i].waiter
                &&& final(self)@ == old(self)@.remove(i)
            },
            !old(self).has_token(token@) ==> (r matches None) && final(self)@ == old(self)@,
            final(self).wf(),
            !final(self).has_token(token@),
    {
        let ghost orig = self.entries@;
        let mut i: usize = 0;
        while i < self.entries.len()
            invariant
                orig == old(self)@,
                self.entries@ == orig,
                0 <= i <= orig.len(),
                forall|j: int| 0 <= j < i ==> orig[j].token@ != token@,
                distinct_tokens(orig),
            decreases orig.len() - i,
        {
            if str_eq(self.entries[i].token.as_str(), token) {
                let e = self.entries.remove(i);
                proof {
                    lemma_find_token(orig, token@);
                    let fo = find_token(orig, token@);
                    if fo < i as int {
                        assert(orig[fo].token@ != token@);
                    }
                    if fo > i as int {
                        assert(orig[i as int].token@ != token@);
                    }
                    assert(fo == i as int);
                    assert forall|a: int, b: int|
                        0 <= a < b < self.entries@.len() implies #[trigger] self.entries@[a].token@
                        != #[trigger] self.entries@[b].token@ by {
                        let a0 = if a < i as int {
                            a
                        } else {
                            a + 1
                        };
                        let b0 = if b < i as int {
                            b
                        } else {
                            b + 1
                        };
                        assert(self.entries@[a] == orig[a0]);
                        assert(self.entries@[b] == orig[b0]);
                    }
                    lemma_find_token(self.entries@, token@);
                    let fi = find_token(self.entries@, token@);
                    if fi != -1 {
                        assert(self.entries@[fi].token@ == token@);
                        if fi < i as int {
                            assert(self.entries@[fi] == orig[fi]);
                        } else {
                            assert(self.entries@[fi] == orig[fi + 1]);
                            assert(orig[i as int].token@ != orig[fi + 1].token@);
                        }
                    }
                }
                return Some(e.waiter);
            }
            i = i + 1;
        }
        proof {
            lemma_find_token(orig, token@);
        }
        None
    }

    /// Remove and return every pending entry: the disconnect path, so no
    /// caller hangs on a dead worker.
    pub fn reject_pending_requests(&mut self) -> (r: Vec<TokenEntry<T>>)
        requires
            old(self).wf(),
        ensures
            r@ == old(self)@,
            final(self)@ == Seq::<TokenEntry<T>>::empty(),
            final(self).wf(),
    {
        let mut r: Vec<TokenEntry<T>> = Vec::new();
        core::mem::swap(&mut r, &mut self.entries);
        r
    }
}

} // verus!
