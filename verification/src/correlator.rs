use vstd::prelude::*;

verus! {

/// One outstanding request: its identifier, the instant (in milliseconds)
/// at which it times out, and the caller's one-shot reply channel, carried
/// here as an opaque waiter value.
pub struct PendingEntry<T> {
    pub id: u64,
    pub deadline_ms: u64,
    pub waiter: T,
}

/// The request/response correlator's pending-request table.
///
/// Identifiers are allocated from a monotonically increasing counter and
/// never reused. Each entry is removed exactly once: by a matching reply,
/// by the timeout sweep, or by the bulk rejection that runs when the
/// worker disconnects.
pub struct PendingTable<T> {
    entries: Vec<PendingEntry<T>>,
    next_id: u64,
}

/// All identifiers in `s` are pairwise distinct.
pub open spec fn distinct_ids<T>(s: Seq<PendingEntry<T>>) -> bool {
    forall|i: int, j: int|
        0 <= i < j < s.len() ==> #[trigger] s[i].id != #[trigger] s[j].id
}

/// All identifiers in `s` sit below `b`.
pub open spec fn bounded_ids<T>(s: Seq<PendingEntry<T>>, b: u64) -> bool {
    forall|i: int| 0 <= i < s.len() ==> #[trigger] s[i].id < b
}

/// Two different positions of a distinct-id sequence carry different ids.
pub proof fn lemma_distinct_at<T>(s: Seq<PendingEntry<T>>, i: int, j: int)
    requires
        distinct_ids(s),
        0 <= i < s.len(),
        0 <= j < s.len(),
        i != j,
    ensures
        s[i].id != s[j].id,
{
    if i < j {
        assert(s[i].id != s[j].id);
    } else {
        assert(s[j].id != s[i].id);
    }
}

/// The predicate selecting entries still within their deadline at `now_ms`.
pub open spec fn still_waiting<T>(now_ms: u64) -> spec_fn(PendingEntry<T>) -> bool {
    |e: PendingEntry<T>| e.deadline_ms > now_ms
}

/// The predicate selecting entries whose deadline has passed at `now_ms`.
pub open spec fn timed_out<T>(now_ms: u64) -> spec_fn(PendingEntry<T>) -> bool {
    |e: PendingEntry<T>| e.deadline_ms <= now_ms
}

/// The index of the first entry of `s` carrying `id`, or -1 if none does.
pub open spec fn find_id<T>(s: Seq<PendingEntry<T>>, id: u64) -> int
    decreases s.len(),
{
    if s.len() == 0 {
        -1
    } else if s[0].id == id {
        0
    } else {
        let r = find_id(s.skip(1), id);
        if r < 0 {
            -1
        } else {
            r + 1
        }
    }
}

/// `find_id` returns -1 exactly when no entry carries `id`, and otherwise
/// the first index that does.
pub proof fn lemma_find_id<T>(s: Seq<PendingEntry<T>>, id: u64)
    ensures
        find_id(s, id) == -1 ==> forall|i: int| 0 <= i < s.len() ==> s[i].id != id,
        find_id(s, id) != -1 ==> {
            let r = find_id(s, id);
            &&& 0 <= r < s.len()
            &&& s[r].id == id
            &&& forall|i: int| 0 <= i < r ==> s[i].id != id
        },
    decreases s.len(),
{
    if s.len() > 0 && s[0].id != id {
        lemma_find_id(s.skip(1), id);
        let r1 = find_id(s.skip(1), id);
        if r1 == -1 {
            assert forall|i: int| 0 <= i < s.len() implies s[i].id != id by {
                if i > 0 {
                    assert(s.skip(1)[i - 1] == s[i]);
                }
            }
        } else {
            assert(s[r1 + 1] == s.skip(1)[r1]);
            assert forall|i: int| 0 <= i < r1 + 1 implies s[i].id != id by {
                if i > 0 {
                    assert(s.skip(1)[i - 1] == s[i]);
                }
            }
        }
    }
}

/// Appending one element extends a filtered sequence by that element
/// exactly when the predicate accepts it.
proof fn lemma_filter_push<T>(
    s: Seq<PendingEntry<T>>,
    x: PendingEntry<T>,
    pred: spec_fn(PendingEntry<T>) -> bool,
)
    ensures
        s.push(x).filter(pred) == if pred(x) {
            s.filter(pred).push(x)
        } else {
            s.filter(pred)
        },
{
    reveal_with_fuel(Seq::filter, 1);
    assert(s.push(x).drop_last() =~= s);
    assert(s.push(x).last() == x);
}

impl<T> PendingTable<T> {
    /// The table's mathematical content: the sequence of pending entries,
    /// in registration order.
    pub closed spec fn view(&self) -> Seq<PendingEntry<T>> {
        self.entries@
    }

    /// The next identifier the table will hand out.
    pub closed spec fn spec_next_id(&self) -> u64 {
        self.next_id
    }

    /// Well-formedness: identifiers are pairwise distinct, and all sit
    /// below the allocation counter, so a fresh identifier never collides.
    pub open spec fn wf(&self) -> bool {
        distinct_ids(self@) && bounded_ids(self@, self.spec_next_id())
    }

    /// Whether some entry carries `id`.
    pub open spec fn has_id(&self, id: u64) -> bool {
        find_id(self@, id) != -1
    }

    pub fn new() -> (t: Self)
        ensures
            t@ == Seq::<PendingEntry<T>>::empty(),
            t.spec_next_id() == 1,
            t.wf(),
    {
        PendingTable { entries: Vec::new(), next_id: 1 }
    }

    pub fn len(&self) -> (n: usize)
        ensures
            n == self@.len(),
    {
        self.entries.len()
    }

    /// The identifier the next registration would receive.
    pub fn next_id_value(&self) -> (n: u64)
        ensures
            n == self.spec_next_id(),
    {
        self.next_id
    }

    /// Allocate a fresh identifier and register a waiter under it.
    ///
    /// The identifier is the current counter value; the counter then
    /// advances, so identifiers are strictly monotonic and never reused.
    pub fn register(&mut self, deadline_ms: u64, waiter: T) -> (id: u64)
        requires
            old(self).wf(),
            old(self).spec_next_id() < u64::MAX,
        ensures
            id == old(self).spec_next_id(),
            final(self).spec_next_id() == id + 1,
            final(self)@ == old(self)@.push(PendingEntry { id, deadline_ms, waiter }),
            !old(self).has_id(id),
            final(self).wf(),
    {
        let id = self.next_id;
        self.next_id = self.next_id + 1;
        self.entries.push(PendingEntry { id, deadline_ms, waiter });
        proof {
            lemma_find_id(old(self)@, id);
            if find_id(old(self)@, id) != -1 {
                assert(old(self)@[find_id(old(self)@, id)].id < id);
            }
        }
        id
    }

    /// Remove and return the waiter registered under `id`, if any.
    ///
    /// This is the single dispatch point: a decoded reply carrying `id`
    /// reaches exactly the waiter that registered `id`, and removal is
    /// idempotent — a second take of the same identifier (a timeout racing
    /// a late reply) finds nothing and changes nothing.
    pub fn take(&mut self, id: u64) -> (r: Option<PendingEntry<T>>)
        requires
            old(self).wf(),
        ensures
            old(self).has_id(id) ==> {
                let i = find_id(old(self)@, id);
                &&& r matches Some(e)
                &&& e == old(self)@[i]
                &&& e.id == id
                &&& final(self)@ == old(self)@.remove(i)
            },
            !old(self).has_id(id) ==> (r matches None) && final(self)@ == old(self)@,
            final(self).spec_next_id() == old(self).spec_next_id(),
            final(self).wf(),
            !final(self).has_id(id),
    {
        let ghost orig = self.entries@;
        let ghost n0 = self.next_id;
        let mut i: usize = 0;
        while i < self.entries.len()
            invariant
                orig == old(self)@,
                n0 == old(self).spec_next_id(),
                self.entries@ == orig,
                self.next_id == n0,
                0 <= i <= orig.len(),
                forall|j: int| 0 <= j < i ==> orig[j].id != id,
                distinct_ids(orig),
                bounded_ids(orig, n0),
            decreases orig.len() - i,
        {
            if self.entries[i].id == id {
                let e = self.entries.remove(i);
                proof {
                    lemma_find_id(orig, id);
                    let fo = find_id(orig, id);
                    assert(orig[i as int].id == id);
                    assert(fo != -1);
                    if fo < i as int {
                        assert(orig[fo].id != id);
                    }
                    if fo > i as int {
                        lemma_distinct_at(orig, i as int, fo);
                    }
                    assert(fo == i as int);
                    lemma_find_id(self.entries@, id);
                    let fi = find_id(self.entries@, id);
                    if fi != -1 {
                        assert(self.entries@[fi].id == id);
                        if fi < i as int {
                            assert(self.entries@[fi] == orig[fi]);
                        } else {
                            assert(self.entries@[fi] == orig[fi + 1]);
                            lemma_distinct_at(orig, i as int, fi + 1);
                        }
                    }
                    assert forall|a: int, b: int|
                        0 <= a < b < self.entries@.len() implies #[trigger] self.entries@[a].id
                        != #[trigger] self.entries@[b].id by {
                        let a0 = if a < i as int {
                            a
                        } else {
                            a + 1
                        };
                        let b0 = if b < i as int {
                            b
                        } else {
                            b + 1
                        };
                        assert(self.entries@[a] == orig[a0]);
                        assert(self.entries@[b] == orig[b0]);
                        lemma_distinct_at(orig, a0, b0);
                    }
                    assert forall|a: int|
                        0 <= a < self.entries@.len() implies #[trigger] self.entries@[a].id
                        < n0 by {
                        let a0 = if a < i as int {
                            a
                        } else {
                            a + 1
                        };
                        assert(self.entries@[a] == orig[a0]);
                    }
                }
                return Some(e);
            }
            i = i + 1;
        }
        proof {
            lemma_find_id(orig, id);
        }
        None
    }

    /// Remove and return every entry whose deadline has passed.
    ///
    /// An entry with `deadline_ms <= now_ms` has timed out; it leaves the
    /// table and is handed back so the caller can resolve its waiter with
    /// a timeout error. Entries still within their deadline stay, in
    /// order. After a sweep, no expired entry remains: the table returns
    /// to its baseline once every outstanding request has timed out.
    pub fn take_expired(&mut self, now_ms: u64) -> (r: Vec<PendingEntry<T>>)
        requires
            old(self).wf(),
        ensures
            final(self)@ == old(self)@.filter(still_waiting(now_ms)),
            r@ == old(self)@.filter(timed_out(now_ms)),
            final(self).spec_next_id() == old(self).spec_next_id(),
            final(self).wf(),
    {
        let ghost orig = self.entries@;
        let ghost keep = still_waiting::<T>(now_ms);
        let ghost gone = timed_out::<T>(now_ms);
        let ghost processed = Seq::<PendingEntry<T>>::empty();
        let ghost n0 = self.next_id;
        let mut kept: Vec<PendingEntry<T>> = Vec::new();
        let mut expired: Vec<PendingEntry<T>> = Vec::new();
        proof {
            reveal_with_fuel(Seq::filter, 1);
            assert(processed.filter(keep) =~= Seq::<PendingEntry<T>>::empty());
            assert(processed.filter(gone) =~= Seq::<PendingEntry<T>>::empty());
        }
        while self.entries.len() > 0
            invariant
                orig == processed + self.entries@,
                kept@ == processed.filter(keep),
                expired@ == processed.filter(gone),
                keep == still_waiting::<T>(now_ms),
                gone == timed_out::<T>(now_ms),
                self.next_id == n0,
            decreases self.entries.len(),
        {
            let ghost processed0 = processed;
            let e = self.entries.remove(0);
            proof {
                processed = processed0.push(e);
                assert(orig =~= processed + self.entries@);
                lemma_filter_push(processed0, e, keep);
                lemma_filter_push(processed0, e, gone);
            }
            if e.deadline_ms > now_ms {
                kept.push(e);
            } else {
                expired.push(e);
            }
        }
        proof {
            assert(processed =~= orig);
        }
        core::mem::swap(&mut self.entries, &mut kept);
        proof {
            lemma_filter_keeps_wf(orig, keep, self.next_id);
        }
        expired
    }

    /// Remove and return every pending entry, leaving the table empty.
    ///
    /// This is the disconnect path: when the reader thread observes EOF on
    /// the worker's stdout, every outstanding waiter is handed back so the
    /// caller can resolve each with a disconnect error. None is left
    /// behind, so no caller can hang on a dead worker.
    pub fn reject_pending_requests(&mut self) -> (r: Vec<PendingEntry<T>>)
        requires
            old(self).wf(),
        ensures
            r@ == old(self)@,
            final(self)@ == Seq::<PendingEntry<T>>::empty(),
            final(self).spec_next_id() == old(self).spec_next_id(),
            final(self).wf(),
    {
        let mut r: Vec<PendingEntry<T>> = Vec::new();
        core::mem::swap(&mut r, &mut self.entries);
        r
    }
}

/// A filtered pending sequence keeps distinct identifiers below the
/// counter, so the timeout sweep preserves well-formedness.
proof fn lemma_filter_keeps_wf<T>(
    s: Seq<PendingEntry<T>>,
    pred: spec_fn(PendingEntry<T>) -> bool,
    bound: u64,
)
    requires
        distinct_ids(s),
        bounded_ids(s, bound),
    ensures
        distinct_ids(s.filter(pred)),
        bounded_ids(s.filter(pred), bound),
    decreases s.len(),
{
    reveal_with_fuel(Seq::filter, 1);
    if s.len() > 0 {
        let sub = s.drop_last();
        assert(forall|i: int| 0 <= i < sub.len() ==> sub[i] == s[i]);
        lemma_filter_keeps_wf(sub, pred, bound);
        let f = s.filter(pred);
        let fsub = sub.filter(pred);
        if pred(s.last()) {
            assert(f == fsub.push(s.last()));
            assert forall|i: int, j: int|
                0 <= i < j < f.len() implies #[trigger] f[i].id != #[trigger] f[j].id by {
                if j < fsub.len() {
                    assert(f[i] == fsub[i] && f[j] == fsub[j]);
                    lemma_distinct_at(fsub, i, j);
                } else {
                    assert(f[j] == s.last());
                    assert(f[i] == fsub[i]);
                    lemma_filter_elem_from(sub, pred, i);
                    let k = choose|k: int| 0 <= k < sub.len() && sub[k] == fsub[i];
                    lemma_distinct_at(s, k, s.len() - 1);
                }
            }
            assert forall|i: int| 0 <= i < f.len() implies #[trigger] f[i].id < bound by {
                if i < fsub.len() {
                    assert(f[i] == fsub[i]);
                } else {
                    assert(f[i] == s.last());
                    assert(s[s.len() - 1].id < bound);
                }
            }
        } else {
            assert(f == fsub);
        }
    }
}

/// Every element of a filtered sequence comes from the original one.
proof fn lemma_filter_elem_from<T>(
    s: Seq<PendingEntry<T>>,
    pred: spec_fn(PendingEntry<T>) -> bool,
    i: int,
)
    requires
        0 <= i < s.filter(pred).len(),
    ensures
        exists|k: int| 0 <= k < s.len() && s[k] == s.filter(pred)[i],
    decreases s.len(),
{
    reveal_with_fuel(Seq::filter, 1);
    if s.len() > 0 {
        let sub = s.drop_last();
        let fsub = sub.filter(pred);
        if i < fsub.len() {
            lemma_filter_elem_from(sub, pred, i);
            let k = choose|k: int| 0 <= k < sub.len() && sub[k] == fsub[i];
            assert(s[k] == s.filter(pred)[i]);
        } else {
            assert(s.filter(pred)[i] == s.last());
            assert(s[s.len() - 1] == s.filter(pred)[i]);
        }
    }
}

/// Request/reply correlation: a reply carrying the identifier of the
/// entry at position `i` is dispatched to exactly that entry's waiter —
/// never to any other caller's — whatever order replies arrive in.
pub proof fn lemma_reply_reaches_own_waiter<T>(t: PendingTable<T>, i: int, j: int)
    requires
        t.wf(),
        0 <= i < t@.len(),
        0 <= j < t@.len(),
        i != j,
    ensures
        find_id(t@, t@[i].id) == i,
        t@[find_id(t@, t@[i].id)].waiter == t@[i].waiter,
        t@[i].id != t@[j].id,
{
    lemma_find_id(t@, t@[i].id);
    let r = find_id(t@, t@[i].id);
    if r != i {
        assert(t@[r].id == t@[i].id);
        lemma_distinct_at(t@, r, i);
    }
    lemma_distinct_at(t@, i, j);
}


/// Timeouts leak nothing: once every outstanding request has passed its
/// deadline, one sweep returns them all and leaves the table at its
/// empty baseline.
pub proof fn lemma_timeout_returns_to_baseline<T>(t: PendingTable<T>, now_ms: u64)
    requires
        forall|i: int| 0 <= i < t@.len() ==> #[trigger] t@[i].deadline_ms <= now_ms,
    ensures
        t@.filter(still_waiting(now_ms)) == Seq::<PendingEntry<T>>::empty(),
        t@.filter(timed_out(now_ms)) == t@,
    decreases t@.len(),
{
    lemma_filter_total(t@, now_ms);
}

/// Filtering a fully expired sequence keeps everything on the expired
/// side.
proof fn lemma_filter_total<T>(s: Seq<PendingEntry<T>>, now_ms: u64)
    requires
        forall|i: int| 0 <= i < s.len() ==> #[trigger] s[i].deadline_ms <= now_ms,
    ensures
        s.filter(still_waiting(now_ms)) == Seq::<PendingEntry<T>>::empty(),
        s.filter(timed_out(now_ms)) == s,
    decreases s.len(),
{
    reveal_with_fuel(Seq::filter, 1);
    if s.len() > 0 {
        let sub = s.drop_last();
        assert(forall|i: int| 0 <= i < sub.len() ==> sub[i] == s[i]);
        lemma_filter_total(sub, now_ms);
        assert(s[s.len() - 1].deadline_ms <= now_ms);
        assert(s.filter(timed_out(now_ms)) =~= s);
    } else {
        assert(s.filter(still_waiting(now_ms)) =~= Seq::<PendingEntry<T>>::empty());
        assert(s.filter(timed_out(now_ms)) =~= s);
    }
}

} // verus!
