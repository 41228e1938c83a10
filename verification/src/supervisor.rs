use vstd::prelude::*;
use crate::WorkerError;

verus! {

/// The four worker kinds the application manages. Each kind has at most
/// one live child process at any time.
#[derive(Clone, Copy, Debug, PartialEq, Eq, Structural)]
pub enum WorkerKind {
    ScriptRunner,
    InferenceServer,
    HttpServer,
    LanguageServer,
}

/// Kind-specific metadata recorded beside the live process.
pub enum WorkerMeta {
    Script,
    Inference { model_path: String, model_info: Option<String> },
    Http {
        version_id: String,
        model_name: String,
        host: String,
        port: u16,
        runtime: String,
        model_info: Option<String>,
    },
    Lsp { initialized: bool, pyright_version: Option<String> },
}

/// A live worker: the child's process identifier, when it started, and
/// what it is serving. The process handle itself, its stdin pipe and its
/// reader threads live outside the supervisor's model; they are keyed by
/// the same kind.
pub struct WorkerHandle {
    pub pid: u32,
    pub started_at_ms: u64,
    pub meta: WorkerMeta,
}

/// One handle slot per worker kind, owned by the application context.
///
/// The slot discipline realises the at-most-one invariant: installing
/// into an occupied slot is refused and leaves the incumbent untouched,
/// so a worker can only be replaced after an explicit remove.
pub struct Supervisor {
    script: Option<WorkerHandle>,
    inference: Option<WorkerHandle>,
    http: Option<WorkerHandle>,
    lsp: Option<WorkerHandle>,
}

impl Supervisor {
    /// The slot for `kind`.
    pub closed spec fn spec_slot(&self, kind: WorkerKind) -> Option<WorkerHandle> {
        match kind {
            WorkerKind::ScriptRunner => self.script,
            WorkerKind::InferenceServer => self.inference,
            WorkerKind::HttpServer => self.http,
            WorkerKind::LanguageServer => self.lsp,
        }
    }

    pub fn new() -> (s: Self)
        ensures
            forall|k: WorkerKind| s.spec_slot(k) is None,
    {
        Supervisor { script: None, inference: None, http: None, lsp: None }
    }

    /// Record a freshly started worker, unless one of this kind is
    /// already live. A refused install changes nothing: the caller must
    /// stop the incumbent first.
    pub fn install(&mut self, kind: WorkerKind, h: WorkerHandle) -> (r: Result<(), WorkerError>)
        ensures
            old(self).spec_slot(kind) is Some ==> {
                &&& r matches Err(e) && e == WorkerError::AlreadyRunning
                &&& *final(self) == *old(self)
            },
            old(self).spec_slot(kind) is None ==> {
                &&& r matches Ok(u) && u == ()
                &&& final(self).spec_slot(kind) == Some(h)
            },
            forall|k: WorkerKind|
                k != kind ==> final(self).spec_slot(k) == old(self).spec_slot(k),
    {
        match kind {
            WorkerKind::ScriptRunner => {
                if self.script.is_some() {
                    return Err(WorkerError::AlreadyRunning);
                }
                self.script = Some(h);
            }
            WorkerKind::InferenceServer => {
                if self.inference.is_some() {
                    return Err(WorkerError::AlreadyRunning);
                }
                self.inference = Some(h);
            }
            WorkerKind::HttpServer => {
                if self.http.is_some() {
                    return Err(WorkerError::AlreadyRunning);
                }
                self.http = Some(h);
            }
            WorkerKind::LanguageServer => {
                if self.lsp.is_some() {
                    return Err(WorkerError::AlreadyRunning);
                }
                self.lsp = Some(h);
            }
        }
        Ok(())
    }

    /// Take the live worker of `kind` out of its slot for stopping, or
    /// report that none is running.
    pub fn remove(&mut self, kind: WorkerKind) -> (r: Result<WorkerHandle, WorkerError>)
        ensures
            old(self).spec_slot(kind) matches Some(h) ==> {
                &&& r matches Ok(got) && got == h
                &&& final(self).spec_slot(kind) is None
            },
            old(self).spec_slot(kind) is None ==> {
                &&& r matches Err(e) && e == WorkerError::NotRunning
                &&& *final(self) == *old(self)
            },
            forall|k: WorkerKind|
                k != kind ==> final(self).spec_slot(k) == old(self).spec_slot(k),
    {
        let slot = match kind {
            WorkerKind::ScriptRunner => &mut self.script,
            WorkerKind::InferenceServer => &mut self.inference,
            WorkerKind::HttpServer => &mut self.http,
            WorkerKind::LanguageServer => &mut self.lsp,
        };
        let mut taken: Option<WorkerHandle> = None;
        core::mem::swap(slot, &mut taken);
        match taken {
            Some(h) => Ok(h),
            None => Err(WorkerError::NotRunning),
        }
    }

    /// Non-blocking introspection: whether a worker of `kind` is live.
    /// This never touches the child process itself.
    pub fn is_running(&self, kind: WorkerKind) -> (r: bool)
        ensures
            r == (self.spec_slot(kind) is Some),
    {
        match kind {
            WorkerKind::ScriptRunner => self.script.is_some(),
            WorkerKind::InferenceServer => self.inference.is_some(),
            WorkerKind::HttpServer => self.http.is_some(),
            WorkerKind::LanguageServer => self.lsp.is_some(),
        }
    }

    /// Borrow the live worker of `kind`, if any.
    pub fn get(&self, kind: WorkerKind) -> (r: Option<&WorkerHandle>)
        ensures
            match r {
                Some(h) => self.spec_slot(kind) == Some(*h),
                None => self.spec_slot(kind) is None,
            },
    {
        match kind {
            WorkerKind::ScriptRunner => self.script.as_ref(),
            WorkerKind::InferenceServer => self.inference.as_ref(),
            WorkerKind::HttpServer => self.http.as_ref(),
            WorkerKind::LanguageServer => self.lsp.as_ref(),
        }
    }
}

/// The effect of one start attempt on the supervisor state: the next
/// state, and whether the attempt was accepted.
pub open spec fn install_effect(
    s: Supervisor,
    kind: WorkerKind,
    h: WorkerHandle,
) -> (Supervisor, bool) {
    if s.spec_slot(kind) is Some {
        (s, false)
    } else {
        (with_slot(s, kind, h), true)
    }
}

/// The supervisor state with the slot for `kind` set to `h` and every
/// other slot untouched.
pub closed spec fn with_slot(s: Supervisor, kind: WorkerKind, h: WorkerHandle) -> Supervisor {
    match kind {
        WorkerKind::ScriptRunner => Supervisor { script: Some(h), ..s },
        WorkerKind::InferenceServer => Supervisor { inference: Some(h), ..s },
        WorkerKind::HttpServer => Supervisor { http: Some(h), ..s },
        WorkerKind::LanguageServer => Supervisor { lsp: Some(h), ..s },
    }
}

/// What `with_slot` does to each slot.
pub broadcast proof fn lemma_with_slot(s: Supervisor, kind: WorkerKind, h: WorkerHandle)
    ensures
        (#[trigger] with_slot(s, kind, h)).spec_slot(kind) == Some(h),
        forall|k: WorkerKind|
            k != kind ==> with_slot(s, kind, h).spec_slot(k) == s.spec_slot(k),
{
}

/// The state after folding a whole sequence of start attempts for one
/// kind over `s`.
pub open spec fn after_installs(
    s: Supervisor,
    kind: WorkerKind,
    hs: Seq<WorkerHandle>,
) -> Supervisor
    decreases hs.len(),
{
    if hs.len() == 0 {
        s
    } else {
        after_installs(install_effect(s, kind, hs[0]).0, kind, hs.skip(1))
    }
}

/// Whether the `i`-th start attempt of the sequence is accepted.
pub open spec fn accepted_at(
    s: Supervisor,
    kind: WorkerKind,
    hs: Seq<WorkerHandle>,
    i: int,
) -> bool {
    install_effect(after_installs(s, kind, hs.take(i)), kind, hs[i]).1
}

/// At most one worker per kind: out of any sequence of start attempts
/// for one kind, made without an intervening stop and beginning from an
/// empty slot, only the first is accepted; every later attempt is
/// refused, and the slot holds the first handle, untouched, throughout.
pub proof fn lemma_at_most_one_worker(
    s: Supervisor,
    kind: WorkerKind,
    hs: Seq<WorkerHandle>,
)
    requires
        s.spec_slot(kind) is None,
        hs.len() >= 1,
    ensures
        accepted_at(s, kind, hs, 0),
        forall|i: int| 1 <= i < hs.len() ==> !accepted_at(s, kind, hs, i),
        after_installs(s, kind, hs).spec_slot(kind) == Some(hs[0]),
    decreases hs.len(),
{
    assert(hs.take(0) =~= Seq::<WorkerHandle>::empty());
    lemma_with_slot(s, kind, hs[0]);
    let s1 = install_effect(s, kind, hs[0]).0;
    assert(s1.spec_slot(kind) == Some(hs[0]));
    lemma_occupied_stays(s1, kind, hs.skip(1), hs[0]);
    assert(after_installs(s, kind, hs) == after_installs(s1, kind, hs.skip(1)));
    assert forall|i: int| 1 <= i < hs.len() implies !accepted_at(s, kind, hs, i) by {
        assert(hs.take(i) =~= seq![hs[0]] + hs.skip(1).take(i - 1));
        lemma_after_installs_cons(s, kind, hs.take(i));
        assert(hs.take(i)[0] == hs[0]);
        assert(hs.take(i).skip(1) =~= hs.skip(1).take(i - 1));
        lemma_occupied_stays(s1, kind, hs.skip(1).take(i - 1), hs[0]);
        assert(after_installs(s, kind, hs.take(i)).spec_slot(kind) == Some(hs[0]));
        assert(hs[i] == hs.skip(1)[i - 1]);
    }
}

/// Folding attempts over an occupied slot rejects each one and leaves
/// the incumbent in place.
proof fn lemma_occupied_stays(
    s: Supervisor,
    kind: WorkerKind,
    hs: Seq<WorkerHandle>,
    h0: WorkerHandle,
)
    requires
        s.spec_slot(kind) == Some(h0),
    ensures
        after_installs(s, kind, hs) == s,
    decreases hs.len(),
{
    if hs.len() > 0 {
        assert(install_effect(s, kind, hs[0]).0 == s);
        lemma_occupied_stays(s, kind, hs.skip(1), h0);
    }
}

/// Unrolling the fold at the front.
proof fn lemma_after_installs_cons(s: Supervisor, kind: WorkerKind, hs: Seq<WorkerHandle>)
    requires
        hs.len() >= 1,
    ensures
        after_installs(s, kind, hs) == after_installs(
            install_effect(s, kind, hs[0]).0,
            kind,
            hs.skip(1),
        ),
{
}


} // verus!
