use vstd::prelude::*;

verus! {

/// The restart phase of one long-lived worker kind.
#[derive(Clone, Copy, Debug, PartialEq, Eq, Structural)]
pub enum RestartPhase {
    Stopped,
    Starting,
    Ready,
    Crashed,
    Stopping,
    GivenUp,
}

/// The bounded-retry configuration of an auto-restarting worker: how many
/// consecutive crashes are answered with a restart, and the backoff delay
/// applied before each attempt, indexed by the crash count at the time.
pub struct RestartPolicy {
    pub max_restarts: u32,
    pub backoff_ms: Vec<u64>,
}

impl RestartPolicy {
    /// The schedule provides one delay per permitted restart.
    pub open spec fn wf(&self) -> bool {
        self.backoff_ms@.len() == self.max_restarts as nat
    }

    /// The schedule used for the language server: three restarts, backed
    /// off by one, three and ten seconds.
    pub fn language_server_default() -> (p: Self)
        ensures
            p.wf(),
            p.max_restarts == 3,
            p.backoff_ms@ == seq![1000u64, 3000u64, 10000u64],
    {
        let mut backoff_ms: Vec<u64> = Vec::new();
        backoff_ms.push(1000);
        backoff_ms.push(3000);
        backoff_ms.push(10000);
        proof {
            assert(backoff_ms@ =~= seq![1000u64, 3000u64, 10000u64]);
        }
        RestartPolicy { max_restarts: 3, backoff_ms }
    }
}

/// What the supervisor does after a crash: respawn after waiting out the
/// given backoff delay, or stop trying for good.
#[derive(Clone, Copy, Debug, PartialEq, Eq, Structural)]
pub enum RestartAction {
    Restart { delay_ms: u64 },
    GiveUp,
}

/// Per-kind restart bookkeeping: the lifecycle phase and the number of
/// consecutive crashes since the worker last became ready.
#[derive(Clone, Copy, Debug, PartialEq, Eq, Structural)]
pub struct RestartState {
    pub phase: RestartPhase,
    pub crash_count: u32,
}

/// The phase after the reader thread observes end-of-file on the
/// worker's stdout. During startup or normal service this is crash
/// detection; during a requested stop it is the expected exit; in any
/// other phase the stream was already accounted for.
pub open spec fn spec_phase_after_eof(phase: RestartPhase) -> RestartPhase {
    match phase {
        RestartPhase::Starting => RestartPhase::Crashed,
        RestartPhase::Ready => RestartPhase::Crashed,
        RestartPhase::Stopping => RestartPhase::Stopped,
        _ => phase,
    }
}

/// The decision taken in the `Crashed` phase: the next state and the
/// action, under `p`. A crash count still below the maximum buys one
/// more restart, after the backoff delay indexed by that count; at the
/// maximum the machine gives up for good.
pub open spec fn spec_decide_restart(s: RestartState, p: RestartPolicy) -> (
    RestartState,
    RestartAction,
) {
    if s.crash_count < p.max_restarts {
        (
            RestartState { phase: RestartPhase::Starting, crash_count: (s.crash_count + 1) as u32 },
            RestartAction::Restart { delay_ms: p.backoff_ms@[s.crash_count as int] },
        )
    } else {
        (RestartState { phase: RestartPhase::GivenUp, crash_count: s.crash_count }, RestartAction::GiveUp)
    }
}

/// One full crash cycle: end-of-file observed while starting or serving,
/// then the restart decision.
pub open spec fn spec_crash_cycle(s: RestartState, p: RestartPolicy) -> (
    RestartState,
    RestartAction,
) {
    spec_decide_restart(
        RestartState { phase: spec_phase_after_eof(s.phase), crash_count: s.crash_count },
        p,
    )
}

/// The state after `n` consecutive crash cycles from `s`.
pub open spec fn spec_after_crashes(s: RestartState, p: RestartPolicy, n: nat) -> RestartState
    decreases n,
{
    if n == 0 {
        s
    } else {
        spec_crash_cycle(spec_after_crashes(s, p, (n - 1) as nat), p).0
    }
}

/// The action answered to the `n`-th crash (counting from zero).
pub open spec fn spec_crash_action(s: RestartState, p: RestartPolicy, n: nat) -> RestartAction {
    spec_crash_cycle(spec_after_crashes(s, p, n), p).1
}

impl RestartState {
    pub fn new() -> (s: Self)
        ensures
            s.phase == RestartPhase::Stopped,
            s.crash_count == 0,
    {
        RestartState { phase: RestartPhase::Stopped, crash_count: 0 }
    }

    /// A spawn attempt begins: only from a stopped machine, or manually
    /// after the machine gave up.
    pub fn on_spawn(&mut self)
        requires
            old(self).phase == RestartPhase::Stopped || old(self).phase == RestartPhase::GivenUp,
        ensures
            final(self).phase == RestartPhase::Starting,
            final(self).crash_count == old(self).crash_count,
    {
        self.phase = RestartPhase::Starting;
    }

    /// The readiness handshake completed: the worker is serving, and the
    /// consecutive-crash counter resets.
    pub fn on_ready(&mut self)
        requires
            old(self).phase == RestartPhase::Starting,
        ensures
            final(self).phase == RestartPhase::Ready,
            final(self).crash_count == 0,
    {
        self.phase = RestartPhase::Ready;
        self.crash_count = 0;
    }

    /// A graceful stop was requested while serving.
    pub fn on_stop_requested(&mut self)
        requires
            old(self).phase == RestartPhase::Ready,
        ensures
            final(self).phase == RestartPhase::Stopping,
            final(self).crash_count == old(self).crash_count,
    {
        self.phase = RestartPhase::Stopping;
    }

    /// The reader thread observed end-of-file on the worker's stdout.
    /// Detection is purely stream-closure-based: there is no heartbeat.
    pub fn on_eof(&mut self)
        ensures
            final(self).phase == spec_phase_after_eof(old(self).phase),
            final(self).crash_count == old(self).crash_count,
    {
        match self.phase {
            RestartPhase::Starting => self.phase = RestartPhase::Crashed,
            RestartPhase::Ready => self.phase = RestartPhase::Crashed,
            RestartPhase::Stopping => self.phase = RestartPhase::Stopped,
            _ => {}
        }
    }

    /// Decide what to do about a detected crash, under `p`.
    ///
    /// Pending requests must already have been rejected by the caller, so
    /// no waiter sits through the backoff delay.
    pub fn decide_restart(&mut self, p: &RestartPolicy) -> (a: RestartAction)
        requires
            old(self).phase == RestartPhase::Crashed,
            p.wf(),
        ensures
            (*final(self), a) == spec_decide_restart(*old(self), *p),
    {
        if self.crash_count < p.max_restarts {
            let delay_ms = p.backoff_ms[self.crash_count as usize];
            self.crash_count = self.crash_count + 1;
            self.phase = RestartPhase::Starting;
            RestartAction::Restart { delay_ms }
        } else {
            self.phase = RestartPhase::GivenUp;
            RestartAction::GiveUp
        }
    }
}

/// Restarting is bounded: from a freshly started worker, the `n`-th
/// consecutive crash is answered with a restart delayed by the `n`-th
/// backoff entry while `n` is below the maximum, and with `GiveUp` from
/// then on; once the maximum is reached the machine sits in `GivenUp`
/// and never restarts again. With the language-server policy this means
/// exactly three restart attempts, delayed by one, three and ten
/// seconds, before the terminal failure.
pub proof fn lemma_restart_bounded(s: RestartState, p: RestartPolicy, n: nat)
    requires
        p.wf(),
        s.crash_count == 0,
        s.phase == RestartPhase::Starting || s.phase == RestartPhase::Ready,
    ensures
        n < p.max_restarts ==> spec_crash_action(s, p, n) == (RestartAction::Restart {
            delay_ms: p.backoff_ms@[n as int],
        }),
        n >= p.max_restarts ==> spec_crash_action(s, p, n) == RestartAction::GiveUp,
        spec_after_crashes(s, p, n).crash_count == if n < p.max_restarts as nat {
            n
        } else {
            p.max_restarts as nat
        },
        n > p.max_restarts ==> spec_after_crashes(s, p, n).phase == RestartPhase::GivenUp,
        n >= 1 && n <= p.max_restarts ==> spec_after_crashes(s, p, n).phase
            == RestartPhase::Starting,
    decreases n,
{
    if n > 0 {
        lemma_restart_bounded(s, p, (n - 1) as nat);
    }
}

} // verus!
