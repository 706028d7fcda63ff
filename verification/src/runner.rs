//! Process runner state: spawning, monitoring and terminating the managed
//! executable.
//!
//! The state here is the supervisor's record of the managed child: at most
//! one process handle, held from a confirmed spawn until the exit-poll loop
//! observes termination.  The surrounding I/O — the actual spawn, the kill
//! signal, the line readers and the poll cadence — lives with the caller,
//! which consults these functions for every decision and forwards the
//! returned watchdog lines over the link.
use crate::watchdog::{spec_clear_line, spec_set_pid_line, clear_line, set_pid_line};
use vstd::prelude::*;

verus! {

/// The cadence of the exit-poll loop, in milliseconds.
pub const POLL_INTERVAL_MS: u64 = 200;

/// The close notification emitted exactly once per process termination; the
/// code is absent when the OS reports none (e.g. death by signal).
#[derive(Clone, Copy, Debug, PartialEq, Eq, Structural)]
pub struct ClosePayload {
    pub code: Option<i32>,
}

/// Why an operation on the runner was refused.
#[derive(Clone, Copy, Debug, PartialEq, Eq, Structural)]
pub enum RunnerError {
    /// `start` was requested while a managed process exists.
    AlreadyRunning,
}

/// The supervisor's record of the managed child process.
pub struct FrpcProcState {
    pub child: Option<u32>,
}

/// One observation the exit-poll loop hands back: `NotExited` when the
/// process is still alive, `Exited` with the OS-reported code otherwise.
#[derive(Clone, Copy, Debug, PartialEq, Eq, Structural)]
pub enum PollEvent {
    NotExited,
    Exited(Option<i32>),
}

impl FrpcProcState {
    /// A managed process handle is currently held.
    pub open spec fn running(&self) -> bool {
        self.child is Some
    }

    /// The pid of the managed process, when one is held.
    pub open spec fn pid(&self) -> u32
        recommends
            self.running(),
    {
        self.child->Some_0
    }

    /// How many managed processes the supervisor holds: never more than one.
    pub open spec fn alive_count(&self) -> nat {
        if self.running() {
            1
        } else {
            0
        }
    }

    /// Fresh supervisor state with nothing running.
    pub fn new() -> (r: Self)
        ensures
            !r.running(),
    {
        FrpcProcState { child: Option::None }
    }

    /// The guard `start` takes before spawning: refused if and only if a
    /// managed process already exists.  Takes the state immutably, so a
    /// refused start leaves the existing handle untouched.
    pub fn begin_start(&self) -> (r: Result<(), RunnerError>)
        ensures
            r is Ok <==> !self.running(),
            r is Err ==> r->Err_0 == RunnerError::AlreadyRunning,
    {
        if self.is_running() {
            Result::Err(RunnerError::AlreadyRunning)
        } else {
            Result::Ok(())
        }
    }

    /// Records a successful spawn and yields the `SET PID <pid>` line the
    /// watchdog link must carry before anything else happens to the child.
    pub fn confirm_start(&mut self, pid: u32) -> (msg: Vec<u8>)
        requires
            !old(self).running(),
        ensures
            final(self).running(),
            final(self).pid() == pid,
            msg@ == spec_set_pid_line(pid as nat),
    {
        self.child = Option::Some(pid);
        set_pid_line(pid)
    }

    /// The `stop` decision: which pid to signal (none when nothing runs —
    /// stop is idempotent, not an error) and the `CLEAR` line for the
    /// watchdog link.  The handle itself is not cleared here: the exit-poll
    /// loop observes the termination and clears it, emitting the one close
    /// notification.
    pub fn stop(&self) -> (r: (Option<u32>, Vec<u8>))
        ensures
            self.running() ==> r.0 == Option::Some(self.pid()),
            !self.running() ==> r.0 is None,
            r.1@ == spec_clear_line(),
    {
        (self.current_pid(), clear_line())
    }

    /// Last-known status: a handle is held.  Not a liveness probe.
    pub fn is_running(&self) -> (r: bool)
        ensures
            r == self.running(),
    {
        match self.child {
            Option::Some(_) => true,
            Option::None => false,
        }
    }

    /// The held pid, if any.
    pub fn current_pid(&self) -> (r: Option<u32>)
        ensures
            self.running() ==> r == Option::Some(self.pid()),
            !self.running() ==> r is None,
    {
        match self.child {
            Option::Some(p) => Option::Some(p),
            Option::None => Option::None,
        }
    }

    /// One round of the exit-poll loop.  If the handle was already cleared
    /// the loop exits silently; if the child has exited the handle is
    /// cleared atomically with emitting exactly one close notification;
    /// otherwise nothing changes.
    pub fn poll_exit(&mut self, observed: PollEvent) -> (r: Option<ClosePayload>)
        ensures
            *final(self) == spec_poll(*old(self), observed).0,
            r == spec_poll(*old(self), observed).1,
    {
        match self.child {
            Option::None => Option::None,
            Option::Some(_) => {
                match observed {
                    PollEvent::NotExited => Option::None,
                    PollEvent::Exited(code) => {
                        self.child = Option::None;
                        Option::Some(ClosePayload { code })
                    },
                }
            },
        }
    }

    /// Forced teardown on application exit: clears the handle and names the
    /// pid the caller must kill and reap, if one was held.
    pub fn kill_if_any(&mut self) -> (r: Option<u32>)
        ensures
            !final(self).running(),
            old(self).running() ==> r == Option::Some(old(self).pid()),
            !old(self).running() ==> r is None,
    {
        let r = self.current_pid();
        self.child = Option::None;
        r
    }
}

impl RunnerError {
    /// The user-displayable text of the refusal.
    pub fn message(&self) -> (r: String)
        ensures
            r@ == "frpc is already running"@,
    {
        "frpc is already running".to_owned()
    }
}

/// The error text a failed spawn surfaces, naming the executable and the
/// configuration file it was started with.
pub fn spawn_failure_message(err: &str, exe_path: &str, cfg_path: &str) -> (r: String)
    ensures
        r@ == "spawn frpc failed: "@ + err@ + " (exe: "@ + exe_path@ + ", cfg: "@ + cfg_path@
            + ")"@,
{
    let mut out = "spawn frpc failed: ".to_owned();
    out.append(err);
    out.append(" (exe: ");
    out.append(exe_path);
    out.append(", cfg: ");
    out.append(cfg_path);
    out.append(")");
    out
}

/// The poll transition: what one observation does to the state, and the
/// close notification it emits.
pub open spec fn spec_poll(s: FrpcProcState, observed: PollEvent) -> (
    FrpcProcState,
    Option<ClosePayload>,
) {
    if !s.running() {
        (s, Option::None)
    } else {
        match observed {
            PollEvent::NotExited => (s, Option::None),
            PollEvent::Exited(code) => (
                FrpcProcState { child: Option::None },
                Option::Some(ClosePayload { code }),
            ),
        }
    }
}

/// The poll loop over a whole trace of observations: the final state and how
/// many close notifications were emitted.
pub open spec fn spec_poll_trace(s: FrpcProcState, observations: Seq<PollEvent>) -> (
    FrpcProcState,
    nat,
)
    decreases observations.len(),
{
    if observations.len() == 0 {
        (s, 0)
    } else {
        let (mid, emitted) = spec_poll_trace(s, observations.drop_last());
        let (end, out) = spec_poll(mid, observations.last());
        (end, emitted + if out is Some {
            1nat
        } else {
            0nat
        })
    }
}

/// One operation of the runner's interface, as the interleaving sees it.
pub enum RunnerOp {
    /// A start attempt whose spawn, had it been allowed, produced this pid.
    OpStart(u32),
    /// A stop request: it signals the child but leaves the handle for the
    /// poll loop to clear.
    OpStop,
    /// One round of the exit-poll loop.
    OpPoll(PollEvent),
}

/// What one operation does to the supervisor state.
pub open spec fn spec_step(s: FrpcProcState, op: RunnerOp) -> FrpcProcState {
    match op {
        RunnerOp::OpStart(pid) => if s.running() {
            s
        } else {
            FrpcProcState { child: Option::Some(pid) }
        },
        RunnerOp::OpStop => s,
        RunnerOp::OpPoll(e) => spec_poll(s, e).0,
    }
}

/// The state after a whole interleaving of operations.
pub open spec fn spec_run_ops(s: FrpcProcState, ops: Seq<RunnerOp>) -> FrpcProcState
    decreases ops.len(),
{
    if ops.len() == 0 {
        s
    } else {
        spec_step(spec_run_ops(s, ops.drop_last()), ops.last())
    }
}

/// However `start`, `stop` and the poll loop interleave, the supervisor
/// never holds more than one managed process: from a fresh state, every
/// reachable state carries at most one handle.
pub proof fn lemma_at_most_one_alive(s: FrpcProcState, ops: Seq<RunnerOp>)
    ensures
        spec_run_ops(s, ops).alive_count() <= 1,
    decreases ops.len(),
{
    if ops.len() > 0 {
        lemma_at_most_one_alive(s, ops.drop_last());
    }
}

/// A start attempted while a process is running changes nothing: the
/// existing handle is left untouched.
pub proof fn lemma_start_while_running_is_refused(s: FrpcProcState, pid: u32)
    requires
        s.running(),
    ensures
        spec_step(s, RunnerOp::OpStart(pid)) == s,
{
}

/// The two ends of the watchdog link agree.  Whatever the watchdog held
/// before, the line a confirmed start emits makes it target exactly the
/// spawned pid, and the line a stop emits clears its target — so a link
/// that closes after a stop kills nothing, and one that closes after an
/// unanswered start kills the spawned process.
pub proof fn lemma_link_agreement(t: crate::watchdog::WatchdogTarget, pid: u32)
    ensures
        crate::watchdog::spec_apply(
            t,
            crate::watchdog::spec_parse_cmd(spec_set_pid_line(pid as nat)),
        ) == crate::watchdog::WatchdogTarget::Pid(pid as i64),
        crate::watchdog::spec_apply(t, crate::watchdog::spec_parse_cmd(spec_clear_line()))
            == crate::watchdog::WatchdogTarget::NoTarget,
{
    crate::watchdog::lemma_set_pid_round_trip(pid);
    crate::watchdog::lemma_clear_round_trip();
}

/// Every termination produces exactly one close notification: once a running
/// process's exit is observed, that poll emits one notification, and every
/// later poll of the trace emits none.
pub proof fn lemma_close_emitted_once(s: FrpcProcState, observations: Seq<PollEvent>)
    requires
        s.running(),
        exists|k: int|
            0 <= k < observations.len() && !(#[trigger] observations[k] matches
            PollEvent::NotExited),
    ensures
        spec_poll_trace(s, observations).1 == 1,
        !spec_poll_trace(s, observations).0.running(),
    decreases observations.len(),
{
    let prefix = observations.drop_last();
    if exists|k: int| 0 <= k < prefix.len() && !(#[trigger] prefix[k] matches PollEvent::NotExited) {
        lemma_close_emitted_once(s, prefix);
        lemma_poll_stopped_stays(spec_poll_trace(s, prefix).0, observations.last());
    } else {
        let k = choose|k: int|
            0 <= k < observations.len() && !(#[trigger] observations[k] matches
            PollEvent::NotExited);
        assert forall|j: int| 0 <= j < prefix.len() implies #[trigger] prefix[j] matches
            PollEvent::NotExited by {
            assert(observations[j] == prefix[j]);
        }
        assert(k == observations.len() - 1) by {
            if k < observations.len() - 1 {
                assert(prefix[k] == observations[k]);
            }
        }
        lemma_poll_trace_while_running(s, prefix);
    }
}

/// While every observation reports the process alive, the handle stays and
/// nothing is emitted.
proof fn lemma_poll_trace_while_running(s: FrpcProcState, observations: Seq<PollEvent>)
    requires
        s.running(),
        forall|k: int|
            0 <= k < observations.len() ==> #[trigger] observations[k] matches PollEvent::NotExited,
    ensures
        spec_poll_trace(s, observations) == (s, 0nat),
    decreases observations.len(),
{
    if observations.len() > 0 {
        lemma_poll_trace_while_running(s, observations.drop_last());
    }
}

/// Once the handle is cleared, a poll neither changes state nor emits.
proof fn lemma_poll_stopped_stays(s: FrpcProcState, observed: PollEvent)
    requires
        !s.running(),
    ensures
        spec_poll(s, observed) == (s, Option::<ClosePayload>::None),
{
}

} // verus!
