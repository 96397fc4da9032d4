//! The supervision state machine: one run per application session that
//! delays, tries each launcher candidate in order, keeps the first child
//! that spawns, observes its exit, and treats exhaustion of every candidate
//! as a non-fatal outcome.
//!
//! The machine is pure: `step` maps the current state and an observed event
//! to the next state and the action the surrounding shell must perform.
//! The shell performs the effects (sleep, spawn, wait, log) and reports the
//! resulting event back.

use vstd::prelude::*;

verus! {

/// Seconds the supervisor waits before its first spawn attempt, so the main
/// window can finish initializing.
pub const STARTUP_DELAY_SECONDS: u64 = 2;

/// Fixed name of the backend entry point handed to each candidate as its
/// sole argument.
pub fn entry_point_file() -> (r: &'static str)
    ensures
        r@ == "desktop_app.py"@,
{
    "desktop_app.py"
}

/// Fixed working directory, relative to the application's own location, in
/// which the backend is started.
pub fn backend_working_dir() -> (r: &'static str)
    ensures
        r@ == "../"@,
{
    "../"
}

/// How a supervised backend run ended, as observed when waiting on the
/// child finishes.
#[derive(Clone, Copy, PartialEq, Eq, Structural, Debug)]
pub enum ExitReport {
    /// The child terminated and reported this exit code.
    Code { code: i32 },
    /// The child terminated without an exit code (ended by a signal).
    NoCode,
    /// Waiting on the child itself failed.
    WaitError,
}

/// The supervisor's position in its single supervision run over a candidate
/// list of `n` entries; `idx` counts candidates from zero.
#[derive(Clone, Copy, PartialEq, Eq, Structural, Debug)]
pub enum SupervisorState {
    /// Supervision has not been triggered yet.
    Idle,
    /// Waiting out the fixed startup delay.
    Delaying,
    /// Trying to spawn candidate `idx`.
    Attempting { idx: usize },
    /// Candidate `idx` spawned; the backend runs until it exits.
    Running { idx: usize },
    /// The backend started by candidate `idx` has terminated. Terminal.
    Exited { idx: usize, report: ExitReport },
    /// Every candidate failed to spawn. Terminal, and not an error: the
    /// application keeps running without a backend.
    Exhausted,
}

/// What the surrounding shell reports back to the supervisor.
#[derive(Clone, Copy, PartialEq, Eq, Structural, Debug)]
pub enum SupervisorEvent {
    /// Supervision was triggered.
    Start,
    /// The startup delay elapsed.
    DelayElapsed,
    /// A spawn attempt came back, successfully or not.
    SpawnOutcome { ok: bool },
    /// The running backend terminated.
    ChildExited { report: ExitReport },
}

/// What the supervisor asks the surrounding shell to do next.
#[derive(Clone, Copy, PartialEq, Eq, Structural, Debug)]
pub enum SupervisorAction {
    /// Sleep for the given number of seconds, then report `DelayElapsed`.
    Sleep { seconds: u64 },
    /// Try to spawn candidate `idx`, then report the `SpawnOutcome`.
    Spawn { idx: usize },
    /// Block, on the supervisor's own context only, until the child exits,
    /// then report `ChildExited`.
    AwaitChild,
    /// Log how the backend ended. Terminal.
    ReportExit { report: ExitReport },
    /// Emit operator guidance: no candidate could spawn the backend.
    /// Terminal, and not an application error.
    ReportExhausted,
    /// The event does not apply in the current state; do nothing.
    Ignore,
}

/// A state in which the run is over: the backend exited, or every candidate
/// failed to spawn.
pub open spec fn is_terminal(s: SupervisorState) -> bool {
    s is Exited || s is Exhausted
}

/// A state in which a backend process exists or existed: once reached, the
/// supervisor never attempts another candidate.
pub open spec fn launched(s: SupervisorState) -> bool {
    s is Running || s is Exited
}

/// The single transition of the supervision machine over `n` candidates:
/// start leads into the fixed delay; the delay's end starts the first
/// attempt; a failed attempt moves to the next candidate or, after the last
/// one, to exhaustion; a successful attempt fixes the running candidate for
/// good; the child's exit ends the run. Events that do not apply in the
/// current state change nothing.
pub open spec fn spec_step(s: SupervisorState, e: SupervisorEvent, n: usize) -> (SupervisorState, SupervisorAction) {
    match (s, e) {
        (SupervisorState::Idle, SupervisorEvent::Start) => (
            SupervisorState::Delaying,
            SupervisorAction::Sleep { seconds: STARTUP_DELAY_SECONDS },
        ),
        (SupervisorState::Delaying, SupervisorEvent::DelayElapsed) => if n == 0 {
            (SupervisorState::Exhausted, SupervisorAction::ReportExhausted)
        } else {
            (SupervisorState::Attempting { idx: 0 }, SupervisorAction::Spawn { idx: 0 })
        },
        (SupervisorState::Attempting { idx }, SupervisorEvent::SpawnOutcome { ok }) => if ok {
            (SupervisorState::Running { idx }, SupervisorAction::AwaitChild)
        } else if idx + 1 < n {
            (
                SupervisorState::Attempting { idx: (idx + 1) as usize },
                SupervisorAction::Spawn { idx: (idx + 1) as usize },
            )
        } else {
            (SupervisorState::Exhausted, SupervisorAction::ReportExhausted)
        },
        (SupervisorState::Running { idx }, SupervisorEvent::ChildExited { report }) => (
            SupervisorState::Exited { idx, report },
            SupervisorAction::ReportExit { report },
        ),
        _ => (s, SupervisorAction::Ignore),
    }
}

/// One step of the supervision loop: from the current state and the event
/// the shell observed, the next state and the action the shell must perform
/// next. Total: every state-event pair has a defined successor.
pub fn step(s: SupervisorState, e: SupervisorEvent, n: usize) -> (r: (
    SupervisorState,
    SupervisorAction,
))
    ensures
        r == spec_step(s, e, n),
{
    match (s, e) {
        (SupervisorState::Idle, SupervisorEvent::Start) => (
            SupervisorState::Delaying,
            SupervisorAction::Sleep { seconds: STARTUP_DELAY_SECONDS },
        ),
        (SupervisorState::Delaying, SupervisorEvent::DelayElapsed) => if n == 0 {
            (SupervisorState::Exhausted, SupervisorAction::ReportExhausted)
        } else {
            (SupervisorState::Attempting { idx: 0 }, SupervisorAction::Spawn { idx: 0 })
        },
        (SupervisorState::Attempting { idx }, SupervisorEvent::SpawnOutcome { ok }) => if ok {
            (SupervisorState::Running { idx }, SupervisorAction::AwaitChild)
        } else if n > 0 && idx < n - 1 {
            (
                SupervisorState::Attempting { idx: idx + 1 },
                SupervisorAction::Spawn { idx: idx + 1 },
            )
        } else {
            (SupervisorState::Exhausted, SupervisorAction::ReportExhausted)
        },
        (SupervisorState::Running { idx }, SupervisorEvent::ChildExited { report }) => (
            SupervisorState::Exited { idx, report },
            SupervisorAction::ReportExit { report },
        ),
        _ => (s, SupervisorAction::Ignore),
    }
}

/// The state after folding `spec_step` over a whole event sequence.
pub open spec fn run_state(
    s: SupervisorState,
    events: Seq<SupervisorEvent>,
    n: usize,
) -> SupervisorState
    decreases events.len(),
{
    if events.len() == 0 {
        s
    } else {
        run_state(spec_step(s, events[0], n).0, events.drop_first(), n)
    }
}

/// The actions requested while folding `spec_step` over a whole event
/// sequence, in order: one action per event.
pub open spec fn run_actions(
    s: SupervisorState,
    events: Seq<SupervisorEvent>,
    n: usize,
) -> Seq<SupervisorAction>
    decreases events.len(),
{
    if events.len() == 0 {
        Seq::empty()
    } else {
        seq![spec_step(s, events[0], n).1] + run_actions(
            spec_step(s, events[0], n).0,
            events.drop_first(),
            n,
        )
    }
}

/// A run requests exactly one action per observed event.
pub proof fn lemma_run_actions_len(s: SupervisorState, events: Seq<SupervisorEvent>, n: usize)
    ensures
        run_actions(s, events, n).len() == events.len(),
    decreases events.len(),
{
    if events.len() > 0 {
        lemma_run_actions_len(spec_step(s, events[0], n).0, events.drop_first(), n);
    }
}

/// Law: a terminal state never moves, whatever else the shell reports.
pub proof fn lemma_terminal_stays(s: SupervisorState, e: SupervisorEvent, n: usize)
    requires
        is_terminal(s),
    ensures
        spec_step(s, e, n) == (s, SupervisorAction::Ignore),
{
}

/// Once a backend has spawned, a single step neither asks for another spawn
/// nor leaves the launched states.
pub proof fn lemma_no_spawn_after_launch(s: SupervisorState, e: SupervisorEvent, n: usize)
    requires
        launched(s),
    ensures
        launched(spec_step(s, e, n).0),
        !(spec_step(s, e, n).1 is Spawn),
{
}

/// Law: first success wins. From the moment a candidate has spawned the
/// backend, no sequence of further events, whatever the shell reports, makes
/// the supervisor attempt another candidate.
pub proof fn lemma_no_spawn_once_launched(
    s: SupervisorState,
    events: Seq<SupervisorEvent>,
    n: usize,
)
    requires
        launched(s),
    ensures
        launched(run_state(s, events, n)),
        forall|k: int|
            0 <= k < events.len() ==> !(run_actions(s, events, n)[k] is Spawn),
    decreases events.len(),
{
    lemma_run_actions_len(s, events, n);
    if events.len() > 0 {
        let s1 = spec_step(s, events[0], n).0;
        let tail = events.drop_first();
        lemma_no_spawn_after_launch(s, events[0], n);
        lemma_no_spawn_once_launched(s1, tail, n);
        lemma_run_actions_len(s1, tail, n);
        assert forall|k: int|
            0 <= k < events.len() implies !(run_actions(s, events, n)[k] is Spawn) by {
            if k > 0 {
                assert(run_actions(s, events, n)[k] == run_actions(s1, tail, n)[k - 1]);
            }
        }
    }
}

/// Law: if the first candidate fails to spawn and the second succeeds, the
/// backend runs under the second candidate and no third is ever attempted,
/// whatever events follow.
pub proof fn lemma_second_success_wins(n: usize, rest: Seq<SupervisorEvent>)
    requires
        n >= 2,
    ensures
        ({
            let events = seq![
                SupervisorEvent::SpawnOutcome { ok: false },
                SupervisorEvent::SpawnOutcome { ok: true },
            ] + rest;
            let acts = run_actions(SupervisorState::Attempting { idx: 0 }, events, n);
            &&& acts.len() == events.len()
            &&& acts[0] == (SupervisorAction::Spawn { idx: 1 })
            &&& acts[1] == SupervisorAction::AwaitChild
            &&& forall|k: int| 2 <= k < acts.len() ==> !(acts[k] is Spawn)
            &&& launched(run_state(SupervisorState::Attempting { idx: 0 }, events, n))
        }),
{
    let s0 = SupervisorState::Attempting { idx: 0 };
    let fail = SupervisorEvent::SpawnOutcome { ok: false };
    let ok = SupervisorEvent::SpawnOutcome { ok: true };
    let events = seq![fail, ok] + rest;
    lemma_run_actions_len(s0, events, n);
    assert(events[0] == fail);
    let s1 = SupervisorState::Attempting { idx: 1 };
    assert(spec_step(s0, fail, n) == (s1, SupervisorAction::Spawn { idx: 1 }));
    let tail1 = events.drop_first();
    assert(tail1 =~= seq![ok] + rest);
    assert(tail1[0] == ok);
    let s2 = SupervisorState::Running { idx: 1 };
    assert(spec_step(s1, ok, n) == (s2, SupervisorAction::AwaitChild));
    let tail2 = tail1.drop_first();
    assert(tail2 =~= rest);
    lemma_run_actions_len(s1, tail1, n);
    lemma_run_actions_len(s2, tail2, n);
    lemma_no_spawn_once_launched(s2, tail2, n);
    assert(run_state(s0, events, n) == run_state(s1, tail1, n));
    assert(run_state(s1, tail1, n) == run_state(s2, tail2, n));
    let acts = run_actions(s0, events, n);
    assert(acts[0] == (SupervisorAction::Spawn { idx: 1 }));
    assert(acts[1] == run_actions(s1, tail1, n)[0]);
    assert forall|k: int| 2 <= k < acts.len() implies !(acts[k] is Spawn) by {
        assert(acts[k] == run_actions(s1, tail1, n)[k - 1]);
        assert(run_actions(s1, tail1, n)[k - 1] == run_actions(s2, tail2, n)[k - 2]);
    }
}

/// The event sequence in which `k` spawn attempts in a row come back failed.
pub open spec fn all_failures(k: nat) -> Seq<SupervisorEvent> {
    Seq::new(k, |i: int| SupervisorEvent::SpawnOutcome { ok: false })
}

/// Law: when, from candidate `i` on, every remaining spawn attempt fails,
/// the run ends exhausted; every action on the way is the spawn of the next
/// candidate in order, and the last is the operator guidance. No action and
/// no state of such a run is an error: the application outlives total
/// exhaustion.
pub proof fn lemma_all_failures_exhaust(i: usize, n: usize)
    requires
        i < n,
    ensures
        ({
            let events = all_failures((n - i) as nat);
            let acts = run_actions(SupervisorState::Attempting { idx: i }, events, n);
            &&& run_state(SupervisorState::Attempting { idx: i }, events, n)
                == SupervisorState::Exhausted
            &&& acts.len() == n - i
            &&& acts[acts.len() - 1] == SupervisorAction::ReportExhausted
            &&& forall|k: int|
                0 <= k < acts.len() - 1 ==> acts[k] == (SupervisorAction::Spawn {
                    idx: (i + k + 1) as usize,
                })
        }),
    decreases n - i,
{
    let s0 = SupervisorState::Attempting { idx: i };
    let events = all_failures((n - i) as nat);
    let fail = SupervisorEvent::SpawnOutcome { ok: false };
    lemma_run_actions_len(s0, events, n);
    assert(events[0] == fail);
    let tail = events.drop_first();
    if i + 1 < n {
        let s1 = SupervisorState::Attempting { idx: (i + 1) as usize };
        assert(spec_step(s0, fail, n) == (s1, SupervisorAction::Spawn { idx: (i + 1) as usize }));
        assert(tail =~= all_failures((n - (i + 1)) as nat));
        lemma_all_failures_exhaust((i + 1) as usize, n);
        lemma_run_actions_len(s1, tail, n);
        assert(run_state(s0, events, n) == run_state(s1, tail, n));
        let acts = run_actions(s0, events, n);
        assert forall|k: int|
            0 <= k < acts.len() - 1 implies acts[k] == (SupervisorAction::Spawn {
            idx: (i + k + 1) as usize,
        }) by {
            if k > 0 {
                assert(acts[k] == run_actions(s1, tail, n)[k - 1]);
            }
        }
        assert(acts[acts.len() - 1] == run_actions(s1, tail, n)[acts.len() - 2]);
    } else {
        assert(spec_step(s0, fail, n) == (
            SupervisorState::Exhausted,
            SupervisorAction::ReportExhausted,
        ));
        assert(tail =~= all_failures(0));
        assert(events.len() == 1);
        assert(run_state(s0, events, n) == run_state(SupervisorState::Exhausted, tail, n));
        assert(run_state(SupervisorState::Exhausted, tail, n) == SupervisorState::Exhausted);
        assert(run_actions(s0, events, n) =~= seq![SupervisorAction::ReportExhausted]);
    }
}

/// Law: a full run from idle in which every candidate fails to spawn ends
/// exhausted with the operator guidance as its last action, never in an
/// error: the shell first sleeps, then attempts each candidate once, in
/// order, before the total failure is reported.
pub proof fn lemma_total_exhaustion(n: usize)
    requires
        n >= 1,
    ensures
        ({
            let events = seq![SupervisorEvent::Start, SupervisorEvent::DelayElapsed]
                + all_failures(n as nat);
            let acts = run_actions(SupervisorState::Idle, events, n);
            &&& run_state(SupervisorState::Idle, events, n) == SupervisorState::Exhausted
            &&& acts.len() == n + 2
            &&& acts[0] == (SupervisorAction::Sleep { seconds: STARTUP_DELAY_SECONDS })
            &&& acts[1] == (SupervisorAction::Spawn { idx: 0 })
            &&& forall|k: int|
                2 <= k < acts.len() - 1 ==> acts[k] == (SupervisorAction::Spawn {
                    idx: (k - 1) as usize,
                })
            &&& acts[acts.len() - 1] == SupervisorAction::ReportExhausted
        }),
{
    let events = seq![SupervisorEvent::Start, SupervisorEvent::DelayElapsed] + all_failures(
        n as nat,
    );
    let s0 = SupervisorState::Idle;
    lemma_run_actions_len(s0, events, n);
    assert(events[0] == SupervisorEvent::Start);
    let s1 = SupervisorState::Delaying;
    let tail1 = events.drop_first();
    assert(tail1 =~= seq![SupervisorEvent::DelayElapsed] + all_failures(n as nat));
    assert(tail1[0] == SupervisorEvent::DelayElapsed);
    let s2 = SupervisorState::Attempting { idx: 0 };
    let tail2 = tail1.drop_first();
    assert(tail2 =~= all_failures(n as nat));
    lemma_run_actions_len(s1, tail1, n);
    lemma_run_actions_len(s2, tail2, n);
    lemma_all_failures_exhaust(0, n);
    assert(run_state(s0, events, n) == run_state(s1, tail1, n));
    assert(run_state(s1, tail1, n) == run_state(s2, tail2, n));
    let acts = run_actions(s0, events, n);
    assert(acts[0] == (SupervisorAction::Sleep { seconds: STARTUP_DELAY_SECONDS }));
    assert(acts[1] == run_actions(s1, tail1, n)[0]);
    assert forall|k: int|
        2 <= k < acts.len() - 1 implies acts[k] == (SupervisorAction::Spawn {
        idx: (k - 1) as usize,
    }) by {
        assert(acts[k] == run_actions(s1, tail1, n)[k - 1]);
        assert(run_actions(s1, tail1, n)[k - 1] == run_actions(s2, tail2, n)[k - 2]);
    }
    assert(acts[acts.len() - 1] == run_actions(s1, tail1, n)[acts.len() - 2]);
    assert(run_actions(s1, tail1, n)[acts.len() - 2] == run_actions(s2, tail2, n)[acts.len() - 3]);
}

/// Runs the supervision machine over a whole sequence of observed events,
/// collecting the requested actions in order: the shell's loop, minus the
/// effects.
pub fn drive(start: SupervisorState, events: &Vec<SupervisorEvent>, n: usize) -> (r: (
    SupervisorState,
    Vec<SupervisorAction>,
))
    ensures
        r.0 == run_state(start, events@, n),
        r.1@ == run_actions(start, events@, n),
{
    let mut s = start;
    let mut acts: Vec<SupervisorAction> = Vec::new();
    let mut i: usize = 0;
    proof {
        assert(events@.skip(0) =~= events@);
        assert(acts@ + run_actions(s, events@.skip(0), n) =~= run_actions(
            start,
            events@,
            n,
        ));
    }
    while i < events.len()
        invariant
            i <= events.len(),
            run_state(start, events@, n) == run_state(s, events@.skip(i as int), n),
            run_actions(start, events@, n) =~= acts@ + run_actions(s, events@.skip(i as int), n),
        decreases events.len() - i,
    {
        let (next, act) = step(s, events[i], n);
        proof {
            let rem = events@.skip(i as int);
            assert(rem[0] == events@[i as int]);
            assert(rem.drop_first() =~= events@.skip(i as int + 1));
            lemma_run_actions_len(next, events@.skip(i as int + 1), n);
            lemma_run_actions_len(s, rem, n);
        }
        acts.push(act);
        s = next;
        i = i + 1;
    }
    proof {
        assert(events@.skip(events@.len() as int) =~= Seq::<SupervisorEvent>::empty());
    }
    (s, acts)
}

} // verus!
