use backend_supervisor::resolver::{command_name, resolve_candidates, HostOs};
use backend_supervisor::supervisor::{
    backend_working_dir, drive, entry_point_file, step, ExitReport, SupervisorAction,
    SupervisorEvent, SupervisorState, STARTUP_DELAY_SECONDS,
};

#[test]
fn fixed_launch_configuration() {
    assert_eq!(entry_point_file(), "desktop_app.py");
    assert_eq!(backend_working_dir(), "../");
    assert_eq!(STARTUP_DELAY_SECONDS, 2);
}

#[test]
fn start_enters_the_fixed_delay() {
    let (s, a) = step(SupervisorState::Idle, SupervisorEvent::Start, 2);
    assert_eq!(s, SupervisorState::Delaying);
    assert_eq!(a, SupervisorAction::Sleep { seconds: STARTUP_DELAY_SECONDS });
    assert_eq!(a, SupervisorAction::Sleep { seconds: 2 });
}

#[test]
fn delay_end_starts_the_first_attempt() {
    let (s, a) = step(SupervisorState::Delaying, SupervisorEvent::DelayElapsed, 3);
    assert_eq!(s, SupervisorState::Attempting { idx: 0 });
    assert_eq!(a, SupervisorAction::Spawn { idx: 0 });
}

#[test]
fn failed_spawn_advances_to_the_next_candidate() {
    let (s, a) = step(
        SupervisorState::Attempting { idx: 0 },
        SupervisorEvent::SpawnOutcome { ok: false },
        3,
    );
    assert_eq!(s, SupervisorState::Attempting { idx: 1 });
    assert_eq!(a, SupervisorAction::Spawn { idx: 1 });
}

#[test]
fn successful_spawn_waits_on_the_child() {
    let (s, a) = step(
        SupervisorState::Attempting { idx: 1 },
        SupervisorEvent::SpawnOutcome { ok: true },
        3,
    );
    assert_eq!(s, SupervisorState::Running { idx: 1 });
    assert_eq!(a, SupervisorAction::AwaitChild);
}

#[test]
fn child_exit_ends_the_run() {
    let report = ExitReport::Code { code: 7 };
    let (s, a) = step(
        SupervisorState::Running { idx: 0 },
        SupervisorEvent::ChildExited { report },
        2,
    );
    assert_eq!(s, SupervisorState::Exited { idx: 0, report });
    assert_eq!(a, SupervisorAction::ReportExit { report });
}

#[test]
fn terminal_states_ignore_every_event() {
    let events = [
        SupervisorEvent::Start,
        SupervisorEvent::DelayElapsed,
        SupervisorEvent::SpawnOutcome { ok: true },
        SupervisorEvent::SpawnOutcome { ok: false },
        SupervisorEvent::ChildExited { report: ExitReport::NoCode },
    ];
    let exited = SupervisorState::Exited { idx: 0, report: ExitReport::WaitError };
    for e in events {
        assert_eq!(step(SupervisorState::Exhausted, e, 2), (
            SupervisorState::Exhausted,
            SupervisorAction::Ignore,
        ));
        assert_eq!(step(exited, e, 2), (exited, SupervisorAction::Ignore));
    }
}

#[test]
fn first_success_wins_no_third_attempt() {
    // First candidate fails, second succeeds: the third is never attempted.
    let events = vec![
        SupervisorEvent::Start,
        SupervisorEvent::DelayElapsed,
        SupervisorEvent::SpawnOutcome { ok: false },
        SupervisorEvent::SpawnOutcome { ok: true },
        SupervisorEvent::ChildExited { report: ExitReport::Code { code: 0 } },
    ];
    let (state, actions) = drive(SupervisorState::Idle, &events, 3);
    assert_eq!(actions, vec![
        SupervisorAction::Sleep { seconds: 2 },
        SupervisorAction::Spawn { idx: 0 },
        SupervisorAction::Spawn { idx: 1 },
        SupervisorAction::AwaitChild,
        SupervisorAction::ReportExit { report: ExitReport::Code { code: 0 } },
    ]);
    assert!(!actions.contains(&SupervisorAction::Spawn { idx: 2 }));
    assert_eq!(state, SupervisorState::Exited { idx: 1, report: ExitReport::Code { code: 0 } });
}

#[test]
fn total_exhaustion_is_not_fatal() {
    // Every candidate fails to spawn: the run completes, ending in the
    // exhausted state with the operator guidance as its last action.
    let events = vec![
        SupervisorEvent::Start,
        SupervisorEvent::DelayElapsed,
        SupervisorEvent::SpawnOutcome { ok: false },
        SupervisorEvent::SpawnOutcome { ok: false },
    ];
    let (state, actions) = drive(SupervisorState::Idle, &events, 2);
    assert_eq!(state, SupervisorState::Exhausted);
    assert_eq!(actions, vec![
        SupervisorAction::Sleep { seconds: 2 },
        SupervisorAction::Spawn { idx: 0 },
        SupervisorAction::Spawn { idx: 1 },
        SupervisorAction::ReportExhausted,
    ]);
}

#[test]
fn non_windows_immediate_success_scenario() {
    // Non-Windows host; `python3` spawns at once; the backend exits with
    // status 0: delay, one attempt, success, exit report, nothing further.
    let candidates = resolve_candidates(HostOs::Other);
    let n = candidates.len();
    assert_eq!(command_name(candidates[0]), "python3");
    let events = vec![
        SupervisorEvent::Start,
        SupervisorEvent::DelayElapsed,
        SupervisorEvent::SpawnOutcome { ok: true },
        SupervisorEvent::ChildExited { report: ExitReport::Code { code: 0 } },
    ];
    let (state, actions) = drive(SupervisorState::Idle, &events, n);
    assert_eq!(actions, vec![
        SupervisorAction::Sleep { seconds: 2 },
        SupervisorAction::Spawn { idx: 0 },
        SupervisorAction::AwaitChild,
        SupervisorAction::ReportExit { report: ExitReport::Code { code: 0 } },
    ]);
    assert_eq!(state, SupervisorState::Exited { idx: 0, report: ExitReport::Code { code: 0 } });
    for a in &actions {
        assert!(*a != SupervisorAction::Spawn { idx: 1 });
    }
}

#[test]
fn empty_candidate_list_exhausts_after_the_delay() {
    let events = vec![SupervisorEvent::Start, SupervisorEvent::DelayElapsed];
    let (state, actions) = drive(SupervisorState::Idle, &events, 0);
    assert_eq!(state, SupervisorState::Exhausted);
    assert_eq!(actions, vec![
        SupervisorAction::Sleep { seconds: 2 },
        SupervisorAction::ReportExhausted,
    ]);
}
