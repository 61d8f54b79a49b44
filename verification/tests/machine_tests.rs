use watchrun::debounce::Status;
use watchrun::supervise::{
    decide_restart, exit_code_for, next_directive, signal_number, status_after, term_step,
    BusyAction, Directive, RestartDecision, RunOutcome, SignalChoice, TermOutcome, TermStep,
    DEFAULT_GRACE_MS, DEFAULT_TERM_POLL_MS, QUEUE_RETRY_BACKOFF_MS,
};

#[test]
fn burst_coalesces_into_one_restart_at_the_right_time() {
    let debounce = 100u64;
    // A burst of three admitted changes, each less than `debounce` apart.
    let mut s = Status::RestartDue;
    s = s.on_change(0);
    assert_eq!(s, Status::PendingSince(0));
    s = s.on_change(40);
    s = s.on_change(90);
    assert_eq!(s, Status::PendingSince(90));
    // Ticks before the deadline of the last change do nothing.
    s = s.on_tick(120, debounce);
    assert_eq!(s, Status::PendingSince(90));
    s = s.on_tick(189, debounce);
    assert_eq!(s, Status::PendingSince(90));
    // The first tick at the deadline (last change + debounce) fires, once.
    s = s.on_tick(190, debounce);
    assert_eq!(s, Status::RestartDue);
    // Further ticks do not declare another restart.
    s = s.on_tick(400, debounce);
    assert_eq!(s, Status::RestartDue);
}

#[test]
fn ticks_do_nothing_when_idle_or_due() {
    let idle = Status::Idle;
    assert_eq!(idle.on_tick(1000, 100), Status::Idle);
    let due = Status::RestartDue;
    assert_eq!(due.on_tick(1000, 100), Status::RestartDue);
    // A change in any state re-opens the window at the current time.
    assert_eq!(idle.on_change(7), Status::PendingSince(7));
    assert_eq!(due.on_change(7), Status::PendingSince(7));
    assert_eq!(Status::PendingSince(3).on_change(7), Status::PendingSince(7));
}

#[test]
fn do_nothing_drops_the_restart_and_stays_single_child() {
    let d = decide_restart(&BusyAction::DoNothing, true);
    assert_eq!(d, RestartDecision::Discard);
    assert_eq!(status_after(&d), Status::Idle);
    // With no live child the same policy spawns normally.
    assert_eq!(decide_restart(&BusyAction::DoNothing, false), RestartDecision::Spawn);
}

#[test]
fn queue_defers_until_the_child_exits_then_spawns_once() {
    // Liveness observed at successive retries: alive, alive, then exited.
    let observations = [true, true, false];
    let mut spawns = 0;
    let mut status = Status::RestartDue;
    for alive in observations {
        assert_eq!(status, Status::RestartDue, "a queued restart is never lost");
        let d = decide_restart(&BusyAction::Queue, alive);
        if d == RestartDecision::Spawn || d == RestartDecision::StopThenSpawn {
            spawns += 1;
        }
        status = status_after(&d);
    }
    assert_eq!(spawns, 1);
    assert_eq!(status, Status::Idle);
}

#[test]
fn restart_policy_stops_the_old_child_first() {
    assert_eq!(decide_restart(&BusyAction::Restart, true), RestartDecision::StopThenSpawn);
    assert_eq!(decide_restart(&BusyAction::Restart, false), RestartDecision::Spawn);
}

#[test]
fn kill_escalation_is_bounded_against_a_stubborn_child() {
    // The child ignores the graceful signal entirely: every poll sees it
    // alive. The wait still finishes, by force, within grace + one poll.
    let grace = DEFAULT_GRACE_MS;
    let poll = DEFAULT_TERM_POLL_MS;
    let mut elapsed = 0u64;
    let outcome = loop {
        match term_step(false, elapsed, grace) {
            TermStep::Finished(o) => break o,
            TermStep::PollAgain => elapsed += poll,
        }
    };
    assert_eq!(outcome, TermOutcome::ForceKilled);
    assert!(elapsed <= grace + poll);
}

#[test]
fn termination_outcomes_are_distinguished() {
    assert_eq!(term_step(true, 0, 3000), TermStep::Finished(TermOutcome::Exited));
    assert_eq!(term_step(true, 9999, 3000), TermStep::Finished(TermOutcome::Exited));
    assert_eq!(term_step(false, 2999, 3000), TermStep::PollAgain);
    assert_eq!(term_step(false, 3000, 3000), TermStep::Finished(TermOutcome::ForceKilled));
}

#[test]
fn directives_follow_the_priority_order() {
    // A termination request beats a due restart: nothing new is spawned.
    let d = next_directive(true, false, &Status::RestartDue, &BusyAction::Restart, true);
    assert_eq!(d, Directive::SignalChildAndExit);
    // A child seen killed by a signal is reported next.
    let d = next_directive(false, true, &Status::RestartDue, &BusyAction::Restart, true);
    assert_eq!(d, Directive::ExitChildSignaled);
    // Then a due restart is acted on.
    let d = next_directive(false, false, &Status::RestartDue, &BusyAction::Queue, true);
    assert_eq!(d, Directive::Restart(RestartDecision::Defer));
    // Otherwise the loop waits.
    let d = next_directive(false, false, &Status::PendingSince(5), &BusyAction::Queue, true);
    assert_eq!(d, Directive::Wait);
    let d = next_directive(false, false, &Status::Idle, &BusyAction::Queue, true);
    assert_eq!(d, Directive::Wait);
}

#[test]
fn exit_codes_are_nonzero_and_distinct() {
    let user = exit_code_for(&RunOutcome::UserShutdown);
    let killed = exit_code_for(&RunOutcome::ChildKilledBySignal);
    let fatal = exit_code_for(&RunOutcome::FatalError);
    assert_eq!(user, 1);
    assert_eq!(killed, 130);
    assert_eq!(fatal, 2);
    assert_ne!(user, killed);
    assert_ne!(user, fatal);
    assert_ne!(killed, fatal);
}

#[test]
fn signal_choices_have_their_posix_numbers() {
    assert_eq!(signal_number(&SignalChoice::Hangup), 1);
    assert_eq!(signal_number(&SignalChoice::Interrupt), 2);
    assert_eq!(signal_number(&SignalChoice::Quit), 3);
    assert_eq!(signal_number(&SignalChoice::Terminate), 15);
}

#[test]
fn queued_bursts_while_child_runs_spawn_exactly_once_more() {
    // Busy-action Queue, debounce 100ms; the child spawned at t=0 runs for
    // 500ms; change bursts 50ms apart arrive at t=0 and t=300.
    let debounce = 100u64;
    let child_exit_at = 500u64;
    let change_times = [0u64, 50, 300, 350];
    let mut status = Status::Idle;
    let mut spawns = 0u32;
    let mut t = 0u64;
    while t <= 1000 {
        if change_times.contains(&t) {
            status = status.on_change(t);
        } else {
            status = status.on_tick(t, debounce);
        }
        if status == Status::RestartDue {
            let alive = t < child_exit_at;
            let d = decide_restart(&BusyAction::Queue, alive);
            if d == RestartDecision::Spawn || d == RestartDecision::StopThenSpawn {
                spawns += 1;
            }
            status = status_after(&d);
        }
        t += QUEUE_RETRY_BACKOFF_MS / 2;
    }
    assert_eq!(spawns, 1, "one additional restart once the first child exits");
}
