//! The process supervisor's decision logic: what to do with a due restart
//! under each busy-action policy, the graceful-then-forceful termination
//! protocol with its bounded kill escalation, the priority of externally
//! delivered signals over everything else, and the distinguishable exit
//! outcomes of a run.
//!
//! The supervisor owns at most one live child process group at a time. The
//! decisions here are pure; the control loop around the library performs the
//! spawning, signalling, and waiting they call for, and feeds back what it
//! observed.

use vstd::prelude::*;

use crate::debounce::Status;

verus! {

/// Retry backoff, in milliseconds, between liveness checks under the `Queue`
/// policy; a tunable, not a correctness-critical constant.
pub const QUEUE_RETRY_BACKOFF_MS: u64 = 50;

/// Default debounce interval, in milliseconds.
pub const DEFAULT_DEBOUNCE_MS: u64 = 100;

/// Default grace period, in milliseconds, between the graceful signal and the
/// forced kill.
pub const DEFAULT_GRACE_MS: u64 = 3000;

/// Default interval, in milliseconds, at which the supervisor polls for the
/// child's exit while the grace period runs.
pub const DEFAULT_TERM_POLL_MS: u64 = 50;

/// What to do when a restart is due while the previous child may still be
/// running; selected once at startup.
#[derive(Clone, Copy, Debug, PartialEq, Eq, Structural)]
pub enum BusyAction {
    /// Stop the old child (signal, then wait for its exit) and restart.
    Restart,
    /// Drop the pending restart entirely.
    DoNothing,
    /// Defer the restart and retry after a short backoff; never drop it.
    Queue,
}

/// The supervisor's decision for one due restart.
#[derive(Clone, Copy, Debug, PartialEq, Eq, Structural)]
pub enum RestartDecision {
    /// Signal the live child group, wait until it has exited, then spawn.
    StopThenSpawn,
    /// No child is alive: spawn at once.
    Spawn,
    /// Discard this restart; the caller opted into losing it.
    Discard,
    /// Keep the restart due and try again after the backoff.
    Defer,
}

/// The decision for a due restart under `busy` when the child's liveness is
/// `child_alive`: with no live child every policy spawns; with a live child,
/// `Restart` stops it first, `DoNothing` discards, and `Queue` defers.
pub open spec fn spec_decide_restart(busy: BusyAction, child_alive: bool) -> RestartDecision {
    if !child_alive {
        RestartDecision::Spawn
    } else {
        match busy {
            BusyAction::Restart => RestartDecision::StopThenSpawn,
            BusyAction::DoNothing => RestartDecision::Discard,
            BusyAction::Queue => RestartDecision::Defer,
        }
    }
}

/// Whether a decision ends in a new child being spawned.
pub open spec fn decision_spawns(d: RestartDecision) -> bool {
    d == RestartDecision::Spawn || d == RestartDecision::StopThenSpawn
}

/// The restart status once the supervisor has acted on a decision: a deferred
/// restart stays due; anything acted upon, or discarded, returns to `Idle`.
pub open spec fn spec_status_after(d: RestartDecision) -> Status {
    if d == RestartDecision::Defer {
        Status::RestartDue
    } else {
        Status::Idle
    }
}

/// Decide what to do with a due restart.
pub fn decide_restart(busy: &BusyAction, child_alive: bool) -> (d: RestartDecision)
    ensures
        d == spec_decide_restart(*busy, child_alive),
{
    if !child_alive {
        RestartDecision::Spawn
    } else {
        match busy {
            BusyAction::Restart => RestartDecision::StopThenSpawn,
            BusyAction::DoNothing => RestartDecision::Discard,
            BusyAction::Queue => RestartDecision::Defer,
        }
    }
}

/// The restart status once a decision has been acted on.
pub fn status_after(d: &RestartDecision) -> (s: Status)
    ensures
        s == spec_status_after(*d),
{
    match d {
        RestartDecision::Defer => Status::RestartDue,
        _ => Status::Idle,
    }
}

/// The elementary actions a decision asks of the control loop, in order.
#[derive(Clone, Copy, Debug, PartialEq, Eq, Structural)]
pub enum Act {
    /// Send the configured graceful signal to the whole child group.
    SignalGroup,
    /// Block until the child group has fully exited (observed via wait).
    AwaitExit,
    /// Spawn the command as a new process group leader.
    SpawnGroup,
}

/// The ordered actions of each decision.
pub open spec fn actions_of(d: RestartDecision) -> Seq<Act> {
    match d {
        RestartDecision::StopThenSpawn => seq![Act::SignalGroup, Act::AwaitExit, Act::SpawnGroup],
        RestartDecision::Spawn => seq![Act::SpawnGroup],
        RestartDecision::Discard => Seq::<Act>::empty(),
        RestartDecision::Defer => Seq::<Act>::empty(),
    }
}

/// Under `DoNothing`, a restart due while the child is alive spawns nothing
/// at all, so no second child group can ever come alive from it, and the
/// status returns to `Idle`.
pub proof fn lemma_do_nothing_never_overlaps()
    ensures
        !decision_spawns(spec_decide_restart(BusyAction::DoNothing, true)),
        actions_of(spec_decide_restart(BusyAction::DoNothing, true)) == Seq::<Act>::empty(),
        spec_status_after(spec_decide_restart(BusyAction::DoNothing, true)) == Status::Idle,
{
}

/// Under `Restart`, with a live child, every spawn is preceded by a completed
/// wait for the old child's exit: the two groups never overlap.
pub proof fn lemma_restart_waits_before_spawn()
    ensures
        ({
            let a = actions_of(spec_decide_restart(BusyAction::Restart, true));
            forall|i: int|
                0 <= i < a.len() && a[i] == Act::SpawnGroup ==> exists|j: int|
                    0 <= j < i && a[j] == Act::AwaitExit
        }),
{
    let a = actions_of(spec_decide_restart(BusyAction::Restart, true));
    assert forall|i: int| 0 <= i < a.len() && a[i] == Act::SpawnGroup implies exists|j: int|
        0 <= j < i && a[j] == Act::AwaitExit by {
        assert(a[0] == Act::SignalGroup);
        assert(a[1] == Act::AwaitExit);
        assert(i == 2);
        assert(0 <= 1 < i && a[1] == Act::AwaitExit);
    }
}

/// How many spawns the `Queue` retry loop performs, given the child-liveness
/// value observed at each successive handling of the still-due restart: a
/// deferral retries on the next observation; any other decision ends the
/// loop.
pub open spec fn queue_spawns(obs: Seq<bool>) -> nat
    decreases obs.len(),
{
    if obs.len() == 0 {
        0
    } else {
        let d = spec_decide_restart(BusyAction::Queue, obs[0]);
        if d == RestartDecision::Defer {
            queue_spawns(obs.drop_first())
        } else if decision_spawns(d) {
            1
        } else {
            0
        }
    }
}

/// Under `Queue`, once some retry observes that the child has exited, exactly
/// one restart is spawned for the whole coalesced burst: not zero, not more.
pub proof fn lemma_queue_exactly_one_spawn(obs: Seq<bool>)
    requires
        exists|i: int| 0 <= i < obs.len() && !obs[i],
    ensures
        queue_spawns(obs) == 1,
    decreases obs.len(),
{
    let i = choose|i: int| 0 <= i < obs.len() && !obs[i];
    if obs[0] {
        assert(i != 0);
        assert(0 <= i - 1 < obs.drop_first().len() && !obs.drop_first()[i - 1]);
        lemma_queue_exactly_one_spawn(obs.drop_first());
    }
}

/// Under `Queue`, a restart is never lost and never duplicated: the retry
/// loop spawns at most once, and fails to spawn only while every observation
/// still finds the child alive.
pub proof fn lemma_queue_never_loses(obs: Seq<bool>)
    ensures
        queue_spawns(obs) <= 1,
        (queue_spawns(obs) == 0 <==> (forall|i: int| 0 <= i < obs.len() ==> obs[i])),
    decreases obs.len(),
{
    if obs.len() > 0 {
        lemma_queue_never_loses(obs.drop_first());
        if obs[0] {
            assert forall|i: int| 0 <= i < obs.len() && !obs[i] implies !(queue_spawns(obs)
                == 0) by {
                assert(!obs.drop_first()[i - 1]);
            }
        }
    }
}

/// How one terminate request ends, distinguishably.
#[derive(Clone, Copy, Debug, PartialEq, Eq, Structural)]
pub enum TermOutcome {
    /// The child group exited within the grace period after the signal.
    Exited,
    /// The child group outlived the grace period and was forcibly killed.
    ForceKilled,
}

/// One step of the termination protocol's polling loop.
#[derive(Clone, Copy, Debug, PartialEq, Eq, Structural)]
pub enum TermStep {
    /// The wait is over, with the recorded outcome.
    Finished(TermOutcome),
    /// Keep waiting: sleep one poll interval and look again.
    PollAgain,
}

/// The decision one poll makes, `elapsed` milliseconds after the graceful
/// signal was sent: a child seen exited ends the wait cleanly; a child still
/// alive at or past the grace period is forcibly killed; otherwise poll on.
pub open spec fn spec_term_step(exited: bool, elapsed: u64, grace: u64) -> TermStep {
    if exited {
        TermStep::Finished(TermOutcome::Exited)
    } else if elapsed >= grace {
        TermStep::Finished(TermOutcome::ForceKilled)
    } else {
        TermStep::PollAgain
    }
}

/// One poll of the termination protocol.
pub fn term_step(exited: bool, elapsed: u64, grace: u64) -> (r: TermStep)
    ensures
        r == spec_term_step(exited, elapsed, grace),
{
    if exited {
        TermStep::Finished(TermOutcome::Exited)
    } else if elapsed >= grace {
        TermStep::Finished(TermOutcome::ForceKilled)
    } else {
        TermStep::PollAgain
    }
}

/// The termination protocol reports each outcome if and only if it happened:
/// a clean exit is never reported as a kill, nor a kill as a clean exit.
pub proof fn lemma_term_outcomes_distinguished(exited: bool, elapsed: u64, grace: u64)
    ensures
        spec_term_step(exited, elapsed, grace) == TermStep::Finished(TermOutcome::Exited)
            <==> exited,
        spec_term_step(exited, elapsed, grace) == TermStep::Finished(TermOutcome::ForceKilled)
            <==> (!exited && elapsed >= grace),
        spec_term_step(exited, elapsed, grace) == TermStep::PollAgain <==> (!exited && elapsed
            < grace),
{
}

/// Kill escalation never hangs: polling at interval `poll`, any schedule
/// whose last poll falls at or past the grace deadline reaches a `Finished`
/// decision, even against a child that ignores the graceful signal entirely.
/// With the poll at index `i` happening `i * poll` milliseconds after the
/// signal, a schedule of `grace / poll + 2` polls suffices, so the wait is
/// over within the grace period plus one poll interval.
pub proof fn lemma_escalation_bounded(obs: Seq<bool>, poll: u64, grace: u64)
    requires
        obs.len() >= 1,
        (obs.len() - 1) * poll as int >= grace,
        (obs.len() - 1) * poll as int <= u64::MAX,
    ensures
        exists|i: int|
            0 <= i < obs.len() && spec_term_step(obs[i], (i * poll as int) as u64, grace)
                is Finished,
        (forall|i: int| 0 <= i < obs.len() ==> !obs[i]) ==> spec_term_step(
            obs[obs.len() - 1],
            ((obs.len() - 1) * poll as int) as u64,
            grace,
        ) == TermStep::Finished(TermOutcome::ForceKilled),
{
    let last = obs.len() - 1;
    assert(spec_term_step(obs[last as int], (last * poll as int) as u64, grace) is Finished) by {
        if !obs[last as int] {
            assert((last * poll as int) as u64 >= grace);
        }
    }
}

/// What the control loop must do next, in priority order: a termination
/// request beats everything; then a child seen to have exited because a
/// signal reached it; then a due restart; otherwise wait for the next event.
#[derive(Clone, Copy, Debug, PartialEq, Eq, Structural)]
pub enum Directive {
    /// Termination was requested: signal the child group and exit with the
    /// user-shutdown code, spawning nothing further.
    SignalChildAndExit,
    /// The child exited under a signal: exit with the killed-by-signal code.
    ExitChildSignaled,
    /// A restart is due: act on the contained decision.
    Restart(RestartDecision),
    /// Nothing to do: block for the next change notification or timer tick.
    Wait,
}

/// The directive for the current loop iteration.
pub open spec fn spec_next_directive(
    term_requested: bool,
    child_exited_by_signal: bool,
    status: Status,
    busy: BusyAction,
    child_alive: bool,
) -> Directive {
    if term_requested {
        Directive::SignalChildAndExit
    } else if child_exited_by_signal {
        Directive::ExitChildSignaled
    } else if status == Status::RestartDue {
        Directive::Restart(spec_decide_restart(busy, child_alive))
    } else {
        Directive::Wait
    }
}

/// Decide the next directive of the control loop.
pub fn next_directive(
    term_requested: bool,
    child_exited_by_signal: bool,
    status: &Status,
    busy: &BusyAction,
    child_alive: bool,
) -> (d: Directive)
    ensures
        d == spec_next_directive(term_requested, child_exited_by_signal, *status, *busy,
        child_alive),
{
    if term_requested {
        Directive::SignalChildAndExit
    } else if child_exited_by_signal {
        Directive::ExitChildSignaled
    } else {
        match status {
            Status::RestartDue => Directive::Restart(decide_restart(busy, child_alive)),
            _ => Directive::Wait,
        }
    }
}

/// Once termination has been requested, no new restart is ever initiated:
/// whatever restart is pending and whatever the child is doing, the only
/// directive is to signal the child group and exit.
pub proof fn lemma_no_restart_after_terminate(
    child_exited_by_signal: bool,
    status: Status,
    busy: BusyAction,
    child_alive: bool,
)
    ensures
        spec_next_directive(true, child_exited_by_signal, status, busy, child_alive)
            == Directive::SignalChildAndExit,
{
}

/// How a whole run ends; each outcome carries its own exit code.
#[derive(Clone, Copy, Debug, PartialEq, Eq, Structural)]
pub enum RunOutcome {
    /// The loop stopped on a user termination request.
    UserShutdown,
    /// The child was detected to have been killed by a forwarded signal.
    ChildKilledBySignal,
    /// A configuration, startup-resource, or spawn error; never retried.
    FatalError,
}

/// The exit code of each outcome: all nonzero, all distinct; the
/// killed-by-signal code follows the 128-plus-signal convention for the
/// interrupt signal the run forwards on shutdown.
pub open spec fn spec_exit_code(o: RunOutcome) -> int {
    match o {
        RunOutcome::UserShutdown => 1,
        RunOutcome::ChildKilledBySignal => 130,
        RunOutcome::FatalError => 2,
    }
}

/// The process exit code for a run outcome.
pub fn exit_code_for(o: &RunOutcome) -> (c: i32)
    ensures
        c == spec_exit_code(*o),
        c != 0,
{
    match o {
        RunOutcome::UserShutdown => 1,
        RunOutcome::ChildKilledBySignal => 130,
        RunOutcome::FatalError => 2,
    }
}

/// The graceful signal the supervisor can be told to send to the child group.
#[derive(Clone, Copy, Debug, PartialEq, Eq, Structural)]
pub enum SignalChoice {
    Hangup,
    Interrupt,
    Quit,
    Terminate,
}

/// The POSIX number of each signal choice.
pub open spec fn spec_signal_number(s: SignalChoice) -> int {
    match s {
        SignalChoice::Hangup => 1,
        SignalChoice::Interrupt => 2,
        SignalChoice::Quit => 3,
        SignalChoice::Terminate => 15,
    }
}

/// The POSIX number of a signal choice.
pub fn signal_number(s: &SignalChoice) -> (n: i32)
    ensures
        n == spec_signal_number(*s),
{
    match s {
        SignalChoice::Hangup => 1,
        SignalChoice::Interrupt => 2,
        SignalChoice::Quit => 3,
        SignalChoice::Terminate => 15,
    }
}

} // verus!
