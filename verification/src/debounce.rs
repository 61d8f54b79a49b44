//! The restart state machine: turns a stream of admitted change notifications
//! and debounce-timer ticks into a single, correctly timed restart decision.
//! Debouncing is quiet-period based: every admitted change re-opens the
//! window, and only a tick that finds the window `debounce` milliseconds old
//! declares a restart due.

use vstd::prelude::*;

verus! {

/// The restart status. Exactly one status is live at any instant. A run
/// starts at `RestartDue`, so the command always runs once on startup.
#[derive(Clone, Copy, Debug, PartialEq, Eq, Structural)]
pub enum Status {
    /// No restart is scheduled.
    Idle,
    /// A restart must happen now; the supervisor consumes this.
    RestartDue,
    /// A qualifying change was observed at the held time (in milliseconds);
    /// the debounce window is open.
    PendingSince(u64),
}

/// One input to the state machine, multiplexed onto a single serialized
/// stream.
#[derive(Clone, Copy, Debug, PartialEq, Eq, Structural)]
pub enum Notice {
    /// An admitted (filtered) change notification.
    Change,
    /// The debounce timer fired.
    Tick,
}

impl Status {
    /// Every admitted change, in any state, re-opens the debounce window at
    /// the current time.
    pub open spec fn spec_on_change(self, now: u64) -> Status {
        Status::PendingSince(now)
    }

    /// A timer tick declares a restart due exactly when the debounce window
    /// has been open for at least `debounce` milliseconds; in any other state
    /// it changes nothing.
    pub open spec fn spec_on_tick(self, now: u64, debounce: u64) -> Status {
        match self {
            Status::PendingSince(t) => {
                if now >= t + debounce {
                    Status::RestartDue
                } else {
                    self
                }
            },
            _ => self,
        }
    }

    /// Record an admitted change notification observed at `now`.
    pub fn on_change(self, now: u64) -> (s: Status)
        ensures
            s == self.spec_on_change(now),
    {
        Status::PendingSince(now)
    }

    /// Record a debounce-timer tick observed at `now`.
    pub fn on_tick(self, now: u64, debounce: u64) -> (s: Status)
        ensures
            s == self.spec_on_tick(now, debounce),
    {
        match self {
            Status::PendingSince(t) => {
                if now >= t && now - t >= debounce {
                    Status::RestartDue
                } else {
                    self
                }
            },
            _ => self,
        }
    }
}

/// The status a run begins with: a restart is due at once, so the command
/// always runs once on startup, before any change is observed.
pub fn initial_status() -> (s: Status)
    ensures
        s == Status::RestartDue,
{
    Status::RestartDue
}

/// One step of the machine on a timestamped input.
pub open spec fn step(s: Status, at: u64, n: Notice, debounce: u64) -> Status {
    match n {
        Notice::Change => s.spec_on_change(at),
        Notice::Tick => s.spec_on_tick(at, debounce),
    }
}

/// The state after a whole sequence of timestamped inputs.
pub open spec fn run(s: Status, evs: Seq<(u64, Notice)>, debounce: u64) -> Status
    decreases evs.len(),
{
    if evs.len() == 0 {
        s
    } else {
        run(step(s, evs.first().0, evs.first().1, debounce), evs.drop_first(), debounce)
    }
}

/// How many steps of a run transition the machine into `RestartDue` from some
/// other status.
pub open spec fn due_count(s: Status, evs: Seq<(u64, Notice)>, debounce: u64) -> nat
    decreases evs.len(),
{
    if evs.len() == 0 {
        0
    } else {
        let s1 = step(s, evs.first().0, evs.first().1, debounce);
        (if s1 is RestartDue && !(s is RestartDue) {
            1nat
        } else {
            0nat
        }) + due_count(s1, evs.drop_first(), debounce)
    }
}

/// The time of the latest change notification among the first `upto` inputs;
/// meaningful when the first input is a change.
pub open spec fn last_change_time(evs: Seq<(u64, Notice)>, upto: int) -> u64
    decreases upto,
{
    if upto <= 1 {
        evs[0].0
    } else if evs[upto - 1].1 is Change {
        evs[upto - 1].0
    } else {
        last_change_time(evs, upto - 1)
    }
}

proof fn lemma_run_concat(s: Status, a: Seq<(u64, Notice)>, b: Seq<(u64, Notice)>, db: u64)
    ensures
        run(s, a + b, db) == run(run(s, a, db), b, db),
    decreases a.len(),
{
    if a.len() == 0 {
        assert(a + b =~= b);
    } else {
        assert((a + b).first() == a.first());
        assert((a + b).drop_first() =~= a.drop_first() + b);
        lemma_run_concat(step(s, a.first().0, a.first().1, db), a.drop_first(), b, db);
    }
}

proof fn lemma_due_concat(s: Status, a: Seq<(u64, Notice)>, b: Seq<(u64, Notice)>, db: u64)
    ensures
        due_count(s, a + b, db) == due_count(s, a, db) + due_count(run(s, a, db), b, db),
    decreases a.len(),
{
    if a.len() == 0 {
        assert(a + b =~= b);
    } else {
        assert((a + b).first() == a.first());
        assert((a + b).drop_first() =~= a.drop_first() + b);
        lemma_due_concat(step(s, a.first().0, a.first().1, db), a.drop_first(), b, db);
    }
}

proof fn lemma_last_change_time_prefix(a: Seq<(u64, Notice)>, b: Seq<(u64, Notice)>, upto: int)
    requires
        1 <= upto,
        upto <= a.len(),
        upto <= b.len(),
        forall|k: int| 0 <= k < upto ==> a[k] == b[k],
    ensures
        last_change_time(a, upto) == last_change_time(b, upto),
    decreases upto,
{
    if upto > 1 {
        lemma_last_change_time_prefix(a, b, upto - 1);
    }
}

proof fn lemma_last_change_time_stable(evs: Seq<(u64, Notice)>, from: int, upto: int)
    requires
        1 <= from <= upto <= evs.len(),
        forall|j: int| from <= j < upto ==> !(evs[j].1 is Change),
    ensures
        last_change_time(evs, upto) == last_change_time(evs, from),
    decreases upto - from,
{
    if upto > from {
        lemma_last_change_time_stable(evs, from, upto - 1);
    }
}

/// During a burst that begins with a change and whose ticks all arrive within
/// `db` of the latest change so far, the machine ends pending at the latest
/// change time and never declares a restart due.
proof fn lemma_burst_pending(s0: Status, evs: Seq<(u64, Notice)>, db: u64)
    requires
        evs.len() > 0,
        evs[0].1 is Change,
        forall|j: int|
            1 <= j < evs.len() && evs[j].1 is Tick ==> (evs[j].0 as int) < last_change_time(evs, j)
                + db,
    ensures
        run(s0, evs, db) == Status::PendingSince(last_change_time(evs, evs.len() as int)),
        due_count(s0, evs, db) == 0,
    decreases evs.len(),
{
    if evs.len() == 1 {
        let s1 = step(s0, evs.first().0, evs.first().1, db);
        assert(evs.first() == evs[0]);
        assert(s1 == Status::PendingSince(evs[0].0));
        assert(evs.drop_first().len() == 0);
        assert(run(s1, evs.drop_first(), db) == s1);
        assert(due_count(s1, evs.drop_first(), db) == 0);
        assert(run(s0, evs, db) == run(s1, evs.drop_first(), db));
        assert(due_count(s0, evs, db) == due_count(s1, evs.drop_first(), db));
    } else {
        let front = evs.drop_last();
        let e = evs.last();
        assert(front[0] == evs[0]);
        assert(forall|j: int|
            1 <= j < front.len() && front[j].1 is Tick ==> (front[j].0 as int) < last_change_time(
                front,
                j,
            ) + db) by {
            assert forall|j: int| 1 <= j < front.len() && front[j].1 is Tick implies (front[j].0 as int) < last_change_time(front, j) + db by {
                lemma_last_change_time_prefix(front, evs, j);
                assert(front[j] == evs[j]);
            }
        }
        lemma_burst_pending(s0, front, db);
        lemma_last_change_time_prefix(front, evs, front.len() as int);
        let c = last_change_time(evs, front.len() as int);
        assert(run(s0, front, db) == Status::PendingSince(c));
        assert(evs =~= front + seq![e]);
        lemma_run_concat(s0, front, seq![e], db);
        lemma_due_concat(s0, front, seq![e], db);
        assert(seq![e].first() == e);
        assert(seq![e].drop_first() =~= Seq::<(u64, Notice)>::empty());
        reveal_with_fuel(run, 2);
        reveal_with_fuel(due_count, 2);
        let s1 = step(Status::PendingSince(c), e.0, e.1, db);
        assert(run(Status::PendingSince(c), seq![e], db) == s1);
        assert(due_count(Status::PendingSince(c), seq![e], db) == (if s1 is RestartDue {
            1nat
        } else {
            0nat
        }));
        if e.1 is Change {
            assert(last_change_time(evs, evs.len() as int) == e.0);
            assert(s1 == Status::PendingSince(e.0));
        } else {
            assert(e == evs[evs.len() - 1]);
            assert((e.0 as int) < last_change_time(evs, evs.len() - 1) + db);
            assert(last_change_time(evs, evs.len() as int) == c);
            assert(s1 == Status::PendingSince(c));
        }
        assert(run(s0, evs, db) == s1);
        assert(due_count(s0, evs, db) == 0);
    }
}

/// Ticks that all arrive before the deadline leave an open window untouched.
proof fn lemma_ticks_quiet(c: u64, evs: Seq<(u64, Notice)>, db: u64)
    requires
        forall|j: int| 0 <= j < evs.len() ==> evs[j].1 is Tick,
        forall|j: int| 0 <= j < evs.len() ==> (evs[j].0 as int) < c + db,
    ensures
        run(Status::PendingSince(c), evs, db) == Status::PendingSince(c),
        due_count(Status::PendingSince(c), evs, db) == 0,
    decreases evs.len(),
{
    if evs.len() > 0 {
        assert(evs[0].1 is Tick);
        lemma_ticks_quiet(c, evs.drop_first(), db);
    }
}

/// Once a restart is due, further ticks neither lose it nor declare another.
proof fn lemma_ticks_inert(evs: Seq<(u64, Notice)>, db: u64)
    requires
        forall|j: int| 0 <= j < evs.len() ==> evs[j].1 is Tick,
    ensures
        run(Status::RestartDue, evs, db) == Status::RestartDue,
        due_count(Status::RestartDue, evs, db) == 0,
    decreases evs.len(),
{
    if evs.len() > 0 {
        lemma_ticks_inert(evs.drop_first(), db);
    }
}

/// Debounce correctness, quiet outcome: a burst of admitted changes, each
/// arriving (as do any interleaved ticks) within `db` of the latest change so
/// far, followed only by ticks that all come before the deadline of the last
/// change, produces no `RestartDue` transition at all: the machine is still
/// pending at the time of the last change.
pub proof fn lemma_debounce_burst_coalesces(
    s0: Status,
    evs: Seq<(u64, Notice)>,
    db: u64,
    last_change: int,
)
    requires
        0 <= last_change < evs.len(),
        evs[0].1 is Change,
        evs[last_change].1 is Change,
        forall|j: int| last_change < j < evs.len() ==> evs[j].1 is Tick,
        forall|j: int|
            1 <= j <= last_change && evs[j].1 is Tick ==> (evs[j].0 as int) < last_change_time(
                evs,
                j,
            ) + db,
        forall|j: int|
            last_change < j < evs.len() ==> (evs[j].0 as int) < last_change_time(
                evs,
                last_change + 1,
            ) + db,
    ensures
        due_count(s0, evs, db) == 0,
        run(s0, evs, db) == Status::PendingSince(last_change_time(evs, last_change + 1)),
{
    assert(forall|j: int|
        1 <= j < evs.len() && evs[j].1 is Tick ==> (evs[j].0 as int) < last_change_time(evs, j)
            + db) by {
        assert forall|j: int| 1 <= j < evs.len() && evs[j].1 is Tick implies (evs[j].0 as int)
            < last_change_time(evs, j) + db by {
            if j > last_change {
                lemma_last_change_time_stable(evs, last_change + 1, j);
            }
        }
    }
    lemma_burst_pending(s0, evs, db);
    lemma_last_change_time_stable(evs, last_change + 1, evs.len() as int);
}

/// Debounce correctness, firing outcome: a burst as above followed by ticks,
/// where the ticks strictly before index `fire` come before the deadline of
/// the last change and the tick at `fire` comes at or after it, produces
/// exactly one `RestartDue` transition, and it happens exactly at `fire`: one
/// step earlier the machine was still pending at the last change time.
pub proof fn lemma_debounce_exactly_one_restart(
    s0: Status,
    evs: Seq<(u64, Notice)>,
    db: u64,
    last_change: int,
    fire: int,
)
    requires
        0 <= last_change < fire < evs.len(),
        evs[0].1 is Change,
        evs[last_change].1 is Change,
        forall|j: int| last_change < j < evs.len() ==> evs[j].1 is Tick,
        forall|j: int|
            1 <= j <= last_change && evs[j].1 is Tick ==> (evs[j].0 as int) < last_change_time(
                evs,
                j,
            ) + db,
        forall|j: int|
            last_change < j < fire ==> (evs[j].0 as int) < last_change_time(evs, last_change + 1)
                + db,
        (evs[fire].0 as int) >= last_change_time(evs, last_change + 1) + db,
    ensures
        due_count(s0, evs, db) == 1,
        run(s0, evs, db) == Status::RestartDue,
        run(s0, evs.subrange(0, fire), db) == Status::PendingSince(
            last_change_time(evs, last_change + 1),
        ),
        step(
            Status::PendingSince(last_change_time(evs, last_change + 1)),
            evs[fire].0,
            evs[fire].1,
            db,
        ) == Status::RestartDue,
{
    let c = last_change_time(evs, last_change + 1);
    let burst = evs.subrange(0, last_change + 1);
    let quiet = evs.subrange(last_change + 1, fire);
    let rest = evs.subrange(fire + 1, evs.len() as int);

    // The burst leaves the machine pending at `c`.
    assert(burst[0] == evs[0]);
    assert(forall|j: int|
        1 <= j < burst.len() && burst[j].1 is Tick ==> (burst[j].0 as int) < last_change_time(
            burst,
            j,
        ) + db) by {
        assert forall|j: int| 1 <= j < burst.len() && burst[j].1 is Tick implies (burst[j].0 as int) < last_change_time(burst, j) + db by {
            lemma_last_change_time_prefix(burst, evs, j);
        }
    }
    lemma_burst_pending(s0, burst, db);
    lemma_last_change_time_prefix(burst, evs, last_change + 1);
    assert(run(s0, burst, db) == Status::PendingSince(c));
    assert(due_count(s0, burst, db) == 0);

    // The ticks before `fire` leave the window open.
    lemma_ticks_quiet(c, quiet, db);

    // Up to `fire`, the machine is still pending at `c`.
    assert(evs.subrange(0, fire) =~= burst + quiet);
    lemma_run_concat(s0, burst, quiet, db);
    lemma_due_concat(s0, burst, quiet, db);
    assert(run(s0, evs.subrange(0, fire), db) == Status::PendingSince(c));
    assert(due_count(s0, evs.subrange(0, fire), db) == 0);

    // The tick at `fire` declares the restart due.
    let s_fire = step(Status::PendingSince(c), evs[fire].0, evs[fire].1, db);
    assert(s_fire == Status::RestartDue);

    // Later ticks change nothing.
    lemma_ticks_inert(rest, db);
    assert(evs =~= evs.subrange(0, fire) + (seq![evs[fire]] + rest));
    lemma_run_concat(s0, evs.subrange(0, fire), seq![evs[fire]] + rest, db);
    lemma_due_concat(s0, evs.subrange(0, fire), seq![evs[fire]] + rest, db);
    assert((seq![evs[fire]] + rest).first() == evs[fire]);
    assert((seq![evs[fire]] + rest).drop_first() =~= rest);
    assert(run(Status::PendingSince(c), seq![evs[fire]] + rest, db) == Status::RestartDue);
    assert(due_count(Status::PendingSince(c), seq![evs[fire]] + rest, db) == 1);
}

} // verus!
