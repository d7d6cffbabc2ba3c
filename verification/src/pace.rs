//! The order of things in a loop: what it does first, and what comes next.

use vstd::prelude::*;

use crate::schedule;
use crate::time;

verus! {

/// The loops of the monitor: one per service, one for the heartbeat, one per notify entry.
#[derive(Debug, Clone, Copy, PartialEq, Eq)]
pub enum Loop {
    Check,
    Heartbeat,
    Notify,
}

/// What a loop does.
#[derive(Debug, Clone, Copy, PartialEq, Eq)]
pub enum Step {
    /// A check or a tick.
    Run,
    /// Waiting for the next scheduled occurrence, counted from now.
    Wait,
}

/// What a loop does after `previous`; `None` is at startup. A service is checked at once;
/// the heartbeat and the notify entries wait for their first scheduled occurrence, which
/// gives the initial round of checks time to land. From then on, running and waiting
/// alternate.
pub open spec fn step_after(kind: Loop, previous: Option<Step>) -> Step {
    match previous {
        None => match kind {
            Loop::Check => Step::Run,
            Loop::Heartbeat | Loop::Notify => Step::Wait,
        },
        Some(Step::Run) => Step::Wait,
        Some(Step::Wait) => Step::Run,
    }
}

pub fn next_step(kind: Loop, previous: Option<Step>) -> (r: Step)
    ensures
        r == step_after(kind, previous),
{
    match previous {
        None => match kind {
            Loop::Check => Step::Run,
            Loop::Heartbeat | Loop::Notify => Step::Wait,
        },
        Some(Step::Run) => Step::Wait,
        Some(Step::Wait) => Step::Run,
    }
}

/// Step `n` of a loop.
pub open spec fn step_at(kind: Loop, n: nat) -> Step
    decreases n,
{
    if n == 0 {
        step_after(kind, None)
    } else {
        step_after(kind, Some(step_at(kind, (n - 1) as nat)))
    }
}

/// A loop runs at every other step: a check loop from the first step on, any other from
/// the second.
pub proof fn law_runs_and_waits_alternate(kind: Loop, n: nat)
    ensures
        step_at(kind, n) == Step::Run <==> (n % 2 == 0 <==> kind == Loop::Check),
    decreases n,
{
    if n > 0 {
        law_runs_and_waits_alternate(kind, (n - 1) as nat);
    }
}

/// The instant, in nanoseconds from the Unix epoch, that run `i` of a loop is due at: the
/// loop was started at `started`, its schedule has an interval of `interval` seconds, and
/// run `k` ended at `ends[k]`. A run that comes first is due at once; one that comes after
/// a wait is due when the wait is over.
pub open spec fn due(kind: Loop, interval: int, started: int, ends: Seq<int>, i: int) -> int {
    if i > 0 {
        schedule::following(ends[i - 1], interval)
    } else if step_at(kind, 0) == Step::Run {
        started
    } else {
        schedule::following(started, interval)
    }
}

/// A service is checked once immediately at startup.
pub proof fn law_first_check_is_due_at_once(interval: int, started: int, ends: Seq<int>)
    ensures
        due(Loop::Check, interval, started, ends, 0) == started,
{
}

/// A heartbeat or notify entry is first due at the first scheduled occurrence after
/// startup, and not before.
pub proof fn law_first_tick_is_due_on_schedule(
    kind: Loop,
    interval: int,
    started: int,
    ends: Seq<int>,
)
    requires
        kind != Loop::Check,
        interval >= 1,
    ensures
        due(kind, interval, started, ends, 0) == schedule::following(started, interval),
        due(kind, interval, started, ends, 0) > started,
{
    schedule::law_next_occurrence(started, interval);
}

/// Every run but the first check is due at a scheduled occurrence.
pub proof fn law_runs_are_due_on_schedule(
    kind: Loop,
    interval: int,
    started: int,
    ends: Seq<int>,
    i: int,
)
    requires
        interval >= 1,
        0 <= i <= ends.len(),
        i > 0 || kind != Loop::Check,
    ensures
        due(kind, interval, started, ends, i) % (interval * time::NANOS_PER_SECOND) == 0,
{
    if i > 0 {
        schedule::law_next_occurrence(ends[i - 1], interval);
    } else {
        schedule::law_next_occurrence(started, interval);
    }
}

/// A run that takes long delays its successor: it is due strictly after the run has ended,
/// so that runs never overlap and the occurrences missed in the meantime are skipped. It is
/// due at the very next occurrence: none is skipped after the run has ended.
pub proof fn law_missed_occurrences_are_skipped(
    kind: Loop,
    interval: int,
    started: int,
    ends: Seq<int>,
    i: int,
    occurrence: int,
)
    requires
        interval >= 1,
        0 < i <= ends.len(),
        occurrence % (interval * time::NANOS_PER_SECOND) == 0,
    ensures
        due(kind, interval, started, ends, i) > ends[i - 1],
        occurrence > ends[i - 1] ==> due(kind, interval, started, ends, i) <= occurrence,
{
    schedule::law_next_occurrence(ends[i - 1], interval);
}

/// A check loop starts with a run, any other with a wait; then they take turns.
pub proof fn law_next_step(kind: Loop, previous: Option<Step>, r: Step)
    requires
        call_ensures(next_step, (kind, previous), r),
    ensures
        previous is None ==> (r == Step::Run <==> kind == Loop::Check),
        previous matches Some(step) ==> r != step,
        r == step_after(kind, previous),
{
}

} // verus!
