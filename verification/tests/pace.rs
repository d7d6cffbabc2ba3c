//! The order of things in the loops.

use varde::pace::{next_step, Loop, Step};
use varde::schedule::parse;
use varde::time::Timestamp;

fn steps(kind: Loop, n: usize) -> Vec<Step> {
    let mut out: Vec<Step> = vec![];
    for _ in 0..n {
        out.push(next_step(kind, out.last().copied()));
    }
    out
}

#[test]
fn checks_run_at_once_and_then_on_schedule() {
    assert_eq!(
        steps(Loop::Check, 5),
        vec![Step::Run, Step::Wait, Step::Run, Step::Wait, Step::Run]
    );
}

#[test]
fn heartbeat_and_notify_first_wait_for_an_occurrence() {
    for kind in [Loop::Heartbeat, Loop::Notify] {
        assert_eq!(
            steps(kind, 4),
            vec![Step::Wait, Step::Run, Step::Wait, Step::Run]
        );
    }
}

#[test]
fn a_long_run_skips_what_it_missed() {
    // Due at :10; the run takes until :37, so that :20 and :30 are skipped.
    let schedule = parse("every 10 seconds").unwrap();
    let ended = Timestamp::from_second(1_784_376_037).unwrap();
    let (next, wait) = schedule.wait_after(ended).unwrap();
    assert_eq!(next.as_second(), 1_784_376_040);
    assert_eq!(wait, 3_000_000_000);
}
