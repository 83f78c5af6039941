//! Sampling cadence: timer accounting in `SampleTicker` and `RetryTimer`.

use zj_sysinfo::{Duration, RetryTimer, SampleTicker, TimerAction};

fn tick() -> Duration {
    Duration::from_secs(2)
}

fn ticker() -> SampleTicker {
    SampleTicker::new(tick())
}

#[test]
fn duplicate_timer_events_do_not_fork_the_tick_loop() {
    let mut ticker = ticker();

    assert_eq!(ticker.start(), Some(Duration::zero()));
    assert_eq!(ticker.on_timer(), TimerAction::RunCycle);
    // Second event lands mid-cycle: no nested cycle, and the completion
    // below still owes a replacement timer.
    assert_eq!(ticker.on_timer(), TimerAction::Ignore);
    assert_eq!(ticker.on_cycle_completed(), Some(tick()));
    assert_eq!(ticker.on_timer(), TimerAction::RunCycle);
}

#[test]
fn retry_timer_fires_once_per_arming() {
    let mut retry = RetryTimer::new(tick());

    assert!(!retry.on_timer(), "unsolicited event must not fire");
    assert_eq!(retry.arm(), tick());
    assert!(retry.on_timer());
    assert!(!retry.on_timer(), "duplicate event must not fire");

    assert_eq!(retry.arm(), tick());
    assert!(retry.on_timer());
}

#[test]
fn completed_cycle_asks_for_a_full_interval() {
    let mut ticker = ticker();

    ticker.start();
    assert_eq!(ticker.on_timer(), TimerAction::RunCycle);
    // The next deadline starts when the work finished, so however long the
    // cycle took cannot eat into the following interval.
    assert_eq!(ticker.on_cycle_completed(), Some(tick()));
}

#[test]
fn concurrent_schedules_collapse_into_one_cycle() {
    let mut ticker = ticker();

    ticker.start();
    // Publication retry and probe retry each arm their own timer.
    ticker.note_schedule();
    ticker.note_schedule();

    assert_eq!(ticker.on_timer(), TimerAction::RunCycle);
    assert_eq!(
        ticker.on_cycle_completed(),
        None,
        "two timers are still outstanding; arming a third would compound"
    );
    assert_eq!(ticker.on_timer(), TimerAction::RunCycle);
    assert_eq!(ticker.on_cycle_completed(), None);
    assert_eq!(ticker.on_timer(), TimerAction::RunCycle);
    assert_eq!(
        ticker.on_cycle_completed(),
        Some(tick()),
        "last outstanding timer consumed, so the loop must re-arm"
    );
}

/// One-shot timers and a clock that restarts: a ticker that waits without an
/// outstanding timer would stay silent for the whole session.
#[test]
fn ticker_never_strands_itself_without_a_pending_timer() {
    let mut idle = ticker();
    assert!(!idle.is_deadlocked());
    idle.start();
    assert!(!idle.is_deadlocked());

    // Every reachable interleaving of the three inputs, to a depth that
    // covers each phase transition more than once.
    for step in 0..3usize.pow(6) {
        let mut ticker = ticker();
        ticker.start();
        let mut code = step;
        for _ in 0..6 {
            match code % 3 {
                0 => {
                    if ticker.on_timer() == TimerAction::RunCycle {
                        if let Some(delay) = ticker.on_cycle_completed() {
                            assert_eq!(delay, tick());
                        }
                    } else if let Some(delay) = ticker.ensure_armed() {
                        assert_eq!(delay, tick());
                    }
                }
                1 => ticker.note_schedule(),
                _ => {
                    if let Some(delay) = ticker.ensure_armed() {
                        assert_eq!(delay, tick());
                    }
                }
            }
            code /= 3;
            assert!(
                !ticker.is_deadlocked(),
                "armed with no outstanding timer at step {step}: {ticker:?}"
            );
        }
    }
}

#[test]
fn a_started_ticker_does_not_start_again() {
    let mut ticker = ticker();

    assert_eq!(ticker.start(), Some(Duration::zero()));
    assert_eq!(ticker.start(), None);
    assert_eq!(ticker.outstanding(), 1);
}

#[test]
fn an_idle_ticker_ignores_timers() {
    let mut ticker = ticker();

    assert_eq!(ticker.on_timer(), TimerAction::Ignore);
    assert_eq!(ticker.outstanding(), 0);
    assert_eq!(ticker.ensure_armed(), None);
    assert!(!ticker.is_deadlocked());
}

#[test]
fn an_event_that_runs_no_cycle_is_made_up_for() {
    let mut ticker = ticker();

    ticker.start();
    assert_eq!(ticker.on_timer(), TimerAction::RunCycle);
    assert!(ticker.is_cycle_pending());
    assert!(ticker.is_deadlocked(), "nothing armed until the cycle completes");
    assert_eq!(ticker.ensure_armed(), None, "the pending cycle will arm one");
    assert_eq!(ticker.on_cycle_completed(), Some(tick()));
    assert!(!ticker.is_cycle_pending());
    assert_eq!(ticker.ensure_armed(), None, "a timer is outstanding");
    assert_eq!(ticker.outstanding(), 1);
}

#[test]
fn every_duplicate_event_is_covered_by_the_completion() {
    let mut ticker = ticker();

    ticker.start();
    ticker.note_schedule();
    ticker.note_schedule();
    assert_eq!(ticker.on_timer(), TimerAction::RunCycle);
    for left in [1, 0, 0, 0] {
        assert_eq!(ticker.on_timer(), TimerAction::Ignore);
        assert_eq!(ticker.outstanding(), left);
    }
    assert_eq!(ticker.on_cycle_completed(), Some(tick()));
}

#[test]
fn a_retry_timer_armed_twice_fires_once() {
    let mut retry = RetryTimer::new(Duration::from_millis(1_500));

    assert_eq!(retry.arm(), Duration::from_millis(1_500));
    assert_eq!(retry.arm(), Duration::from_millis(1_500));
    assert!(retry.on_timer());
    assert!(!retry.on_timer());
}
