use orphan_sweep::schedule::Cooldown;
use orphan_sweep::schedule::Decision;
use orphan_sweep::schedule::WakeEvent;
use orphan_sweep::schedule::run_wakes;

#[test]
fn invoke_burst_within_window_is_coalesced() {
    // Requests landing within ten seconds of the last completed sweep start
    // no sweep at all.
    let c = Cooldown::new(0);
    let events = vec![
        (WakeEvent::Signal, 1_000),
        (WakeEvent::Signal, 2_000),
        (WakeEvent::Signal, 9_999),
        (WakeEvent::Signal, 10_000),
    ];
    let (after, sweeps) = run_wakes(c, &events);
    assert_eq!(sweeps, 0);
    assert_eq!(after.last_done_ms, 0);
}

#[test]
fn burst_after_window_starts_one_sweep() {
    // Once the window has elapsed, a drained burst of queued requests starts
    // exactly one further sweep.
    let c = Cooldown::new(0);
    let events = vec![
        (WakeEvent::Signal, 10_001),
        (WakeEvent::Signal, 10_002),
        (WakeEvent::Signal, 10_003),
        (WakeEvent::Signal, 10_004),
    ];
    let (after, sweeps) = run_wakes(c, &events);
    assert_eq!(sweeps, 1);
    assert_eq!(after.last_done_ms, 10_001);
}

#[test]
fn startup_flood_is_coalesced_to_nothing() {
    // The cooldown is seeded with the creation time, so a flood of requests
    // in the first ten seconds starts no sweep.
    let c = Cooldown::new(5_000);
    let events = vec![
        (WakeEvent::Signal, 6_000),
        (WakeEvent::Signal, 9_000),
        (WakeEvent::Signal, 14_999),
    ];
    let (_, sweeps) = run_wakes(c, &events);
    assert_eq!(sweeps, 0);
}

#[test]
fn spaced_wakeups_each_sweep() {
    let c = Cooldown::new(0);
    let events = vec![
        (WakeEvent::Tick, 60_000),
        (WakeEvent::Tick, 120_000),
        (WakeEvent::Signal, 140_000),
    ];
    let (after, sweeps) = run_wakes(c, &events);
    assert_eq!(sweeps, 3);
    assert_eq!(after.last_done_ms, 140_000);
}

#[test]
fn window_boundary_is_strict() {
    // Eligibility needs strictly more than the window: at exactly ten
    // seconds nothing fires, one millisecond later it does.
    let c = Cooldown::new(0);
    assert!(!c.eligible(10_000));
    assert!(c.eligible(10_001));
    assert!(!c.eligible(0));
}

#[test]
fn decisions_on_wakeups() {
    let c = Cooldown::new(0);
    assert_eq!(c.on_wake(WakeEvent::Tick, 60_000), Decision::StartSweep);
    assert_eq!(c.on_wake(WakeEvent::Signal, 60_000), Decision::StartSweep);
    assert_eq!(c.on_wake(WakeEvent::Tick, 9_000), Decision::Skip);
    assert_eq!(c.on_wake(WakeEvent::Closed, 9_000), Decision::Terminate);
    assert_eq!(c.on_wake(WakeEvent::Closed, 60_000), Decision::Terminate);
}

#[test]
fn record_sweep_done_moves_the_window() {
    let mut c = Cooldown::new(0);
    c.record_sweep_done(30_000);
    assert_eq!(c.last_done_ms, 30_000);
    assert!(!c.eligible(39_000));
    assert!(c.eligible(40_001));
}

#[test]
fn closure_terminates_without_cancelling_prior_work() {
    // A sweep decided before the closure still counts; events after the
    // closure are never processed.
    let c = Cooldown::new(0);
    let events = vec![
        (WakeEvent::Signal, 20_000),
        (WakeEvent::Closed, 20_001),
        (WakeEvent::Signal, 99_000),
    ];
    let (after, sweeps) = run_wakes(c, &events);
    assert_eq!(sweeps, 1);
    assert_eq!(after.last_done_ms, 20_000);
}

#[test]
fn closure_first_stops_everything() {
    let c = Cooldown::new(0);
    let events = vec![(WakeEvent::Closed, 5), (WakeEvent::Signal, 99_000)];
    let (after, sweeps) = run_wakes(c, &events);
    assert_eq!(sweeps, 0);
    assert_eq!(after.last_done_ms, 0);
}
