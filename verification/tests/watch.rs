use packler::watch::{Arrival, WatchAction, WatchLoop, DEBOUNCE_MILLIS};

#[test]
fn window_is_two_seconds() {
    assert_eq!(DEBOUNCE_MILLIS, 2000);
}

#[test]
fn event_within_window_is_discarded() {
    let state = WatchLoop::new(10_000);
    assert_eq!(state.on_event(10_000), WatchAction::Discard);
    assert_eq!(state.on_event(11_999), WatchAction::Discard);
    assert_eq!(state.on_event(12_000), WatchAction::Discard);
}

#[test]
fn event_after_window_rebuilds() {
    let state = WatchLoop::new(10_000);
    assert_eq!(state.on_event(12_001), WatchAction::Rebuild);
    assert_eq!(state.on_event(u64::MAX), WatchAction::Rebuild);
}

#[test]
fn clock_that_did_not_advance_discards() {
    let state = WatchLoop::new(10_000);
    assert_eq!(state.on_event(5), WatchAction::Discard);
}

#[test]
fn window_restarts_when_rebuild_ends() {
    let mut state = WatchLoop::new(0);
    assert_eq!(state.on_event(3_000), WatchAction::Rebuild);
    state.rebuilt(4_500);
    assert_eq!(state.on_event(5_100), WatchAction::Discard);
    assert_eq!(state.on_event(6_500), WatchAction::Discard);
    assert_eq!(state.on_event(6_501), WatchAction::Rebuild);
}

#[test]
fn burst_gives_one_rebuild() {
    let mut state = WatchLoop::new(0);
    let burst: Vec<Arrival> = (0..50)
        .map(|i| Arrival { at: 5_000 + i * 10, rebuilt_at: 5_000 + i * 10 + 300 })
        .collect();
    assert_eq!(state.replay(&burst), 1);
}

#[test]
fn later_event_gives_new_rebuild() {
    let mut state = WatchLoop::new(0);
    let batches = vec![
        Arrival { at: 5_000, rebuilt_at: 5_300 },
        Arrival { at: 5_010, rebuilt_at: 5_310 },
        Arrival { at: 7_300, rebuilt_at: 7_600 },
        Arrival { at: 7_301, rebuilt_at: 7_601 },
        Arrival { at: 9_000, rebuilt_at: 9_300 },
    ];
    assert_eq!(state.replay(&batches), 2);
    assert_eq!(state.on_event(10_001), WatchAction::Rebuild);
}

#[test]
fn discarded_event_is_lost_not_deferred() {
    let mut state = WatchLoop::new(0);
    let first = Arrival { at: 2_500, rebuilt_at: 2_600 };
    assert_eq!(state.step(&first), WatchAction::Rebuild);
    let second = Arrival { at: 3_000, rebuilt_at: 3_100 };
    assert_eq!(state.step(&second), WatchAction::Discard);
    // Nothing is pending: with no further batch, nothing rebuilds.
    assert_eq!(state.replay(&Vec::new()), 0);
    // The window still counts from the first rebuild.
    assert_eq!(state.on_event(4_600), WatchAction::Discard);
    assert_eq!(state.on_event(4_601), WatchAction::Rebuild);
}

#[test]
fn replay_of_nothing_rebuilds_nothing() {
    let mut state = WatchLoop::new(7);
    assert_eq!(state.replay(&Vec::new()), 0);
    assert_eq!(state, WatchLoop::new(7));
}
