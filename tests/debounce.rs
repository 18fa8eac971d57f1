use noisebell::debounce::{DebounceEngine, DebounceState};
use noisebell::status::StatusEvent;

fn samples(levels: &[bool], start: u64, period: u64) -> Vec<(bool, u64)> {
    levels.iter().enumerate().map(|(i, l)| (*l, start + period * i as u64)).collect()
}

#[test]
fn starts_in_sampled_state_without_event() {
    let (engine, event) = DebounceEngine::new(true, 1000, false);
    assert_eq!(event, None);
    assert_eq!(engine.state(), DebounceState::Closed);
    assert_eq!(engine.confirmed(), StatusEvent::Closed);
    let (engine, event) = DebounceEngine::new(false, 1000, false);
    assert_eq!(event, None);
    assert_eq!(engine.state(), DebounceState::Idle);
}

#[test]
fn startup_state_reported_when_asked() {
    let (_, event) = DebounceEngine::new(true, 1000, true);
    assert_eq!(event, Some(StatusEvent::Closed));
    let (_, event) = DebounceEngine::new(false, 1000, true);
    assert_eq!(event, Some(StatusEvent::Open));
}

#[test]
fn steady_high_closes_once_at_fast_rate() {
    let (mut engine, _) = DebounceEngine::new(false, 1000, false);
    let events = engine.feed(&samples(&[true; 30], 0, 100));
    assert_eq!(events, vec![StatusEvent::Closed]);
    assert_eq!(engine.state(), DebounceState::Closed);
}

#[test]
fn steady_high_closes_once_at_slow_rate() {
    let (mut engine, _) = DebounceEngine::new(false, 1000, false);
    let events = engine.feed(&samples(&[true; 4], 0, 600));
    assert_eq!(events, vec![StatusEvent::Closed]);
}

#[test]
fn closing_fires_on_first_sample_past_window() {
    let (mut engine, _) = DebounceEngine::new(false, 1000, false);
    assert_eq!(engine.sample(true, 5000), None);
    assert_eq!(engine.state(), DebounceState::ConfirmingClosed { since: 5000 });
    assert_eq!(engine.sample(true, 5999), None);
    assert_eq!(engine.sample(true, 6000), Some(StatusEvent::Closed));
    assert_eq!(engine.sample(true, 9000), None);
}

#[test]
fn short_dip_from_closed_produces_nothing() {
    let (mut engine, _) = DebounceEngine::new(true, 1000, false);
    let mut levels = vec![false; 9];
    levels.extend([true; 5]);
    let events = engine.feed(&samples(&levels, 10_000, 100));
    assert!(events.is_empty());
    assert_eq!(engine.state(), DebounceState::Closed);
    assert_eq!(engine.confirmed(), StatusEvent::Closed);
}

#[test]
fn long_dip_from_closed_opens() {
    let (mut engine, _) = DebounceEngine::new(true, 1000, false);
    let events = engine.feed(&samples(&[false; 12], 0, 100));
    assert_eq!(events, vec![StatusEvent::Open]);
    assert_eq!(engine.state(), DebounceState::Idle);
}

#[test]
fn glitches_shorter_than_window_never_fire() {
    let (mut engine, _) = DebounceEngine::new(false, 1000, false);
    let levels = [true, true, false, true, true, true, false, true, false, false];
    let events = engine.feed(&samples(&levels, 0, 300));
    assert!(events.is_empty());
    assert_eq!(engine.confirmed(), StatusEvent::Open);
}

#[test]
fn clock_going_back_does_not_confirm() {
    let (mut engine, _) = DebounceEngine::new(false, 1000, false);
    assert_eq!(engine.sample(true, 5000), None);
    assert_eq!(engine.sample(true, 100), None);
    assert_eq!(engine.state(), DebounceState::ConfirmingClosed { since: 5000 });
}

#[test]
fn full_cycle_open_closed_open() {
    let (mut engine, _) = DebounceEngine::new(false, 500, false);
    let mut levels = vec![true; 10];
    levels.extend([false; 10]);
    let events = engine.feed(&samples(&levels, 0, 100));
    assert_eq!(events, vec![StatusEvent::Closed, StatusEvent::Open]);
    assert_eq!(engine.window_ms(), 500);
}

#[test]
fn several_short_flips_from_closed_are_ignored() {
    let (mut engine, _) = DebounceEngine::new(true, 1000, false);
    let levels = [false, false, true, false, true, true, false, false, false, true];
    let events = engine.feed(&samples(&levels, 0, 300));
    assert!(events.is_empty());
    assert_eq!(engine.state(), DebounceState::Closed);
}
