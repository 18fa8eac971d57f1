use noisebell::status::{SharedStatus, StatusEvent, CircuitEvent};

#[test]
fn names_are_lower_case() {
    assert_eq!(StatusEvent::Open.as_str(), "open");
    assert_eq!(StatusEvent::Closed.to_string(), "closed");
}

#[test]
fn parse_accepts_exact_names_only() {
    assert_eq!(StatusEvent::parse("open"), Some(StatusEvent::Open));
    assert_eq!(StatusEvent::parse("closed"), Some(StatusEvent::Closed));
    assert_eq!(StatusEvent::parse("Closed"), None);
    assert_eq!(StatusEvent::parse(""), None);
}

#[test]
fn levels_map_to_states() {
    assert_eq!(StatusEvent::from_level(true), StatusEvent::Closed);
    assert_eq!(StatusEvent::from_level(false), StatusEvent::Open);
    assert!(StatusEvent::Closed.level());
    assert!(!CircuitEvent::Open.level());
}

#[test]
fn readers_see_last_write() {
    let mut status = SharedStatus::new(StatusEvent::Open);
    status.set(StatusEvent::Closed);
    for _ in 0..8 {
        assert_eq!(status.get(), StatusEvent::Closed);
    }
    status.set(StatusEvent::Open);
    status.set(StatusEvent::Closed);
    assert_eq!(status.get(), StatusEvent::Closed);
}

#[test]
fn concurrent_readers_see_last_write() {
    let shared = std::sync::RwLock::new(SharedStatus::new(StatusEvent::Open));
    shared.write().unwrap().set(StatusEvent::Closed);
    {
        let first = shared.read().unwrap();
        let second = shared.read().unwrap();
        let third = shared.read().unwrap();
        assert_eq!(first.get(), StatusEvent::Closed);
        assert_eq!(second.get(), StatusEvent::Closed);
        assert_eq!(third.get(), StatusEvent::Closed);
    }
    shared.write().unwrap().set(StatusEvent::Open);
    shared.write().unwrap().set(StatusEvent::Closed);
    assert_eq!(shared.read().unwrap().get(), StatusEvent::Closed);
}
