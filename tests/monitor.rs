use noisebell::monitor::{create_monitor, interpret_state_message, DrivenSource, Monitor, MonitorError, MonitorKind};
use noisebell::status::StatusEvent;

#[test]
fn gpio_monitor_chosen() {
    assert_eq!(create_monitor("gpio", 17, 5000, None), Ok(MonitorKind::Gpio { pin: 17, debounce_ms: 5000 }));
}

#[test]
fn web_monitor_needs_port() {
    assert_eq!(create_monitor("web", 17, 5000, Some(8080)), Ok(MonitorKind::Web { port: 8080 }));
    assert_eq!(create_monitor("web", 17, 5000, None), Err(MonitorError::MissingWebPort));
    assert_eq!(MonitorError::MissingWebPort.message(), "Web monitor requires a port number");
}

#[test]
fn unknown_monitor_type() {
    assert_eq!(create_monitor("serial", 17, 5000, Some(1)), Err(MonitorError::UnknownMonitorType));
}

#[test]
fn state_messages() {
    assert_eq!(interpret_state_message("state_change", "open"), Some(StatusEvent::Open));
    assert_eq!(interpret_state_message("state_change", "closed"), Some(StatusEvent::Closed));
    assert_eq!(interpret_state_message("state_update", "open"), None);
    assert_eq!(interpret_state_message("state_change", "ajar"), None);
}

#[test]
fn driven_source_defaults_closed_and_follows_pushes() {
    let mut s = DrivenSource::new();
    assert!(s.read());
    assert_eq!(s.get_current_state(), StatusEvent::Closed);
    assert_eq!(s.apply_message("state_change", "open"), Some(StatusEvent::Open));
    assert!(!s.read());
    assert_eq!(s.apply_message("state_change", "bogus"), None);
    assert!(!s.read());
    s.set(true);
    assert_eq!(s.get_current_state(), StatusEvent::Closed);
}
