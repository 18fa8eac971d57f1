//! Signal sources: which one to build, and the push-driven one itself.
//!
//! The hardware source reads a GPIO pin and lives with the host; the
//! push-driven source holds the level last pushed to it.

use vstd::prelude::*;
use crate::status::{StatusEvent, same_text, status_name, status_of_level};

verus! {

/// A source whose current state can be read at any time.
pub trait Monitor {
    /// The state the source stands in.
    spec fn current_state(&self) -> StatusEvent;

    /// Reads the state the source stands in.
    fn get_current_state(&self) -> (r: StatusEvent)
        ensures
            r == self.current_state(),
    ;
}

/// The signal source that the settings ask for.
#[derive(Debug, Clone, Copy, PartialEq, Eq, Structural)]
pub enum MonitorKind {
    /// A GPIO pin, debounced over `debounce_ms` milliseconds.
    Gpio { pin: u8, debounce_ms: u64 },
    /// A push-driven source fed through a web page served on `port`.
    Web { port: u16 },
}

/// Why no source could be chosen.
#[derive(Debug, Clone, Copy, PartialEq, Eq, Structural)]
pub enum MonitorError {
    /// The web source was asked for without a port.
    MissingWebPort,
    /// The type is neither `gpio` nor `web`.
    UnknownMonitorType,
}

impl MonitorError {
    /// A human-readable description.
    pub fn message(&self) -> (r: &'static str)
        ensures
            r@ == match self {
                MonitorError::MissingWebPort => "Web monitor requires a port number"@,
                MonitorError::UnknownMonitorType => "Unknown monitor type"@,
            },
    {
        match self {
            MonitorError::MissingWebPort => "Web monitor requires a port number",
            MonitorError::UnknownMonitorType => "Unknown monitor type",
        }
    }
}

/// Chooses the signal source for `monitor_type`.
pub fn create_monitor(monitor_type: &str, pin_number: u8, debounce_delay: u64, web_port: Option<u16>) -> (r: Result<
    MonitorKind,
    MonitorError,
>)
    ensures
        r == (if monitor_type@ == "gpio"@ {
            Ok(MonitorKind::Gpio { pin: pin_number, debounce_ms: debounce_delay })
        } else if monitor_type@ == "web"@ {
            match web_port {
                Some(port) => Ok(MonitorKind::Web { port }),
                None => Err(MonitorError::MissingWebPort),
            }
        } else {
            Err(MonitorError::UnknownMonitorType)
        }),
{
    if same_text(monitor_type, "gpio") {
        Ok(MonitorKind::Gpio { pin: pin_number, debounce_ms: debounce_delay })
    } else if same_text(monitor_type, "web") {
        match web_port {
            Some(port) => Ok(MonitorKind::Web { port }),
            None => Err(MonitorError::MissingWebPort),
        }
    } else {
        Err(MonitorError::UnknownMonitorType)
    }
}

/// The status that a pushed message asks for: only a `state_change` event
/// whose state is `open` or `closed` counts.
pub open spec fn requested_status(event: Seq<char>, state: Seq<char>) -> Option<StatusEvent> {
    if event != "state_change"@ {
        None
    } else if state == status_name(StatusEvent::Open) {
        Some(StatusEvent::Open)
    } else if state == status_name(StatusEvent::Closed) {
        Some(StatusEvent::Closed)
    } else {
        None
    }
}

/// Reads a pushed message made of an event name and a state name.
pub fn interpret_state_message(event: &str, state: &str) -> (r: Option<StatusEvent>)
    ensures
        r == requested_status(event@, state@),
{
    if !same_text(event, "state_change") {
        return None;
    }
    StatusEvent::parse(state)
}

/// A source driven from outside: it reads the level last pushed to it, and
/// reads high (closed) until anything is pushed.
pub struct DrivenSource {
    level: bool,
}

impl View for DrivenSource {
    type V = bool;

    closed spec fn view(&self) -> bool {
        self.level
    }
}

impl DrivenSource {
    /// A source at its default level, high.
    pub fn new() -> (r: DrivenSource)
        ensures
            r@,
    {
        DrivenSource { level: true }
    }

    /// The level last pushed.
    pub fn read(&self) -> (r: bool)
        ensures
            r == self@,
    {
        self.level
    }

    /// Pushes a new level.
    pub fn set(&mut self, level: bool)
        ensures
            final(self)@ == level,
    {
        self.level = level;
    }

    /// Applies a pushed message: a valid state change sets the level and is
    /// returned; anything else leaves the source as it was.
    pub fn apply_message(&mut self, event: &str, state: &str) -> (r: Option<StatusEvent>)
        ensures
            r == requested_status(event@, state@),
            final(self)@ == match r {
                Some(s) => s == StatusEvent::Closed,
                None => old(self)@,
            },
    {
        let requested = interpret_state_message(event, state);
        if let Some(s) = requested {
            self.level = s.level();
        }
        requested
    }
}

impl Monitor for DrivenSource {
    /// The status of the level last pushed.
    open spec fn current_state(&self) -> StatusEvent {
        status_of_level(self@)
    }

    fn get_current_state(&self) -> (r: StatusEvent) {
        StatusEvent::from_level(self.level)
    }
}

} // verus!
