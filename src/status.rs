//! The confirmed state of the circuit and the cell that publishes it.

use vstd::prelude::*;
use vstd::string::*;

verus! {

/// The confirmed state of the circuit: open (raw level low) or closed (raw level high).
#[derive(Debug, Clone, Copy, PartialEq, Eq, Structural)]
pub enum StatusEvent {
    Open,
    Closed,
}

/// Another name for [`StatusEvent`], used where a circuit transition is meant.
pub type CircuitEvent = StatusEvent;

/// The lower-case name of a status, as it appears in every message.
pub open spec fn status_name(s: StatusEvent) -> Seq<char> {
    match s {
        StatusEvent::Open => "open"@,
        StatusEvent::Closed => "closed"@,
    }
}

/// The status that a raw level stands for: high is closed, low is open.
pub open spec fn status_of_level(level: bool) -> StatusEvent {
    if level {
        StatusEvent::Closed
    } else {
        StatusEvent::Open
    }
}

/// The raw level that a status stands for.
pub open spec fn level_of_status(s: StatusEvent) -> bool {
    s == StatusEvent::Closed
}

/// Whether two strings hold the same characters.
pub fn same_text(a: &str, b: &str) -> (r: bool)
    ensures
        r == (a@ == b@),
{
    a.to_owned() == b.to_owned()
}

impl StatusEvent {
    /// The lower-case name of this status.
    pub fn as_str(&self) -> (r: &'static str)
        ensures
            r@ == status_name(*self),
    {
        match self {
            StatusEvent::Open => "open",
            StatusEvent::Closed => "closed",
        }
    }

    /// The lower-case name of this status, owned.
    pub fn to_string(&self) -> (r: String)
        ensures
            r@ == status_name(*self),
    {
        self.as_str().to_owned()
    }

    /// The status that a raw level stands for.
    pub fn from_level(level: bool) -> (r: StatusEvent)
        ensures
            r == status_of_level(level),
    {
        if level {
            StatusEvent::Closed
        } else {
            StatusEvent::Open
        }
    }

    /// The raw level that this status stands for.
    pub fn level(&self) -> (r: bool)
        ensures
            r == level_of_status(*self),
    {
        match self {
            StatusEvent::Open => false,
            StatusEvent::Closed => true,
        }
    }

    /// Reads a status from its exact lower-case name.
    pub fn parse(s: &str) -> (r: Option<StatusEvent>)
        ensures
            r == (if s@ == status_name(StatusEvent::Open) {
                Some(StatusEvent::Open)
            } else if s@ == status_name(StatusEvent::Closed) {
                Some(StatusEvent::Closed)
            } else {
                None
            }),
    {
        if same_text(s, "open") {
            Some(StatusEvent::Open)
        } else if same_text(s, "closed") {
            Some(StatusEvent::Closed)
        } else {
            None
        }
    }
}

/// The last confirmed status, as external readers see it.
///
/// One writer replaces the value; readers take a copy. A host that shares it
/// between tasks puts it behind a readers-writer lock.
pub struct SharedStatus {
    current: StatusEvent,
}

impl View for SharedStatus {
    type V = StatusEvent;

    closed spec fn view(&self) -> StatusEvent {
        self.current
    }
}

impl SharedStatus {
    /// A cell holding `initial`.
    pub fn new(initial: StatusEvent) -> (r: SharedStatus)
        ensures
            r@ == initial,
    {
        SharedStatus { current: initial }
    }

    /// The value most recently set.
    pub fn get(&self) -> (r: StatusEvent)
        ensures
            r == self@,
    {
        self.current
    }

    /// Replaces the value; it always succeeds.
    pub fn set(&mut self, status: StatusEvent)
        ensures
            final(self)@ == status,
    {
        self.current = status;
    }
}

} // verus!
