//! The debounce state machine: noisy periodic samples in, confirmed
//! transitions out.
//!
//! Time is a monotonic count of milliseconds supplied by the caller with each
//! sample. A candidate transition is timed from the instant it was first
//! observed, never from the previous sample.

use vstd::prelude::*;
use crate::status::{StatusEvent, status_of_level, level_of_status};

verus! {

/// Where the machine stands. `Idle` is the confirmed open state; `Closed`
/// the confirmed closed one. A confirming state remembers when its candidate
/// level was first seen.
#[derive(Debug, Clone, Copy, PartialEq, Eq, Structural)]
pub enum DebounceState {
    Idle,
    ConfirmingClosed { since: u64 },
    Closed,
    ConfirmingOpen { since: u64 },
}

/// The status that has been confirmed while the machine is in `s`.
pub open spec fn confirmed_status(s: DebounceState) -> StatusEvent {
    match s {
        DebounceState::Idle | DebounceState::ConfirmingClosed { .. } => StatusEvent::Open,
        DebounceState::Closed | DebounceState::ConfirmingOpen { .. } => StatusEvent::Closed,
    }
}

/// A state in which nothing is being confirmed.
pub open spec fn is_stable(s: DebounceState) -> bool {
    s == DebounceState::Idle || s == DebounceState::Closed
}

/// One sample of raw level `level` taken at `now`: the next state, and the
/// event it confirms, if any.
pub open spec fn step(s: DebounceState, level: bool, now: u64, window: u64) -> (DebounceState, Option<StatusEvent>) {
    match s {
        DebounceState::Idle => if level {
            (DebounceState::ConfirmingClosed { since: now }, None)
        } else {
            (DebounceState::Idle, None)
        },
        DebounceState::ConfirmingClosed { since } => if !level {
            (DebounceState::Idle, None)
        } else if now - since >= window {
            (DebounceState::Closed, Some(StatusEvent::Closed))
        } else {
            (s, None)
        },
        DebounceState::Closed => if !level {
            (DebounceState::ConfirmingOpen { since: now }, None)
        } else {
            (DebounceState::Closed, None)
        },
        DebounceState::ConfirmingOpen { since } => if level {
            (DebounceState::Closed, None)
        } else if now - since >= window {
            (DebounceState::Idle, Some(StatusEvent::Open))
        } else {
            (s, None)
        },
    }
}

/// The state reached from `start` after the samples `(level, time)` in order.
pub open spec fn state_after(start: DebounceState, samples: Seq<(bool, u64)>, window: u64) -> DebounceState
    decreases samples.len(),
{
    if samples.len() == 0 {
        start
    } else {
        let last = samples.last();
        step(state_after(start, samples.drop_last(), window), last.0, last.1, window).0
    }
}

/// What sample `i` of `samples` emits, the machine having started at `start`.
pub open spec fn emitted_at(start: DebounceState, samples: Seq<(bool, u64)>, window: u64, i: int) -> Option<StatusEvent> {
    step(state_after(start, samples.take(i), window), samples[i].0, samples[i].1, window).1
}

/// The events emitted along `samples`, in order.
pub open spec fn events(start: DebounceState, samples: Seq<(bool, u64)>, window: u64) -> Seq<StatusEvent>
    decreases samples.len(),
{
    if samples.len() == 0 {
        Seq::empty()
    } else {
        let last = samples.last();
        let before = events(start, samples.drop_last(), window);
        match step(state_after(start, samples.drop_last(), window), last.0, last.1, window).1 {
            Some(e) => before.push(e),
            None => before,
        }
    }
}

/// The debounce engine: the state machine and its window, in milliseconds.
pub struct DebounceEngine {
    state: DebounceState,
    window_ms: u64,
}

impl DebounceEngine {
    pub closed spec fn current(&self) -> DebounceState {
        self.state
    }

    pub closed spec fn window(&self) -> u64 {
        self.window_ms
    }

    /// An engine whose confirmed state is the level sampled at start-up.
    /// With `notify_on_startup` that state is also reported as an event.
    pub fn new(level: bool, window_ms: u64, notify_on_startup: bool) -> (r: (DebounceEngine, Option<StatusEvent>))
        ensures
            r.0.current() == (if level { DebounceState::Closed } else { DebounceState::Idle }),
            r.0.window() == window_ms,
            r.1 == (if notify_on_startup { Some(status_of_level(level)) } else { None }),
    {
        let state = if level { DebounceState::Closed } else { DebounceState::Idle };
        let event = if notify_on_startup { Some(StatusEvent::from_level(level)) } else { None };
        (DebounceEngine { state, window_ms }, event)
    }

    /// The debounce window in milliseconds.
    pub fn window_ms(&self) -> (r: u64)
        ensures
            r == self.window(),
    {
        self.window_ms
    }

    /// The state of the machine.
    pub fn state(&self) -> (r: DebounceState)
        ensures
            r == self.current(),
    {
        self.state
    }

    /// The status confirmed so far.
    pub fn confirmed(&self) -> (r: StatusEvent)
        ensures
            r == confirmed_status(self.current()),
    {
        match self.state {
            DebounceState::Idle | DebounceState::ConfirmingClosed { .. } => StatusEvent::Open,
            DebounceState::Closed | DebounceState::ConfirmingOpen { .. } => StatusEvent::Closed,
        }
    }

    /// Takes one raw sample observed at `now` and returns the transition it
    /// confirms, if any.
    pub fn sample(&mut self, level: bool, now: u64) -> (r: Option<StatusEvent>)
        ensures
            (final(self).current(), r) == step(old(self).current(), level, now, old(self).window()),
            final(self).window() == old(self).window(),
    {
        let window = self.window_ms;
        let (next, event) = match self.state {
            DebounceState::Idle => if level {
                (DebounceState::ConfirmingClosed { since: now }, None)
            } else {
                (DebounceState::Idle, None)
            },
            DebounceState::ConfirmingClosed { since } => if !level {
                (DebounceState::Idle, None)
            } else if now >= since && now - since >= window {
                (DebounceState::Closed, Some(StatusEvent::Closed))
            } else {
                (self.state, None)
            },
            DebounceState::Closed => if !level {
                (DebounceState::ConfirmingOpen { since: now }, None)
            } else {
                (DebounceState::Closed, None)
            },
            DebounceState::ConfirmingOpen { since } => if level {
                (DebounceState::Closed, None)
            } else if now >= since && now - since >= window {
                (DebounceState::Idle, Some(StatusEvent::Open))
            } else {
                (self.state, None)
            },
        };
        self.state = next;
        event
    }

    /// Takes a run of samples in order and returns the events they confirm.
    pub fn feed(&mut self, samples: &Vec<(bool, u64)>) -> (r: Vec<StatusEvent>)
        ensures
            final(self).current() == state_after(old(self).current(), samples@, old(self).window()),
            final(self).window() == old(self).window(),
            r@ == events(old(self).current(), samples@, old(self).window()),
    {
        let ghost start = self.state;
        let mut out: Vec<StatusEvent> = Vec::new();
        let mut i: usize = 0;
        while i < samples.len()
            invariant
                i <= samples.len(),
                self.window() == old(self).window(),
                start == old(self).current(),
                self.current() == state_after(start, samples@.take(i as int), self.window()),
                out@ == events(start, samples@.take(i as int), self.window()),
            decreases samples.len() - i,
        {
            let (level, now) = samples[i];
            assert(samples@.take(i as int + 1).drop_last() =~= samples@.take(i as int));
            if let Some(e) = self.sample(level, now) {
                out.push(e);
            }
            i += 1;
        }
        assert(samples@.take(samples.len() as int) =~= samples@);
        out
    }
}

/// Events are exactly the changes of the confirmed state: a sample that
/// emits `e` moves the confirmed state from the other status to `e`, and a
/// sample that emits nothing leaves it as it was. So no event is emitted
/// twice while the state stays the same.
pub proof fn lemma_events_are_changes(s: DebounceState, level: bool, now: u64, window: u64)
    ensures
        ({
            let (next, event) = step(s, level, now, window);
            match event {
                Some(e) => confirmed_status(s) != e && confirmed_status(next) == e,
                None => confirmed_status(next) == confirmed_status(s),
            }
        }),
{
}

/// While a candidate is being confirmed, every sample since the one that
/// started it has shown the candidate level.
proof fn lemma_candidate_run(start: DebounceState, samples: Seq<(bool, u64)>, window: u64, n: int)
    requires
        is_stable(start),
        0 <= n <= samples.len(),
    ensures
        match state_after(start, samples.take(n), window) {
            DebounceState::ConfirmingClosed { since } => exists|j: int|
                0 <= j < n && samples[j].1 == since && forall|k: int| j <= k < n ==> #[trigger] samples[k].0,
            DebounceState::ConfirmingOpen { since } => exists|j: int|
                0 <= j < n && samples[j].1 == since && forall|k: int| j <= k < n ==> !#[trigger] samples[k].0,
            _ => true,
        },
    decreases n,
{
    if n > 0 {
        lemma_candidate_run(start, samples, window, n - 1);
        assert(samples.take(n).drop_last() =~= samples.take(n - 1));
        let prev = state_after(start, samples.take(n - 1), window);
        let cur = state_after(start, samples.take(n), window);
        match cur {
            DebounceState::ConfirmingClosed { since } => {
                if prev == cur {
                    let j = choose|j: int|
                        0 <= j < n - 1 && samples[j].1 == since && forall|k: int| j <= k < n - 1 ==> #[trigger] samples[k].0;
                    assert(forall|k: int| j <= k < n ==> #[trigger] samples[k].0);
                } else {
                    assert(forall|k: int| n - 1 <= k < n ==> #[trigger] samples[k].0);
                }
            },
            DebounceState::ConfirmingOpen { since } => {
                if prev == cur {
                    let j = choose|j: int|
                        0 <= j < n - 1 && samples[j].1 == since && forall|k: int| j <= k < n - 1 ==> !#[trigger] samples[k].0;
                    assert(forall|k: int| j <= k < n ==> !#[trigger] samples[k].0);
                } else {
                    assert(forall|k: int| n - 1 <= k < n ==> !#[trigger] samples[k].0);
                }
            },
            _ => {},
        }
    }
}

/// No event fires unless its level has been observed without interruption
/// for at least the window: when sample `i` emits an event, some earlier
/// sample `j` began a run of that level which lasts through `i` and whose
/// times lie at least the window apart. A flip shorter than the window
/// therefore never produces an event.
pub proof fn lemma_event_needs_stable_run(start: DebounceState, samples: Seq<(bool, u64)>, window: u64, i: int)
    requires
        is_stable(start),
        0 <= i < samples.len(),
        emitted_at(start, samples, window, i) is Some,
    ensures
        exists|j: int|
            0 <= j <= i && samples[i].1 - samples[j].1 >= window && forall|k: int|
                j <= k <= i ==> #[trigger] samples[k].0 == level_of_status(
                    emitted_at(start, samples, window, i).unwrap(),
                ),
{
    lemma_candidate_run(start, samples, window, i);
    let e = emitted_at(start, samples, window, i).unwrap();
    match state_after(start, samples.take(i), window) {
        DebounceState::ConfirmingClosed { since } => {
            let j = choose|j: int|
                0 <= j < i && samples[j].1 == since && forall|k: int| j <= k < i ==> #[trigger] samples[k].0;
            assert(forall|k: int| j <= k <= i ==> #[trigger] samples[k].0 == level_of_status(e));
        },
        DebounceState::ConfirmingOpen { since } => {
            let j = choose|j: int|
                0 <= j < i && samples[j].1 == since && forall|k: int| j <= k < i ==> !#[trigger] samples[k].0;
            assert(forall|k: int| j <= k <= i ==> #[trigger] samples[k].0 == level_of_status(e));
        },
        _ => {},
    }
}

proof fn lemma_steady_high_prefix(samples: Seq<(bool, u64)>, window: u64, n: int)
    requires
        window > 0,
        1 <= n <= samples.len(),
        forall|k: int| 0 <= k < samples.len() ==> #[trigger] samples[k].0,
    ensures
        if forall|k: int| 0 < k < n ==> #[trigger] samples[k].1 - samples[0].1 < window {
            state_after(DebounceState::Idle, samples.take(n), window)
                == (DebounceState::ConfirmingClosed { since: samples[0].1 })
                && events(DebounceState::Idle, samples.take(n), window) == Seq::<StatusEvent>::empty()
        } else {
            state_after(DebounceState::Idle, samples.take(n), window) == DebounceState::Closed
                && events(DebounceState::Idle, samples.take(n), window) == seq![StatusEvent::Closed]
        },
    decreases n,
{
    assert(samples.take(n).drop_last() =~= samples.take(n - 1));
    if n == 1 {
        assert(samples.take(0) =~= Seq::<(bool, u64)>::empty());
        assert(state_after(DebounceState::Idle, samples.take(0), window) == DebounceState::Idle);
        assert(events(DebounceState::Idle, samples.take(0), window) == Seq::<StatusEvent>::empty());
        assert(samples.take(1).last() == samples[0]);
    } else {
        lemma_steady_high_prefix(samples, window, n - 1);
        assert(samples[n - 1].0);
        if forall|k: int| 0 < k < n ==> #[trigger] samples[k].1 - samples[0].1 < window {
            assert(forall|k: int| 0 < k < n - 1 ==> #[trigger] samples[k].1 - samples[0].1 < window);
            assert(samples[n - 1].1 - samples[0].1 < window);
        } else if forall|k: int| 0 < k < n - 1 ==> #[trigger] samples[k].1 - samples[0].1 < window {
            assert(samples[n - 1].1 - samples[0].1 >= window);
            assert(Seq::<StatusEvent>::empty().push(StatusEvent::Closed) =~= seq![StatusEvent::Closed]);
        }
    }
}

/// From the confirmed open state, a raw high level held across samples whose
/// times span at least the window yields exactly one event, `Closed`, however
/// densely the samples were taken.
pub proof fn lemma_steady_high_closes_once(samples: Seq<(bool, u64)>, window: u64)
    requires
        window > 0,
        samples.len() > 0,
        forall|k: int| 0 <= k < samples.len() ==> #[trigger] samples[k].0,
        samples.last().1 - samples[0].1 >= window,
    ensures
        events(DebounceState::Idle, samples, window) == seq![StatusEvent::Closed],
        state_after(DebounceState::Idle, samples, window) == DebounceState::Closed,
{
    let n = samples.len() as int;
    lemma_steady_high_prefix(samples, window, n);
    assert(samples.take(n) =~= samples);
    if n > 1 {
        assert(!(samples[n - 1].1 - samples[0].1 < window));
    }
}

proof fn lemma_short_dip_prefix(samples: Seq<(bool, u64)>, window: u64, m: int, n: int)
    requires
        0 < m <= samples.len(),
        1 <= n <= samples.len(),
        forall|k: int| 0 <= k < m ==> !#[trigger] samples[k].0 && samples[k].1 - samples[0].1 < window,
        forall|k: int| m <= k < samples.len() ==> #[trigger] samples[k].0,
    ensures
        events(DebounceState::Closed, samples.take(n), window) == Seq::<StatusEvent>::empty(),
        n <= m ==> state_after(DebounceState::Closed, samples.take(n), window)
            == (DebounceState::ConfirmingOpen { since: samples[0].1 }),
        n > m ==> state_after(DebounceState::Closed, samples.take(n), window) == DebounceState::Closed,
    decreases n,
{
    assert(samples.take(n).drop_last() =~= samples.take(n - 1));
    if n == 1 {
        assert(samples.take(0) =~= Seq::<(bool, u64)>::empty());
        assert(state_after(DebounceState::Closed, samples.take(0), window) == DebounceState::Closed);
        assert(events(DebounceState::Closed, samples.take(0), window) == Seq::<StatusEvent>::empty());
        assert(samples.take(1).last() == samples[0]);
        assert(!samples[0].0);
    } else {
        lemma_short_dip_prefix(samples, window, m, n - 1);
        if n <= m {
            assert(!samples[n - 1].0 && samples[n - 1].1 - samples[0].1 < window);
        } else {
            assert(samples[n - 1].0);
        }
    }
}

/// From the confirmed closed state, a dip to the low level lasting less than
/// the window, followed by the high level, produces no event, and the machine
/// is back in the closed state once the high level is seen.
pub proof fn lemma_short_dip_is_ignored(samples: Seq<(bool, u64)>, window: u64, dip: int)
    requires
        0 < dip <= samples.len(),
        forall|k: int| 0 <= k < dip ==> !#[trigger] samples[k].0 && samples[k].1 - samples[0].1 < window,
        forall|k: int| dip <= k < samples.len() ==> #[trigger] samples[k].0,
    ensures
        events(DebounceState::Closed, samples, window) == Seq::<StatusEvent>::empty(),
        dip < samples.len() ==> state_after(DebounceState::Closed, samples, window) == DebounceState::Closed,
{
    lemma_short_dip_prefix(samples, window, dip, samples.len() as int);
    assert(samples.take(samples.len() as int) =~= samples);
}

/// The raw level that stable state `s` stands for.
pub open spec fn stable_level(s: DebounceState) -> bool {
    s == DebounceState::Closed
}

/// The confirming state that leaves stable state `s`, begun at `since`.
pub open spec fn leaving(s: DebounceState, since: u64) -> DebounceState {
    if s == DebounceState::Closed {
        DebounceState::ConfirmingOpen { since }
    } else {
        DebounceState::ConfirmingClosed { since }
    }
}

/// Samples `j..=e` are a maximal run away from `level`, and a sample at
/// `level` follows it.
pub open spec fn closed_run_away(samples: Seq<(bool, u64)>, level: bool, j: int, e: int) -> bool {
    &&& 0 <= j <= e
    &&& e + 1 < samples.len()
    &&& (j == 0 || samples[j - 1].0 == level)
    &&& forall|k: int| j <= k <= e ==> #[trigger] samples[k].0 != level
    &&& samples[e + 1].0 == level
}

/// Sample times never go backwards.
pub open spec fn nondecreasing_times(samples: Seq<(bool, u64)>) -> bool {
    forall|a: int, b: int| 0 <= a <= b < samples.len() ==> #[trigger] samples[a].1 <= #[trigger] samples[b].1
}

/// Samples `n..=e` are away from `level` and sample `e + 1` is at it.
spec fn run_ends_at(samples: Seq<(bool, u64)>, level: bool, n: int, e: int) -> bool {
    &&& n <= e
    &&& e + 1 < samples.len()
    &&& samples[e + 1].0 == level
    &&& forall|k: int| n <= k <= e ==> #[trigger] samples[k].0 != level
}

proof fn lemma_run_end(samples: Seq<(bool, u64)>, level: bool, n: int)
    requires
        0 <= n < samples.len(),
        samples[n].0 != level,
        samples.last().0 == level,
    ensures
        exists|e: int| #[trigger] run_ends_at(samples, level, n, e),
    decreases samples.len() - n,
{
    if n + 1 == samples.len() {
        assert(samples.last() == samples[n]);
    } else if samples[n + 1].0 == level {
        assert(run_ends_at(samples, level, n, n));
    } else {
        lemma_run_end(samples, level, n + 1);
        let e = choose|e: int| #[trigger] run_ends_at(samples, level, n + 1, e);
        assert(forall|k: int| n <= k <= e ==> #[trigger] samples[k].0 != level);
        assert(run_ends_at(samples, level, n, e));
    }
}

proof fn lemma_short_runs_prefix(start: DebounceState, samples: Seq<(bool, u64)>, window: u64, n: int)
    requires
        is_stable(start),
        0 <= n <= samples.len(),
        nondecreasing_times(samples),
        samples.len() > 0 ==> samples.last().0 == stable_level(start),
        forall|j: int, e: int| #[trigger] closed_run_away(samples, stable_level(start), j, e)
            ==> samples[e].1 - samples[j].1 < window,
    ensures
        events(start, samples.take(n), window) == Seq::<StatusEvent>::empty(),
        n == 0 || samples[n - 1].0 == stable_level(start) ==> state_after(start, samples.take(n), window) == start,
        !(n == 0 || samples[n - 1].0 == stable_level(start)) ==> exists|j: int|
            0 <= j < n && (j == 0 || samples[j - 1].0 == stable_level(start)) && (forall|k: int|
                j <= k < n ==> #[trigger] samples[k].0 != stable_level(start)) && state_after(
                start,
                samples.take(n),
                window,
            ) == leaving(start, samples[j].1),
    decreases n,
{
    let lvl = stable_level(start);
    if n == 0 {
        assert(samples.take(0) =~= Seq::<(bool, u64)>::empty());
        assert(state_after(start, samples.take(0), window) == start);
        assert(events(start, samples.take(0), window) == Seq::<StatusEvent>::empty());
    } else {
        lemma_short_runs_prefix(start, samples, window, n - 1);
        assert(samples.take(n).drop_last() =~= samples.take(n - 1));
        assert(samples.take(n).last() == samples[n - 1]);
        let x = samples[n - 1];
        let prev = state_after(start, samples.take(n - 1), window);
        if x.0 != lvl && !(n - 1 == 0 || samples[n - 2].0 == lvl) {
            let j = choose|j: int|
                0 <= j < n - 1 && (j == 0 || samples[j - 1].0 == lvl) && (forall|k: int|
                    j <= k < n - 1 ==> #[trigger] samples[k].0 != lvl) && prev == leaving(start, samples[j].1);
            assert(samples.last() == samples[samples.len() - 1]);
            lemma_run_end(samples, lvl, n - 1);
            let e = choose|e: int| #[trigger] run_ends_at(samples, lvl, n - 1, e);
            assert(forall|k: int| j <= k <= e ==> #[trigger] samples[k].0 != lvl);
            assert(closed_run_away(samples, lvl, j, e));
            assert(samples[n - 1].1 <= samples[e].1);
            assert(forall|k: int| j <= k < n ==> #[trigger] samples[k].0 != lvl);
        } else if x.0 != lvl {
            assert(forall|k: int| n - 1 <= k < n ==> #[trigger] samples[k].0 != lvl);
        }
    }
}

/// No flip shorter than the window produces an event, however many there
/// are: from a stable state, when every maximal run of samples away from its
/// level spans less than the window (last minus first instant) and is
/// followed by a sample at its level, nothing is emitted and the machine
/// ends in the state it started in. Sample times must not go backwards, as
/// a monotonic clock guarantees.
pub proof fn lemma_short_runs_are_ignored(start: DebounceState, samples: Seq<(bool, u64)>, window: u64)
    requires
        is_stable(start),
        nondecreasing_times(samples),
        samples.len() > 0 ==> samples.last().0 == stable_level(start),
        forall|j: int, e: int| #[trigger] closed_run_away(samples, stable_level(start), j, e)
            ==> samples[e].1 - samples[j].1 < window,
    ensures
        events(start, samples, window) == Seq::<StatusEvent>::empty(),
        state_after(start, samples, window) == start,
{
    lemma_short_runs_prefix(start, samples, window, samples.len() as int);
    assert(samples.take(samples.len() as int) =~= samples);
    if samples.len() > 0 {
        assert(samples.last() == samples[samples.len() - 1]);
    }
}

} // verus!
