//! Delivery of one confirmed event to many endpoints.
//!
//! Each endpoint gets a [`Delivery`]: a small machine that says what to do
//! next (send, wait, or stop) and learns the outcome of every attempt. The
//! host runs one machine per endpoint, each in its own task, so that a slow
//! or failing endpoint holds up nobody else; once all have finished,
//! [`aggregate`] summarises the outcomes.
//!
//! Backoff policy: a fixed delay between attempts, one second unless
//! configured otherwise.

use vstd::prelude::*;

verus! {

/// Per-attempt timeout used where an endpoint sets none.
pub const DEFAULT_TIMEOUT_SECS: u64 = 30;

/// Attempts made per endpoint where an endpoint sets none.
pub const DEFAULT_RETRY_ATTEMPTS: u32 = 3;

/// Wait between two attempts at one endpoint.
pub const DEFAULT_RETRY_DELAY_SECS: u64 = 1;

/// A notification target with its optional overrides.
#[derive(Debug, Clone)]
pub struct Endpoint {
    pub url: String,
    pub name: Option<String>,
    pub timeout_secs: Option<u64>,
    pub retry_attempts: Option<u32>,
}

/// The configured list of notification targets.
#[derive(Debug, Clone)]
pub struct EndpointConfig {
    pub endpoints: Vec<Endpoint>,
}

/// The settings that apply where an endpoint overrides nothing.
#[derive(Debug, Clone, Copy, PartialEq, Eq, Structural)]
pub struct DeliveryDefaults {
    pub timeout_secs: u64,
    pub attempts: u32,
    pub delay_secs: u64,
}

impl DeliveryDefaults {
    /// Thirty seconds per attempt, three attempts, one second apart.
    pub fn standard() -> (r: DeliveryDefaults)
        ensures
            r.timeout_secs == DEFAULT_TIMEOUT_SECS,
            r.attempts == DEFAULT_RETRY_ATTEMPTS,
            r.delay_secs == DEFAULT_RETRY_DELAY_SECS,
    {
        DeliveryDefaults {
            timeout_secs: DEFAULT_TIMEOUT_SECS,
            attempts: DEFAULT_RETRY_ATTEMPTS,
            delay_secs: DEFAULT_RETRY_DELAY_SECS,
        }
    }
}

impl Endpoint {
    /// An endpoint with no label and no overrides.
    pub fn with_url(url: String) -> (r: Endpoint)
        ensures
            r.url == url,
            r.name is None,
            r.timeout_secs is None,
            r.retry_attempts is None,
    {
        Endpoint { url, name: None, timeout_secs: None, retry_attempts: None }
    }

    /// The timeout of one attempt: the endpoint's own, else the default.
    pub fn effective_timeout_secs(&self, defaults: &DeliveryDefaults) -> (r: u64)
        ensures
            r == match self.timeout_secs {
                Some(t) => t,
                None => defaults.timeout_secs,
            },
    {
        match self.timeout_secs {
            Some(t) => t,
            None => defaults.timeout_secs,
        }
    }

    /// The number of attempts: the endpoint's own, else the default.
    pub fn effective_attempts(&self, defaults: &DeliveryDefaults) -> (r: u32)
        ensures
            r == match self.retry_attempts {
                Some(n) => n,
                None => defaults.attempts,
            },
    {
        match self.retry_attempts {
            Some(n) => n,
            None => defaults.attempts,
        }
    }

    /// The name to report the endpoint by: its label, else its URL.
    pub fn display_name(&self) -> (r: &str)
        ensures
            r@ == match self.name {
                Some(n) => n@,
                None => self.url@,
            },
    {
        match &self.name {
            Some(n) => n.as_str(),
            None => self.url.as_str(),
        }
    }

    /// The delivery machine for this endpoint.
    pub fn delivery(&self, defaults: &DeliveryDefaults) -> (r: Delivery)
        ensures
            r@ == DeliveryView::initial(
                self.effective_attempts_spec(defaults),
                self.effective_timeout_spec(defaults),
                defaults.delay_secs,
            ),
    {
        Delivery::new(self.effective_attempts(defaults), self.effective_timeout_secs(defaults), defaults.delay_secs)
    }

    pub open spec fn effective_attempts_spec(&self, defaults: &DeliveryDefaults) -> u32 {
        match self.retry_attempts {
            Some(n) => n,
            None => defaults.attempts,
        }
    }

    pub open spec fn effective_timeout_spec(&self, defaults: &DeliveryDefaults) -> u64 {
        match self.timeout_secs {
            Some(t) => t,
            None => defaults.timeout_secs,
        }
    }
}

/// Where one delivery stands.
#[derive(Debug, Clone, Copy, PartialEq, Eq, Structural)]
pub enum Phase {
    /// The next attempt is due.
    Sending,
    /// An attempt failed; the next one follows the delay.
    Waiting,
    /// An attempt succeeded.
    Delivered,
    /// Every attempt failed: a permanent failure for this endpoint.
    GaveUp,
}

/// What the host is to do next for one delivery.
#[derive(Debug, Clone, Copy, PartialEq, Eq, Structural)]
pub enum Action {
    /// Make attempt number `attempt` (counting from one) with this timeout.
    Send { attempt: u32, timeout_secs: u64 },
    /// Wait this long, then report back through [`Delivery::resume`].
    Sleep { secs: u64 },
    /// Nothing more; `delivered` tells success from permanent failure.
    Finished { delivered: bool },
}

/// The retry state of one (event, endpoint) pair, as the contracts see it.
pub struct DeliveryView {
    pub attempts: u32,
    pub limit: u32,
    pub timeout_secs: u64,
    pub delay_secs: u64,
    pub phase: Phase,
}

impl DeliveryView {
    /// The machine before any attempt. With a limit of zero it has already given up.
    pub open spec fn initial(limit: u32, timeout_secs: u64, delay_secs: u64) -> DeliveryView {
        DeliveryView {
            attempts: 0,
            limit,
            timeout_secs,
            delay_secs,
            phase: if limit == 0 { Phase::GaveUp } else { Phase::Sending },
        }
    }

    /// The counters agree with the phase.
    pub open spec fn wf(self) -> bool {
        &&& self.attempts <= self.limit
        &&& match self.phase {
            Phase::Sending => self.attempts < self.limit,
            Phase::Waiting => 0 < self.attempts < self.limit,
            Phase::Delivered => 0 < self.attempts,
            Phase::GaveUp => self.attempts == self.limit,
        }
    }

    pub open spec fn next_action(self) -> Action {
        match self.phase {
            Phase::Sending => Action::Send { attempt: (self.attempts + 1) as u32, timeout_secs: self.timeout_secs },
            Phase::Waiting => Action::Sleep { secs: self.delay_secs },
            Phase::Delivered => Action::Finished { delivered: true },
            Phase::GaveUp => Action::Finished { delivered: false },
        }
    }

    /// The machine after the outcome of the pending attempt; outside the
    /// sending phase an outcome changes nothing.
    pub open spec fn after_outcome(self, ok: bool) -> DeliveryView {
        if self.phase != Phase::Sending {
            self
        } else {
            let attempts = (self.attempts + 1) as u32;
            DeliveryView {
                attempts,
                phase: if ok {
                    Phase::Delivered
                } else if attempts < self.limit {
                    Phase::Waiting
                } else {
                    Phase::GaveUp
                },
                ..self
            }
        }
    }

    /// The machine once the delay has passed; outside the waiting phase
    /// nothing changes.
    pub open spec fn after_wait(self) -> DeliveryView {
        if self.phase == Phase::Waiting {
            DeliveryView { phase: Phase::Sending, ..self }
        } else {
            self
        }
    }
}

/// The retry state of one (event, endpoint) pair.
#[derive(Debug, Clone, Copy, PartialEq, Eq, Structural)]
pub struct Delivery {
    attempts: u32,
    limit: u32,
    timeout_secs: u64,
    delay_secs: u64,
    phase: Phase,
}

impl View for Delivery {
    type V = DeliveryView;

    closed spec fn view(&self) -> DeliveryView {
        DeliveryView {
            attempts: self.attempts,
            limit: self.limit,
            timeout_secs: self.timeout_secs,
            delay_secs: self.delay_secs,
            phase: self.phase,
        }
    }
}

impl Delivery {
    #[verifier::type_invariant]
    spec fn inv(&self) -> bool {
        self@.wf()
    }

    /// A delivery of at most `limit` attempts, each with the given timeout,
    /// `delay_secs` apart.
    pub fn new(limit: u32, timeout_secs: u64, delay_secs: u64) -> (r: Delivery)
        ensures
            r@ == DeliveryView::initial(limit, timeout_secs, delay_secs),
    {
        Delivery {
            attempts: 0,
            limit,
            timeout_secs,
            delay_secs,
            phase: if limit == 0 { Phase::GaveUp } else { Phase::Sending },
        }
    }

    /// What the host is to do next.
    pub fn action(&self) -> (r: Action)
        ensures
            r == self@.next_action(),
    {
        proof {
            use_type_invariant(self);
        }
        match self.phase {
            Phase::Sending => Action::Send { attempt: self.attempts + 1, timeout_secs: self.timeout_secs },
            Phase::Waiting => Action::Sleep { secs: self.delay_secs },
            Phase::Delivered => Action::Finished { delivered: true },
            Phase::GaveUp => Action::Finished { delivered: false },
        }
    }

    /// Records whether the attempt just made succeeded.
    pub fn record(&mut self, ok: bool)
        ensures
            final(self)@ == old(self)@.after_outcome(ok),
            final(self)@.wf(),
    {
        proof {
            use_type_invariant(&*self);
        }
        if self.phase == Phase::Sending {
            let attempts = self.attempts + 1;
            let phase = if ok {
                Phase::Delivered
            } else if attempts < self.limit {
                Phase::Waiting
            } else {
                Phase::GaveUp
            };
            *self = Delivery { attempts, phase, ..*self };
        }
    }

    /// Records that the delay before the next attempt has passed.
    pub fn resume(&mut self)
        ensures
            final(self)@ == old(self)@.after_wait(),
            final(self)@.wf(),
    {
        proof {
            use_type_invariant(&*self);
        }
        if self.phase == Phase::Waiting {
            *self = Delivery { phase: Phase::Sending, ..*self };
        }
    }

    /// Where the delivery stands.
    pub fn phase(&self) -> (r: Phase)
        ensures
            r == self@.phase,
    {
        self.phase
    }

    /// The attempts made so far.
    pub fn attempts(&self) -> (r: u32)
        ensures
            r == self@.attempts,
    {
        self.attempts
    }

    /// Whether the delivery has finished, one way or the other.
    pub fn is_finished(&self) -> (r: bool)
        ensures
            r == (self@.phase == Phase::Delivered || self@.phase == Phase::GaveUp),
    {
        self.phase == Phase::Delivered || self.phase == Phase::GaveUp
    }
}

/// The actions a host performs when it drives `d` to the end, the attempts
/// having the outcomes `outcomes` in order. Should the outcomes run out first,
/// the trace ends with the attempt that has none.
pub open spec fn trace(d: DeliveryView, outcomes: Seq<bool>) -> Seq<Action>
    decreases outcomes.len(), (if d.phase == Phase::Waiting { 1nat } else { 0nat }),
{
    match d.phase {
        Phase::Sending => if outcomes.len() == 0 {
            seq![d.next_action()]
        } else {
            seq![d.next_action()] + trace(d.after_outcome(outcomes[0]), outcomes.drop_first())
        },
        Phase::Waiting => seq![d.next_action()] + trace(d.after_wait(), outcomes),
        _ => seq![d.next_action()],
    }
}

proof fn lemma_failing_trace_from(d: DeliveryView, outcomes: Seq<bool>)
    requires
        d.wf(),
        d.phase == Phase::Sending,
        outcomes.len() >= d.limit - d.attempts,
        forall|k: int| 0 <= k < outcomes.len() ==> !#[trigger] outcomes[k],
    ensures
        ({
            let t = trace(d, outcomes);
            let n = d.limit - d.attempts;
            &&& t.len() == 2 * n
            &&& forall|k: int| 0 <= k < n ==> #[trigger] t[2 * k] == (Action::Send {
                attempt: (d.attempts + k + 1) as u32,
                timeout_secs: d.timeout_secs,
            })
            &&& forall|k: int| 0 <= k < n - 1 ==> #[trigger] t[2 * k + 1] == (Action::Sleep { secs: d.delay_secs })
            &&& t[2 * n - 1] == (Action::Finished { delivered: false })
        }),
    decreases d.limit - d.attempts,
{
    let t = trace(d, outcomes);
    let n = d.limit - d.attempts;
    let rest = outcomes.drop_first();
    let d1 = d.after_outcome(outcomes[0]);
    assert(!outcomes[0]);
    if d1.phase == Phase::GaveUp {
        assert(t =~= seq![d.next_action(), Action::Finished { delivered: false }]);
    } else {
        let d2 = d1.after_wait();
        assert forall|k: int| 0 <= k < rest.len() implies !#[trigger] rest[k] by {
            assert(rest[k] == outcomes[k + 1]);
        }
        lemma_failing_trace_from(d2, rest);
        let t2 = trace(d2, rest);
        assert(d1.phase == Phase::Waiting);
        assert(t == seq![d.next_action()] + trace(d1, rest));
        assert(trace(d1, rest) == seq![d1.next_action()] + t2);
        assert(t =~= seq![d.next_action(), d1.next_action()] + t2);
        assert forall|k: int| 0 <= k < n implies #[trigger] t[2 * k] == (Action::Send {
            attempt: (d.attempts + k + 1) as u32,
            timeout_secs: d.timeout_secs,
        }) by {
            if k > 0 {
                assert(t[2 * k] == t2[2 * (k - 1)]);
            }
        }
        assert forall|k: int| 0 <= k < n - 1 implies #[trigger] t[2 * k + 1] == (Action::Sleep {
            secs: d.delay_secs,
        }) by {
            if k > 0 {
                assert(t[2 * k + 1] == t2[2 * (k - 1) + 1]);
            }
        }
    }
}

/// An endpoint that fails every attempt is tried exactly its configured
/// number of times, attempt `k + 1` being the `2k`-th action, with the
/// configured delay between consecutive attempts and none after the last;
/// then it is recorded as a permanent failure. With a limit of zero no
/// attempt is made.
pub proof fn lemma_failing_endpoint_exhausts_attempts(
    limit: u32,
    timeout_secs: u64,
    delay_secs: u64,
    outcomes: Seq<bool>,
)
    requires
        outcomes.len() >= limit,
        forall|k: int| 0 <= k < outcomes.len() ==> !#[trigger] outcomes[k],
    ensures
        ({
            let t = trace(DeliveryView::initial(limit, timeout_secs, delay_secs), outcomes);
            &&& t.len() == (if limit == 0 { 1 } else { 2 * limit })
            &&& forall|k: int| 0 <= k < limit ==> #[trigger] t[2 * k] == (Action::Send {
                attempt: (k + 1) as u32,
                timeout_secs,
            })
            &&& forall|k: int| 0 <= k < limit - 1 ==> #[trigger] t[2 * k + 1] == (Action::Sleep { secs: delay_secs })
            &&& t.last() == (Action::Finished { delivered: false })
        }),
{
    let d = DeliveryView::initial(limit, timeout_secs, delay_secs);
    if limit > 0 {
        lemma_failing_trace_from(d, outcomes);
    }
}

/// The summary of one event's dispatch.
#[derive(Debug, Clone)]
pub struct DispatchReport {
    pub success_count: usize,
    pub failed: Vec<String>,
}

/// How many of the outcomes are successes.
pub open spec fn count_delivered(outcomes: Seq<bool>) -> nat
    decreases outcomes.len(),
{
    if outcomes.len() == 0 {
        0
    } else {
        count_delivered(outcomes.drop_last()) + if outcomes.last() { 1nat } else { 0nat }
    }
}

/// The URLs of the endpoints whose outcome is a failure, in endpoint order.
pub open spec fn failed_urls(endpoints: Seq<Endpoint>, outcomes: Seq<bool>) -> Seq<Seq<char>>
    decreases outcomes.len(),
{
    if outcomes.len() == 0 {
        Seq::empty()
    } else {
        let before = failed_urls(endpoints, outcomes.drop_last());
        if outcomes.last() {
            before
        } else {
            before.push(endpoints[outcomes.len() - 1].url@)
        }
    }
}

/// Every endpoint is counted once: as a success or among the failures.
pub proof fn lemma_outcomes_partition(endpoints: Seq<Endpoint>, outcomes: Seq<bool>)
    ensures
        count_delivered(outcomes) + failed_urls(endpoints, outcomes).len() == outcomes.len(),
    decreases outcomes.len(),
{
    if outcomes.len() > 0 {
        lemma_outcomes_partition(endpoints, outcomes.drop_last());
    }
}

/// Summarises the settled deliveries of one event: `delivered[i]` is the
/// outcome at `endpoints[i]`.
pub fn aggregate(endpoints: &Vec<Endpoint>, delivered: &Vec<bool>) -> (r: DispatchReport)
    requires
        endpoints.len() == delivered.len(),
    ensures
        r.success_count == count_delivered(delivered@),
        r.failed@.map_values(|u: String| u@) == failed_urls(endpoints@, delivered@),
        r.success_count + r.failed.len() == endpoints.len(),
{
    let mut success_count: usize = 0;
    let mut failed: Vec<String> = Vec::new();
    let mut i: usize = 0;
    while i < delivered.len()
        invariant
            endpoints.len() == delivered.len(),
            i <= delivered.len(),
            success_count == count_delivered(delivered@.take(i as int)),
            failed@.map_values(|u: String| u@) == failed_urls(endpoints@, delivered@.take(i as int)),
            success_count <= i,
        decreases delivered.len() - i,
    {
        assert(delivered@.take(i as int + 1).drop_last() =~= delivered@.take(i as int));
        proof {
            lemma_outcomes_partition(endpoints@, delivered@.take(i as int));
        }
        if delivered[i] {
            success_count = success_count + 1;
        } else {
            let u = endpoints[i].url.clone();
            failed.push(u);
            assert(failed@.map_values(|u: String| u@) =~= failed_urls(endpoints@, delivered@.take(i as int)).push(
                endpoints@[i as int].url@,
            ));
        }
        i += 1;
    }
    assert(delivered@.take(delivered.len() as int) =~= delivered@);
    proof {
        lemma_outcomes_partition(endpoints@, delivered@);
    }
    DispatchReport { success_count, failed }
}

/// The delivery machines for a snapshot of endpoints, one per endpoint, in order.
pub fn plan_deliveries(endpoints: &Vec<Endpoint>, defaults: &DeliveryDefaults) -> (r: Vec<Delivery>)
    ensures
        r.len() == endpoints.len(),
        forall|i: int| 0 <= i < r.len() ==> #[trigger] r@[i]@ == DeliveryView::initial(
            endpoints@[i].effective_attempts_spec(defaults),
            endpoints@[i].effective_timeout_spec(defaults),
            defaults.delay_secs,
        ),
{
    let mut out: Vec<Delivery> = Vec::new();
    let mut i: usize = 0;
    while i < endpoints.len()
        invariant
            i <= endpoints.len(),
            out.len() == i,
            forall|j: int| 0 <= j < i ==> #[trigger] out@[j]@ == DeliveryView::initial(
                endpoints@[j].effective_attempts_spec(defaults),
                endpoints@[j].effective_timeout_spec(defaults),
                defaults.delay_secs,
            ),
        decreases endpoints.len() - i,
    {
        out.push(endpoints[i].delivery(defaults));
        i += 1;
    }
    out
}

} // verus!
