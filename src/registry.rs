//! The registry of webhook endpoints: insertion-ordered, one entry per URL.

use vstd::prelude::*;
use crate::dispatch::Endpoint;

verus! {

/// Whether the `url` crate accepts `s` as an absolute URL.
pub uninterp spec fn url_parses(s: Seq<char>) -> bool;

/// Relies on `url::Url::parse`: whether it returns `Ok` for `s`. The answer
/// depends on the text alone.
#[verifier::external_body]
fn is_absolute_url(s: &str) -> (r: bool)
    ensures
        r == url_parses(s@),
{
    url::Url::parse(s).is_ok()
}

/// Relies on `chrono::Utc::now`: the current time in whole seconds since
/// the Unix epoch. Nothing is promised of its value.
#[verifier::external_body]
fn utc_now_secs() -> (r: i64) {
    chrono::Utc::now().timestamp()
}

/// A registered endpoint: its URL, optional label and delivery overrides,
/// and the time of its registration in seconds since the Unix epoch.
#[derive(Debug, Clone)]
pub struct WebhookEndpoint {
    pub url: String,
    pub label: Option<String>,
    pub timeout_secs: Option<u64>,
    pub retry_attempts: Option<u32>,
    pub created_at: i64,
}

/// Why a registration was refused.
#[derive(Debug, Clone, Copy, PartialEq, Eq, Structural)]
pub enum WebhookError {
    DuplicateUrl,
    InvalidUrl,
}

/// A registration request: the URL, and optionally a label and overrides.
#[derive(Debug, Clone)]
pub struct WebhookRequest {
    pub url: String,
    pub label: Option<String>,
    pub timeout_secs: Option<u64>,
    pub retry_attempts: Option<u32>,
}

/// The text of an optional string.
pub open spec fn opt_string_view(o: Option<String>) -> Option<Seq<char>> {
    match o {
        Some(s) => Some(s@),
        None => None,
    }
}

fn copy_opt(o: &Option<String>) -> (r: Option<String>)
    ensures
        opt_string_view(r) == opt_string_view(*o),
{
    match o {
        Some(s) => Some(s.clone()),
        None => None,
    }
}

/// A registry entry as the contracts see it.
pub struct EntryView {
    pub url: Seq<char>,
    pub label: Option<Seq<char>>,
    pub timeout_secs: Option<u64>,
    pub retry_attempts: Option<u32>,
    pub created_at: i64,
}

impl View for WebhookEndpoint {
    type V = EntryView;

    open spec fn view(&self) -> EntryView {
        EntryView {
            url: self.url@,
            label: opt_string_view(self.label),
            timeout_secs: self.timeout_secs,
            retry_attempts: self.retry_attempts,
            created_at: self.created_at,
        }
    }
}

impl WebhookRequest {
    /// The entry this request makes when registered at `created_at`.
    pub open spec fn entry_at(self, created_at: i64) -> EntryView {
        EntryView {
            url: self.url@,
            label: opt_string_view(self.label),
            timeout_secs: self.timeout_secs,
            retry_attempts: self.retry_attempts,
            created_at,
        }
    }

    /// A request for `url` with no label and no overrides.
    pub fn with_url(url: &str) -> (r: WebhookRequest)
        ensures
            r.url@ == url@,
            r.label is None,
            r.timeout_secs is None,
            r.retry_attempts is None,
    {
        WebhookRequest { url: url.to_owned(), label: None, timeout_secs: None, retry_attempts: None }
    }
}

impl WebhookEndpoint {
    /// A copy of this record.
    pub fn duplicate(&self) -> (r: WebhookEndpoint)
        ensures
            r@ == self@,
    {
        WebhookEndpoint {
            url: self.url.clone(),
            label: copy_opt(&self.label),
            timeout_secs: self.timeout_secs,
            retry_attempts: self.retry_attempts,
            created_at: self.created_at,
        }
    }

    /// The notification target this record stands for: its label names it.
    pub fn to_endpoint(&self) -> (r: Endpoint)
        ensures
            r.url@ == self.url@,
            opt_string_view(r.name) == opt_string_view(self.label),
            r.timeout_secs == self.timeout_secs,
            r.retry_attempts == self.retry_attempts,
    {
        Endpoint {
            url: self.url.clone(),
            name: copy_opt(&self.label),
            timeout_secs: self.timeout_secs,
            retry_attempts: self.retry_attempts,
        }
    }
}

/// The registry.
pub struct Storage {
    webhooks: Vec<WebhookEndpoint>,
}

/// Whether `entries` holds an entry for `url`.
pub open spec fn has_url(entries: Seq<EntryView>, url: Seq<char>) -> bool {
    exists|i: int| 0 <= i < entries.len() && #[trigger] entries[i].url == url
}

/// No URL occurs twice.
pub open spec fn urls_unique(entries: Seq<EntryView>) -> bool {
    forall|i: int, j: int| 0 <= i < j < entries.len() ==> #[trigger] entries[i].url != #[trigger] entries[j].url
}

/// The entries of a list of records.
pub open spec fn entries_of(ws: Seq<WebhookEndpoint>) -> Seq<EntryView> {
    ws.map_values(|w: WebhookEndpoint| w@)
}

impl View for Storage {
    type V = Seq<EntryView>;

    closed spec fn view(&self) -> Seq<EntryView> {
        entries_of(self.webhooks@)
    }
}

impl Storage {
    /// No URL is registered twice.
    pub open spec fn wf(&self) -> bool {
        urls_unique(self@)
    }

    #[verifier::type_invariant]
    spec fn inv(&self) -> bool {
        self.wf()
    }

    /// An empty registry.
    pub fn new() -> (r: Storage)
        ensures
            r@ == Seq::<EntryView>::empty(),
            r.wf(),
    {
        let r = Storage { webhooks: Vec::new() };
        assert(r@ =~= Seq::<EntryView>::empty());
        r
    }

    /// The number of registered endpoints.
    pub fn len(&self) -> (r: usize)
        ensures
            r == self@.len(),
    {
        self.webhooks.len()
    }

    /// Whether an endpoint with exactly this URL is registered.
    pub fn contains(&self, url: &str) -> (r: bool)
        ensures
            r == has_url(self@, url@),
    {
        let mut i: usize = 0;
        while i < self.webhooks.len()
            invariant
                i <= self.webhooks.len(),
                forall|j: int| 0 <= j < i ==> #[trigger] self@[j].url != url@,
            decreases self.webhooks.len() - i,
        {
            if crate::status::same_text(self.webhooks[i].url.as_str(), url) {
                assert(self@[i as int].url == url@);
                return true;
            }
            i += 1;
        }
        false
    }

    /// Registers `request` at time `created_at`, `url_is_valid` telling
    /// whether its URL is a well-formed absolute URL. A URL already present
    /// is refused first, then a malformed one; nothing is ever replaced.
    pub fn register(&mut self, request: &WebhookRequest, url_is_valid: bool, created_at: i64) -> (r: Result<
        WebhookEndpoint,
        WebhookError,
    >)
        ensures
            final(self).wf(),
            has_url(old(self)@, request.url@) ==> r == Err::<WebhookEndpoint, WebhookError>(
                WebhookError::DuplicateUrl,
            ) && final(self)@ == old(self)@,
            !has_url(old(self)@, request.url@) && !url_is_valid ==> r == Err::<WebhookEndpoint, WebhookError>(
                WebhookError::InvalidUrl,
            ) && final(self)@ == old(self)@,
            url_is_valid && !has_url(old(self)@, request.url@) ==> r is Ok && r->Ok_0@ == request.entry_at(
                created_at,
            ) && final(self)@ == old(self)@.push(request.entry_at(created_at)),
    {
        proof {
            use_type_invariant(&*self);
        }
        if self.contains(request.url.as_str()) {
            return Err(WebhookError::DuplicateUrl);
        }
        if !url_is_valid {
            return Err(WebhookError::InvalidUrl);
        }
        let entry = WebhookEndpoint {
            url: request.url.clone(),
            label: copy_opt(&request.label),
            timeout_secs: request.timeout_secs,
            retry_attempts: request.retry_attempts,
            created_at,
        };
        let mut webhooks = self.get_webhooks();
        webhooks.push(entry.duplicate());
        assert(entries_of(webhooks@) =~= old(self)@.push(request.entry_at(created_at)));
        *self = Storage { webhooks };
        Ok(entry)
    }

    /// Registers `request` now. A URL already present is refused with
    /// `DuplicateUrl`; otherwise one that does not parse as an absolute URL
    /// with `InvalidUrl`, the registry being left as it was either way.
    pub fn add_endpoint(&mut self, request: &WebhookRequest) -> (r: Result<WebhookEndpoint, WebhookError>)
        ensures
            final(self).wf(),
            has_url(old(self)@, request.url@) ==> r == Err::<WebhookEndpoint, WebhookError>(
                WebhookError::DuplicateUrl,
            ) && final(self)@ == old(self)@,
            !has_url(old(self)@, request.url@) && !url_parses(request.url@) ==> r == Err::<
                WebhookEndpoint,
                WebhookError,
            >(WebhookError::InvalidUrl) && final(self)@ == old(self)@,
            url_parses(request.url@) && !has_url(old(self)@, request.url@) ==> r is Ok && r->Ok_0@
                == request.entry_at(r->Ok_0.created_at) && final(self)@ == old(self)@.push(r->Ok_0@),
    {
        let valid = is_absolute_url(request.url.as_str());
        let now = utc_now_secs();
        self.register(request, valid, now)
    }

    /// Registers `url`, with no label and no overrides, now. A URL already
    /// present is refused with `DuplicateUrl`; otherwise one that does not
    /// parse as an absolute URL with `InvalidUrl`, the registry being left as
    /// it was either way.
    pub fn add_webhook(&mut self, url: &str) -> (r: Result<WebhookEndpoint, WebhookError>)
        ensures
            final(self).wf(),
            has_url(old(self)@, url@) ==> r == Err::<WebhookEndpoint, WebhookError>(WebhookError::DuplicateUrl)
                && final(self)@ == old(self)@,
            !has_url(old(self)@, url@) && !url_parses(url@) ==> r == Err::<WebhookEndpoint, WebhookError>(
                WebhookError::InvalidUrl,
            ) && final(self)@ == old(self)@,
            url_parses(url@) && !has_url(old(self)@, url@) ==> r is Ok && r->Ok_0.url@ == url@
                && r->Ok_0.label is None && r->Ok_0.timeout_secs is None && r->Ok_0.retry_attempts is None
                && final(self)@ == old(self)@.push(r->Ok_0@),
    {
        let request = WebhookRequest::with_url(url);
        self.add_endpoint(&request)
    }

    /// A snapshot of the registered endpoints, in registration order.
    pub fn get_webhooks(&self) -> (r: Vec<WebhookEndpoint>)
        ensures
            entries_of(r@) == self@,
    {
        let mut out: Vec<WebhookEndpoint> = Vec::new();
        let mut i: usize = 0;
        while i < self.webhooks.len()
            invariant
                i <= self.webhooks.len(),
                entries_of(out@) == self@.take(i as int),
            decreases self.webhooks.len() - i,
        {
            let ghost prev = out@;
            let d = self.webhooks[i].duplicate();
            out.push(d);
            assert(d@ == self@[i as int]);
            assert(entries_of(out@) =~= entries_of(prev).push(d@));
            assert(self@.take(i as int + 1) =~= self@.take(i as int).push(self@[i as int]));
            i += 1;
        }
        assert(self@.take(self.webhooks.len() as int) =~= self@);
        out
    }

    /// Removes the endpoint with exactly this URL, if there is one.
    pub fn delete_webhook(&mut self, url: &str)
        ensures
            final(self).wf(),
            final(self)@ == old(self)@.filter(|e: EntryView| e.url != url@),
    {
        proof {
            use_type_invariant(&*self);
        }
        let ghost keep = |e: EntryView| e.url != url@;
        let mut kept: Vec<WebhookEndpoint> = Vec::new();
        let mut i: usize = 0;
        while i < self.webhooks.len()
            invariant
                i <= self.webhooks.len(),
                self@ == old(self)@,
                keep == (|e: EntryView| e.url != url@),
                entries_of(kept@) == self@.take(i as int).filter(keep),
            decreases self.webhooks.len() - i,
        {
            assert(self@.take(i as int + 1).drop_last() =~= self@.take(i as int));
            proof {
                reveal(Seq::filter);
            }
            assert(self@.take(i as int + 1).last() == self@[i as int]);
            assert(self@[i as int] == self.webhooks@[i as int]@);
            assert(self@.take(i as int + 1).filter(keep) == (if keep(self@[i as int]) {
                self@.take(i as int).filter(keep).push(self@[i as int])
            } else {
                self@.take(i as int).filter(keep)
            }));
            if !crate::status::same_text(self.webhooks[i].url.as_str(), url) {
                let ghost prev = kept@;
                let d = self.webhooks[i].duplicate();
                kept.push(d);
                assert(d@ == self@[i as int]);
                assert(keep(self@[i as int]));
                assert(entries_of(kept@) =~= entries_of(prev).push(d@));
            } else {
                assert(!keep(self@[i as int]));
            }
            i += 1;
        }
        assert(self@.take(self.webhooks.len() as int) =~= self@);
        proof {
            lemma_filter_keeps_unique(old(self)@, keep);
        }
        *self = Storage { webhooks: kept };
    }
}

/// Every entry that a filter keeps comes from the filtered sequence.
proof fn lemma_filter_from(entries: Seq<EntryView>, keep: spec_fn(EntryView) -> bool)
    ensures
        forall|i: int| 0 <= i < entries.filter(keep).len() ==> exists|j: int|
            0 <= j < entries.len() && entries[j] == #[trigger] entries.filter(keep)[i],
    decreases entries.len(),
{
    reveal(Seq::filter);
    if entries.len() > 0 {
        let init = entries.drop_last();
        lemma_filter_from(init, keep);
        let f = entries.filter(keep);
        assert forall|i: int| 0 <= i < f.len() implies exists|j: int|
            0 <= j < entries.len() && entries[j] == #[trigger] f[i] by {
            if i < init.filter(keep).len() {
                let j = choose|j: int| 0 <= j < init.len() && init[j] == #[trigger] init.filter(keep)[i];
                assert(entries[j] == f[i]);
            } else {
                assert(entries[entries.len() - 1] == f[i]);
            }
        }
    }
}

/// Filtering keeps the URLs unique.
proof fn lemma_filter_keeps_unique(entries: Seq<EntryView>, keep: spec_fn(EntryView) -> bool)
    requires
        urls_unique(entries),
    ensures
        urls_unique(entries.filter(keep)),
    decreases entries.len(),
{
    reveal(Seq::filter);
    if entries.len() > 0 {
        let init = entries.drop_last();
        assert(urls_unique(init));
        lemma_filter_keeps_unique(init, keep);
        if keep(entries.last()) {
            let f = init.filter(keep);
            lemma_filter_from(init, keep);
            assert forall|i: int| 0 <= i < f.len() implies #[trigger] f[i].url != entries.last().url by {
                let j = choose|j: int| 0 <= j < init.len() && init[j] == #[trigger] f[i];
                assert(entries[j] == init[j]);
            }
            let g = entries.filter(keep);
            assert(g == f.push(entries.last()));
            assert forall|a: int, b: int| 0 <= a < b < g.len() implies #[trigger] g[a].url != #[trigger] g[b].url by {
                if b == g.len() - 1 {
                    assert(g[a] == f[a]);
                } else {
                    assert(g[a] == f[a] && g[b] == f[b]);
                }
            }
        }
    }
}

} // verus!
