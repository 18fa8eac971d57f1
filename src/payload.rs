//! The JSON texts the service sends: webhook notifications, status answers
//! and state updates for push-driven sources.
//!
//! The framing is written here; string values are escaped by `serde_json`
//! and timestamps are rendered by `chrono`.

use vstd::prelude::*;
use vstd::string::*;
use crate::status::{StatusEvent, status_name};

verus! {

/// A lower-case hexadecimal digit.
pub open spec fn hex_digit(n: int) -> char {
    seq!['0', '1', '2', '3', '4', '5', '6', '7', '8', '9', 'a', 'b', 'c', 'd', 'e', 'f'][n]
}

/// How `serde_json` writes one character inside a string: `"` and `\` and
/// the control characters below U+0020 are escaped, the short forms `\b`,
/// `\t`, `\n`, `\f`, `\r` where they exist and `\u00XX` otherwise; every
/// other character stands for itself.
pub open spec fn escape_char(c: char) -> Seq<char> {
    let n = c as u32;
    if c == '"' {
        seq!['\\', '"']
    } else if c == '\\' {
        seq!['\\', '\\']
    } else if n == 8 {
        seq!['\\', 'b']
    } else if n == 9 {
        seq!['\\', 't']
    } else if n == 10 {
        seq!['\\', 'n']
    } else if n == 12 {
        seq!['\\', 'f']
    } else if n == 13 {
        seq!['\\', 'r']
    } else if n < 32 {
        seq!['\\', 'u', '0', '0', hex_digit(n as int / 16), hex_digit(n as int % 16)]
    } else {
        seq![c]
    }
}

/// The characters of `s`, each written as `escape_char` says.
pub open spec fn escaped(s: Seq<char>) -> Seq<char>
    decreases s.len(),
{
    if s.len() == 0 {
        Seq::empty()
    } else {
        escaped(s.drop_last()) + escape_char(s.last())
    }
}

/// The JSON string literal that `serde_json` writes for `s`.
pub open spec fn json_string_of(s: Seq<char>) -> Seq<char> {
    seq!['"'] + escaped(s) + seq!['"']
}

/// Whether `c` stands for itself inside a JSON string.
pub open spec fn is_plain_char(c: char) -> bool {
    c != '"' && c != '\\' && c as u32 >= 32
}

/// Text without quotes, backslashes or control characters is written as it
/// is, between quotes.
pub proof fn lemma_plain_text_is_quoted(s: Seq<char>)
    requires
        forall|i: int| 0 <= i < s.len() ==> is_plain_char(#[trigger] s[i]),
    ensures
        json_string_of(s) == seq!['"'] + s + seq!['"'],
    decreases s.len(),
{
    lemma_plain_text_escapes_to_itself(s);
}

proof fn lemma_plain_text_escapes_to_itself(s: Seq<char>)
    requires
        forall|i: int| 0 <= i < s.len() ==> is_plain_char(#[trigger] s[i]),
    ensures
        escaped(s) == s,
    decreases s.len(),
{
    if s.len() == 0 {
        assert(escaped(s) =~= s);
    } else {
        let init = s.drop_last();
        assert forall|i: int| 0 <= i < init.len() implies is_plain_char(#[trigger] init[i]) by {
            assert(init[i] == s[i]);
        }
        lemma_plain_text_escapes_to_itself(init);
        assert(is_plain_char(s[s.len() - 1]));
        assert(escape_char(s.last()) == seq![s.last()]);
        assert(escaped(s) =~= s);
    }
}

/// The RFC 3339 rendering by `chrono` of the UTC instant `secs` seconds after
/// the Unix epoch, or `None` where `chrono` cannot represent that instant.
pub uninterp spec fn rfc3339_of(secs: i64) -> Option<Seq<char>>;

/// Relies on `serde_json::to_string` applied to a `str`: a quote, the
/// characters escaped as its escape table says, a quote. It writes into
/// memory, which cannot fail for a `str`.
#[verifier::external_body]
fn json_string(s: &str) -> (r: String)
    ensures
        r@ == json_string_of(s@),
{
    serde_json::to_string(s).unwrap_or_default()
}

/// Relies on `chrono::DateTime::<Utc>::from_timestamp(secs, 0)` and its
/// `to_rfc3339`: `None` where the instant is out of range.
#[verifier::external_body]
fn rfc3339_utc(secs: i64) -> (r: Option<String>)
    ensures
        match r {
            Some(t) => rfc3339_of(secs) == Some(t@),
            None => rfc3339_of(secs) is None,
        },
{
    match chrono::DateTime::<chrono::Utc>::from_timestamp(secs, 0) {
        Some(t) => Some(t.to_rfc3339()),
        None => None,
    }
}

/// The text of an optional string argument.
pub open spec fn opt_text(o: Option<&str>) -> Option<Seq<char>> {
    match o {
        Some(s) => Some(s@),
        None => None,
    }
}

/// An optional member: nothing when absent, else `prefix` and the value.
pub open spec fn opt_member(prefix: Seq<char>, value: Option<Seq<char>>) -> Seq<char> {
    match value {
        Some(v) => prefix + json_string_of(v),
        None => Seq::empty(),
    }
}

/// The webhook notification: `state`, `timestamp`, then `source` and
/// `event_type` where given.
pub open spec fn payload_text(
    state: StatusEvent,
    timestamp: Seq<char>,
    source: Option<Seq<char>>,
    event_type: Option<Seq<char>>,
) -> Seq<char> {
    "{\"state\":"@ + json_string_of(status_name(state)) + ",\"timestamp\":"@ + json_string_of(timestamp)
        + opt_member(",\"source\":"@, source) + opt_member(",\"event_type\":"@, event_type) + "}"@
}

/// The answer to a status query.
pub open spec fn status_text(state: StatusEvent) -> Seq<char> {
    "{\"state\":"@ + json_string_of(status_name(state)) + "}"@
}

/// The message that tells a push-driven source's client the current state.
pub open spec fn state_update_text(state: StatusEvent) -> Seq<char> {
    "{\"event\":\"state_update\",\"state\":"@ + json_string_of(status_name(state)) + "}"@
}

fn append_member(out: &mut String, prefix: &str, value: Option<&str>)
    ensures
        final(out)@ == old(out)@ + opt_member(prefix@, opt_text(value)),
{
    match value {
        Some(v) => {
            out.append(prefix);
            let q = json_string(v);
            out.append(q.as_str());
        },
        None => {
            assert(old(out)@ + Seq::<char>::empty() =~= old(out)@);
        },
    }
}

/// The webhook notification for `state` at the given ISO-8601 timestamp.
pub fn build_payload(state: StatusEvent, timestamp: &str, source: Option<&str>, event_type: Option<&str>) -> (r: String)
    ensures
        r@ == payload_text(state, timestamp@, opt_text(source), opt_text(event_type)),
{
    let mut out = String::from_str("{\"state\":");
    let name = json_string(state.as_str());
    out.append(name.as_str());
    out.append(",\"timestamp\":");
    let ts = json_string(timestamp);
    out.append(ts.as_str());
    append_member(&mut out, ",\"source\":", source);
    append_member(&mut out, ",\"event_type\":", event_type);
    out.append("}");
    out
}

/// The webhook notification for `state` at `at_secs` seconds after the Unix
/// epoch; `None` where that instant cannot be rendered.
pub fn notification_payload(state: StatusEvent, at_secs: i64, source: Option<&str>, event_type: Option<&str>) -> (r:
    Option<String>)
    ensures
        match rfc3339_of(at_secs) {
            Some(ts) => r is Some && r->Some_0@ == payload_text(state, ts, opt_text(source), opt_text(event_type)),
            None => r is None,
        },
{
    match rfc3339_utc(at_secs) {
        Some(ts) => Some(build_payload(state, ts.as_str(), source, event_type)),
        None => None,
    }
}

/// The answer to a status query for `state`.
pub fn status_body(state: StatusEvent) -> (r: String)
    ensures
        r@ == status_text(state),
{
    let mut out = String::from_str("{\"state\":");
    let name = json_string(state.as_str());
    out.append(name.as_str());
    out.append("}");
    out
}

/// The state-update message for `state`.
pub fn state_update_message(state: StatusEvent) -> (r: String)
    ensures
        r@ == state_update_text(state),
{
    let mut out = String::from_str("{\"event\":\"state_update\",\"state\":");
    let name = json_string(state.as_str());
    out.append(name.as_str());
    out.append("}");
    out
}

} // verus!
