//! What a client is sent.

use crate::cache::clock::elapsed_since_epoch;
use crate::models::requests::text_view;
use vstd::prelude::*;
use vstd::string::StringExecFns;

verus! {

/// The sentence that reports what was done to `key`: `Key '`, the key, `' `,
/// the deed, ` successfully`.
pub open spec fn report(key: Seq<char>, deed: Seq<char>) -> Seq<char> {
    "Key '"@ + key + "' "@ + deed + " successfully"@
}

/// Writes the sentence that reports what was done to `key`.
fn write_report(key: &str, deed: &str) -> (sentence: String)
    ensures
        sentence@ == report(key@, deed@),
{
    "Key '".to_owned().concat(key).concat("' ").concat(deed).concat(" successfully")
}

/// The text that `chrono::DateTime::from_timestamp`, rendered by
/// `DateTime::to_rfc3339`, gives for a time in seconds and nanoseconds since
/// the Unix epoch; `None` where chrono has no such time.
pub uninterp spec fn rfc3339_text(secs: i64, nanos: u32) -> Option<Seq<char>>;

/// `chrono::DateTime::from_timestamp`, rendered by `DateTime::to_rfc3339`:
/// the date and time in UTC, as RFC 3339 text, that lies `secs` seconds and
/// `nanos` nanoseconds after the Unix epoch, or `None` where the seconds are
/// out of chrono's range or the nanoseconds are invalid. The same numbers
/// always give the same text.
#[verifier::external_body]
fn rfc3339_of(secs: i64, nanos: u32) -> (text: Option<String>)
    ensures
        text_view(text) == rfc3339_text(secs, nanos),
{
    match chrono::DateTime::from_timestamp(secs, nanos) {
        Some(moment) => Some(moment.to_rfc3339()),
        None => None,
    }
}

/// The timestamp of a health check for a reading of the clock, in seconds
/// and nanoseconds since the Unix epoch: the RFC 3339 text of that time. A
/// clock that reads before the epoch counts as reading the epoch. A time
/// that has no such text gives the text of the epoch.
pub open spec fn health_timestamp(elapsed: Option<(u64, u32)>) -> Seq<char> {
    let (secs, nanos) = match elapsed {
        Some(reading) => reading,
        None => (0u64, 0u32),
    };
    if secs <= i64::MAX && rfc3339_text(secs as i64, nanos) is Some {
        rfc3339_text(secs as i64, nanos)->Some_0
    } else {
        "1970-01-01T00:00:00+00:00"@
    }
}

/// The body that answers a successful read.
#[derive(Debug, Clone)]
pub struct GetResponse {
    /// The key that was asked for.
    pub key: String,
    /// The value stored under it.
    pub value: String,
}

impl GetResponse {
    /// The answer that gives `value` as what is stored under `key`.
    pub fn new(key: &str, value: &str) -> (response: Self)
        ensures
            response.key@ == key@,
            response.value@ == value@,
    {
        GetResponse { key: key.to_owned(), value: value.to_owned() }
    }
}

/// The body that answers a successful store.
#[derive(Debug, Clone)]
pub struct SetResponse {
    /// A sentence that names the key.
    pub message: String,
    /// The key that was stored under.
    pub key: String,
}

impl SetResponse {
    /// The answer that reports `key` as set.
    pub fn new(key: &str) -> (response: Self)
        ensures
            response.key@ == key@,
            response.message@ == report(key@, "set"@),
    {
        SetResponse { message: write_report(key, "set"), key: key.to_owned() }
    }
}

/// The body that answers a successful delete.
#[derive(Debug, Clone)]
pub struct DeleteResponse {
    /// A sentence that names the key.
    pub message: String,
    /// The key that was deleted.
    pub key: String,
}

impl DeleteResponse {
    /// The answer that reports `key` as deleted.
    pub fn new(key: &str) -> (response: Self)
        ensures
            response.key@ == key@,
            response.message@ == report(key@, "deleted"@),
    {
        DeleteResponse { message: write_report(key, "deleted"), key: key.to_owned() }
    }
}

/// The body that answers a health check.
#[derive(Debug, Clone)]
pub struct HealthResponse {
    /// `healthy`.
    pub status: String,
    /// When the answer was made, as RFC 3339 text.
    pub timestamp: String,
}

impl HealthResponse {
    /// A healthy answer made now.
    pub fn healthy() -> (response: Self)
        ensures
            response.status@ == "healthy"@,
            exists|elapsed: Option<(u64, u32)>|
                response.timestamp@ == #[trigger] health_timestamp(elapsed),
    {
        HealthResponse::healthy_from(elapsed_since_epoch())
    }

    /// A healthy answer made at the time of a reading of the clock; see
    /// [`health_timestamp`].
    pub fn healthy_from(elapsed: Option<(u64, u32)>) -> (response: Self)
        ensures
            response.status@ == "healthy"@,
            response.timestamp@ == health_timestamp(elapsed),
    {
        let (secs, nanos) = match elapsed {
            Some(reading) => reading,
            None => (0u64, 0u32),
        };
        let rendered = if secs <= i64::MAX as u64 {
            rfc3339_of(secs as i64, nanos)
        } else {
            None
        };
        let timestamp = match rendered {
            Some(text) => text,
            None => "1970-01-01T00:00:00+00:00".to_owned(),
        };
        HealthResponse::healthy_at(timestamp)
    }

    /// A healthy answer made at the time that `timestamp` spells.
    pub fn healthy_at(timestamp: String) -> (response: Self)
        ensures
            response.status@ == "healthy"@,
            response.timestamp@ == timestamp@,
    {
        HealthResponse { status: "healthy".to_owned(), timestamp }
    }
}

/// The body that answers a failed request.
#[derive(Debug, Clone)]
pub struct ErrorResponse {
    /// What went wrong.
    pub error: String,
}

impl ErrorResponse {
    /// The answer that says what went wrong.
    pub fn new(error: &str) -> (response: Self)
        ensures
            response.error@ == error@,
    {
        ErrorResponse { error: error.to_owned() }
    }
}

} // verus!
