//! Timestamps and identifiers that come from outside: RFC 3339 text, the
//! server clock, random audit ids.
use vstd::prelude::*;

verus! {

/// Milliseconds since the epoch denoted by an RFC 3339 text, if it is one.
pub uninterp spec fn rfc3339_millis(s: Seq<char>) -> Option<int>;

/// RFC 3339 text (UTC) of a time in milliseconds since the epoch; empty when
/// the time is outside the representable range.
pub uninterp spec fn rfc3339_text(ms: int) -> Seq<char>;

/// Relies on `chrono::DateTime::parse_from_rfc3339`: parses an RFC 3339
/// date-time, whose instant is then read in milliseconds since the epoch.
#[verifier::external_body]
pub(crate) fn parse_rfc3339(s: &str) -> (r: Option<i64>)
    ensures
        match r {
            Some(ms) => rfc3339_millis(s@) == Some(ms as int),
            None => rfc3339_millis(s@) is None,
        },
{
    match chrono::DateTime::parse_from_rfc3339(s) {
        Ok(d) => Some(d.timestamp_millis()),
        Err(_) => None,
    }
}

/// Relies on `chrono::DateTime::<Utc>::from_timestamp_millis` and
/// `to_rfc3339`: the RFC 3339 text of a UTC instant.
#[verifier::external_body]
pub(crate) fn format_rfc3339(ms: i64) -> (r: String)
    ensures
        r@ == rfc3339_text(ms as int),
{
    match chrono::DateTime::<chrono::Utc>::from_timestamp_millis(ms) {
        Some(d) => d.to_rfc3339(),
        None => String::new(),
    }
}

/// Relies on `chrono::Utc::now`: the server clock in milliseconds since the
/// epoch. Nothing is known of the value.
#[verifier::external_body]
pub(crate) fn now_millis() -> (r: i64) {
    chrono::Utc::now().timestamp_millis()
}

/// Relies on `uuid::Uuid::new_v4` and its simple format: 32 lowercase
/// hexadecimal digits of a random UUID.
#[verifier::external_body]
pub(crate) fn random_uuid_simple() -> (r: String)
    ensures
        r@.len() == 32,
{
    uuid::Uuid::new_v4().simple().to_string()
}

/// The instant an RFC 3339 timestamp denotes, in milliseconds since the
/// epoch; none when the text is not RFC 3339.
pub fn parse_event_ts(ts: &str) -> (r: Option<i64>)
    ensures
        match r {
            Some(ms) => rfc3339_millis(ts@) == Some(ms as int),
            None => rfc3339_millis(ts@) is None,
        },
{
    parse_rfc3339(ts)
}

/// Reads the server clock, in milliseconds since the epoch.
pub fn server_now() -> i64 {
    now_millis()
}

} // verus!
