//! Trusted declarations for the few outside calls the library relies on:
//! identifier generation (uuid), calendar formatting and parsing (chrono),
//! and assembling a `String` from computed characters (std).

use vstd::prelude::*;

verus! {

/// What chrono renders for a Unix timestamp under the compact
/// `YYYYMMDD_HHMMSS` layout.  The rendering is a function of the
/// timestamp alone.
pub uninterp spec fn timestamp_label(secs: u64) -> Seq<char>;

/// What chrono parses back from a compact `YYYYMMDD_HHMMSS` text:
/// the Unix timestamp, or nothing if the text is not a valid instant.
/// The result is a function of the text alone.
pub uninterp spec fn timestamp_parse(s: Seq<char>) -> Option<i64>;

/// Relies on std's `Iterator::collect` for `String`: the collected string
/// holds exactly the characters of the vector, in order.
#[verifier::external_body]
pub fn chars_to_string(v: &Vec<char>) -> (r: String)
    ensures
        r@ == v@,
{
    v.iter().collect()
}

/// Relies on uuid's `Uuid::new_v4` and its `Display` impl: the hyphenated
/// form is 36 characters, lowercase hexadecimal digits in groups of
/// 8-4-4-4-12 separated by `-`.  The value itself is random, so nothing
/// more is promised.
#[verifier::external_body]
pub fn new_uuid_string() -> (r: String)
    ensures
        r@.len() == 36,
        forall|i: int|
            0 <= i < 36 ==> (('0' <= #[trigger] r@[i] && r@[i] <= '9') || ('a' <= r@[i] && r@[i]
                <= 'f') || r@[i] == '-'),
{
    uuid::Uuid::new_v4().to_string()
}

/// Relies on chrono's `DateTime::from_timestamp` and `format("%Y%m%d_%H%M%S")`:
/// for instants before year 10000 the rendering is eight digits for the date,
/// an underscore, and six digits for the time of day.
#[verifier::external_body]
pub fn format_timestamp(secs: u64) -> (r: String)
    requires
        secs < 253402300800,
    ensures
        r@ == timestamp_label(secs),
        r@.len() == 15,
        r@[8] == '_',
        forall|i: int| 0 <= i < 15 && i != 8 ==> crate::text::spec_is_digit(r@[i]),
{
    let dt = chrono::DateTime::<chrono::Utc>::from_timestamp(secs as i64, 0)
        .unwrap_or(chrono::DateTime::<chrono::Utc>::UNIX_EPOCH);
    dt.format("%Y%m%d_%H%M%S").to_string()
}

/// What chrono renders for a Unix timestamp under RFC 3339.  The
/// rendering is a function of the timestamp alone.
pub uninterp spec fn rfc3339_label(secs: u64) -> Seq<char>;

/// Relies on chrono's `DateTime::from_timestamp` and `to_rfc3339`: the
/// instant written out in RFC 3339 form.
#[verifier::external_body]
pub fn format_rfc3339(secs: u64) -> (r: String)
    requires
        secs < 253402300800,
    ensures
        r@ == rfc3339_label(secs),
        r@.len() > 0,
{
    let dt = chrono::DateTime::<chrono::Utc>::from_timestamp(secs as i64, 0)
        .unwrap_or(chrono::DateTime::<chrono::Utc>::UNIX_EPOCH);
    dt.to_rfc3339()
}

/// What chrono parses back from an RFC 3339 text: the Unix timestamp,
/// or nothing if the text is not such an instant.  The result is a
/// function of the text alone.
pub uninterp spec fn rfc3339_parse(s: Seq<char>) -> Option<i64>;

/// Relies on chrono's `DateTime::parse_from_rfc3339` and `timestamp`:
/// the Unix timestamp an RFC 3339 text denotes.
#[verifier::external_body]
pub fn parse_rfc3339(s: &str) -> (r: Option<i64>)
    ensures
        r == rfc3339_parse(s@),
{
    chrono::DateTime::parse_from_rfc3339(s).ok().map(|t| t.timestamp())
}

/// Relies on chrono's `NaiveDateTime::parse_from_str` with the same
/// `%Y%m%d_%H%M%S` layout, and `and_utc().timestamp()`: the parsed Unix
/// timestamp, or nothing when the text does not denote an instant.
#[verifier::external_body]
pub fn parse_timestamp(s: &str) -> (r: Option<i64>)
    ensures
        r == timestamp_parse(s@),
{
    chrono::NaiveDateTime::parse_from_str(s, "%Y%m%d_%H%M%S")
        .ok()
        .map(|t| t.and_utc().timestamp())
}

} // verus!
