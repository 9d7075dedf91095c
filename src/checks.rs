//! Checks that only outside crates can make: whether text is a URL (and its
//! normalised form), and whether a timestamp is a representable date-time.
//! Also the integer parsing of timestamps.
use vstd::prelude::*;
use vstd::string::*;

use crate::text::{all_radix_digits, parse_digits, radix_value};

verus! {

/// The normalised text of the URL `s`, where `s` is a valid absolute URL.
pub uninterp spec fn parsed_url(s: Seq<char>) -> Option<Seq<char>>;

/// The earliest UTC date-time chrono represents, 1 January of year -262143,
/// in seconds since the Unix epoch.
pub const MIN_UTC_TIMESTAMP: i64 = -8334601228800;

/// The last second of the latest UTC date-time chrono represents, 31 December
/// of year 262142, in seconds since the Unix epoch.
pub const MAX_UTC_TIMESTAMP: i64 = 8210266876799;

/// Whether `secs` seconds after the Unix epoch is a representable UTC
/// date-time.
pub open spec fn utc_timestamp_valid(secs: int) -> bool {
    MIN_UTC_TIMESTAMP <= secs <= MAX_UTC_TIMESTAMP
}

/// Relies on `url::Url::parse`: a valid URL, in its serialised form.
#[verifier::external_body]
pub(crate) fn parse_url(s: &str) -> (r: Option<String>)
    ensures
        r matches Some(u) ==> parsed_url(s@) == Some(u@),
        r is None ==> parsed_url(s@) is None,
{
    match url::Url::parse(s) {
        Ok(u) => Some(String::from(u)),
        Err(_) => None,
    }
}

/// Relies on `chrono::TimeZone::timestamp_opt` for `Utc`: a whole number of
/// seconds since the epoch is a date-time exactly when its day lies between
/// `NaiveDate::MIN` and `NaiveDate::MAX`.
#[verifier::external_body]
pub(crate) fn utc_representable(secs: i64) -> (r: bool)
    ensures
        r == utc_timestamp_valid(secs as int),
{
    chrono::TimeZone::timestamp_opt(&chrono::Utc, secs, 0).single().is_some()
}

/// The signed integer that `s` denotes: an optional `+` or `-`, then one or
/// more decimal digits, with a value in the range of `i64`.
pub open spec fn parse_i64_spec(s: Seq<char>) -> Option<int> {
    let neg = s.len() > 0 && s[0] == '-';
    let signed = s.len() > 0 && (s[0] == '-' || s[0] == '+');
    let digits = if signed { s.drop_first() } else { s };
    let v = radix_value(digits, 10) as int;
    let x = if neg { -v } else { v };
    if digits.len() > 0 && all_radix_digits(digits, 10) && i64::MIN <= x <= i64::MAX {
        Some(x)
    } else {
        None
    }
}

/// Parses a signed decimal integer; see [`parse_i64_spec`].
pub fn parse_i64(s: &str) -> (r: Option<i64>)
    ensures
        r matches Some(v) ==> parse_i64_spec(s@) == Some(v as int),
        r is None ==> parse_i64_spec(s@) is None,
{
    let n = s.unicode_len();
    let neg = n > 0 && s.get_char(0) == '-';
    let signed = n > 0 && (s.get_char(0) == '-' || s.get_char(0) == '+');
    let digits = if signed {
        s.substring_char(1, n)
    } else {
        s
    };
    if signed {
        assert(s@.subrange(1, n as int) =~= s@.drop_first());
    }
    let mag = match parse_digits(digits, 10) {
        Some(m) => m,
        None => return None,
    };
    if neg {
        if mag <= 0x8000_0000_0000_0000u64 {
            Some((0i128 - mag as i128) as i64)
        } else {
            None
        }
    } else {
        if mag <= 0x7fff_ffff_ffff_ffffu64 {
            Some(mag as i64)
        } else {
            None
        }
    }
}

/// A timestamp in seconds, where the text is an integer that names a
/// representable date-time.
pub open spec fn timestamp_spec(s: Seq<char>) -> Option<int> {
    match parse_i64_spec(s) {
        Some(t) => if utc_timestamp_valid(t) {
            Some(t)
        } else {
            None
        },
        None => None,
    }
}

/// Reads a timestamp in seconds since the epoch from its text.
pub fn parse_timestamp(s: &str) -> (r: Option<i64>)
    ensures
        r matches Some(t) ==> timestamp_spec(s@) == Some(t as int),
        r is None ==> timestamp_spec(s@) is None,
{
    match parse_i64(s) {
        Some(t) => if utc_representable(t) {
            Some(t)
        } else {
            None
        },
        None => None,
    }
}

/// Reads a URL, normalised, where the text is a valid URL.
pub fn url_from_text(s: &str) -> (r: Option<String>)
    ensures
        r matches Some(u) ==> parsed_url(s@) == Some(u@),
        r is None ==> parsed_url(s@) is None,
{
    parse_url(s)
}

} // verus!
