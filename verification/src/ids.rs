//! Identifiers and instants from the outside world.

use crate::models::Timestamp;
use std::fmt::Write;
use vstd::prelude::*;

verus! {

/// The lower-case hex digit for a value below 16.
pub open spec fn hex_char(n: int) -> char {
    if n < 10 {
        (('0' as int) + n) as char
    } else {
        (('a' as int) + n - 10) as char
    }
}

/// Hex digit `d` of a 128-bit value, counting from the most significant (`0`) to the
/// least significant (`31`).
pub open spec fn nibble(id: u128, d: int) -> int {
    (id as int / vstd::arithmetic::power::pow(16, (31 - d) as nat)) % 16
}

/// The canonical text of a UUID: its 32 hex digits, most significant first, in lower
/// case, in groups of 8, 4, 4, 4 and 12 joined by `-`.
pub open spec fn uuid_text(id: u128) -> Seq<char> {
    Seq::new(36, |i: int|
        if i == 8 || i == 13 || i == 18 || i == 23 {
            '-'
        } else {
            hex_char(nibble(id, i - (if i < 8 { 0int } else if i < 13 { 1int } else if i < 18 { 2int } else if i < 23 { 3int } else { 4int })))
        })
}

/// Formats the UUID whose bits are `id` (`uuid::Uuid::from_u128`, big-endian) with its
/// `Display`, which writes the hyphenated lower-case form `uuid_text` states.
#[verifier::external_body]
pub(crate) fn id_text(id: u128) -> (r: String)
    ensures
        r@ == uuid_text(id),
{
    uuid::Uuid::from_u128(id).to_string()
}

/// A fresh random (version 4) UUID from `uuid::Uuid::new_v4`; nothing is promised of its bits.
#[verifier::external_body]
pub(crate) fn fresh_id() -> (r: u128) {
    uuid::Uuid::new_v4().as_u128()
}

/// The current instant from `chrono::Utc::now`; nothing is promised of it.
#[verifier::external_body]
pub(crate) fn current_time() -> (r: Timestamp) {
    let now = chrono::Utc::now();
    Timestamp { secs: now.timestamp(), nanos: now.timestamp_subsec_nanos() }
}

/// The text of an instant under a `strftime` pattern, as `chrono` renders it in UTC (empty
/// when chrono cannot represent the instant or the pattern is not valid).
pub uninterp spec fn time_text(t: Timestamp, pattern: Seq<char>) -> Seq<char>;

/// Renders an instant with `chrono::DateTime::format`; the result is named `time_text`.
#[verifier::external_body]
pub(crate) fn format_time(t: Timestamp, pattern: &str) -> (r: String)
    ensures
        r@ == time_text(t, pattern@),
{
    let mut out = String::new();
    match chrono::DateTime::from_timestamp(t.secs, t.nanos) {
        Some(d) => match write!(out, "{}", d.format(pattern)) {
            Ok(()) => out,
            Err(_) => String::new(),
        },
        None => out,
    }
}

/// The RFC 3339 text of an instant, as `chrono` renders it in UTC (empty when chrono cannot
/// represent the instant).
pub uninterp spec fn rfc3339_text(t: Timestamp) -> Seq<char>;

/// Renders an instant with `chrono::DateTime::to_rfc3339`; the result is named `rfc3339_text`.
#[verifier::external_body]
pub(crate) fn format_rfc3339(t: Timestamp) -> (r: String)
    ensures
        r@ == rfc3339_text(t),
{
    match chrono::DateTime::from_timestamp(t.secs, t.nanos) {
        Some(d) => d.to_rfc3339(),
        None => String::new(),
    }
}

} // verus!
