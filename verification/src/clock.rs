//! Time stamps: microseconds since the Unix epoch, their RFC 2822 text, and
//! the system clock.

use chrono::{DateTime, Utc};
use vstd::prelude::*;

verus! {

/// The first microsecond of the year 0, counted from the Unix epoch.
pub const RFC2822_FIRST: i64 = -62_167_219_200_000_000;

/// The last microsecond of the year 9999, counted from the Unix epoch.
pub const RFC2822_LAST: i64 = 253_402_300_799_999_999;

/// RFC 2822 writes a year with four digits, so a time stamp has such a text
/// exactly when it falls in the years 0 to 9999.
pub open spec fn representable(micros: int) -> bool {
    RFC2822_FIRST <= micros <= RFC2822_LAST
}

/// The RFC 2822 text of the UTC time `micros` microseconds after the Unix
/// epoch, as `chrono` writes it (`Thu, 1 Jan 1970 00:00:00 +0000`).
pub uninterp spec fn rfc2822_text(micros: int) -> Seq<char>;

/// Whether `micros` has an RFC 2822 text.
pub fn is_representable(micros: i64) -> (r: bool)
    ensures
        r == representable(micros as int),
{
    RFC2822_FIRST <= micros && micros <= RFC2822_LAST
}

/// Calls `chrono::DateTime::from_timestamp_micros` and then
/// `DateTime::to_rfc2822` on its result. The first returns a value for every
/// time stamp in the years 0 to 9999, and the second panics outside those
/// years only, so both are total under the precondition. The text depends on
/// the time stamp alone (the zone is UTC) and is named by [`rfc2822_text`].
#[verifier::external_body]
pub(crate) fn rfc2822(micros: i64) -> (r: String)
    requires
        representable(micros as int),
    ensures
        r@ == rfc2822_text(micros as int),
{
    DateTime::from_timestamp_micros(micros).map(|t| t.to_rfc2822()).unwrap_or_default()
}

/// Calls `chrono::Utc::now` and `DateTime::timestamp_micros`: the system
/// clock in microseconds since the Unix epoch. Nothing is promised of the
/// value: two calls may return anything, in any order. `Utc::now` panics
/// where the clock of the machine stands before 1970.
#[verifier::external_body]
pub(crate) fn now_micros() -> (r: i64) {
    Utc::now().timestamp_micros()
}

} // verus!
