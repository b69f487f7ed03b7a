//! Rendering of commit and tag timestamps as UTC date-time strings.
//!
//! Git records a timestamp as seconds since the Unix epoch together with a
//! local offset; the store always normalizes to UTC and keeps only the
//! rendered text.  The rendering itself is done by the `chrono` crate and is
//! named, not restated: `utc_time_string` stands for whatever text `chrono`
//! produces for a given number of seconds.

use vstd::prelude::*;

use chrono::TimeZone;

verus! {

// The text that chrono renders for a timestamp, a function of the seconds
// alone; `None` exactly when the seconds lie outside the range that chrono's
// calendar can represent.
pub uninterp spec fn utc_time_string(secs: i64) -> Option<Seq<char>>;

/// Relies on chrono's `TimeZone::timestamp_opt` for `Utc` and on the
/// `Display` of `DateTime<Utc>`: the rendered text depends on the seconds
/// alone, and out-of-range seconds (and only those) yield no rendering —
/// `timestamp_opt` documents that it returns `MappedLocalTime::None` on an
/// out-of-range number of seconds and otherwise always `Single`, and `Utc`
/// has no ambiguous local times.
#[verifier::external_body]
pub(crate) fn format_utc(secs: i64) -> (r: Option<String>)
    ensures
        r matches Some(s) ==> utc_time_string(secs) == Some(s@),
        r is None ==> utc_time_string(secs) is None,
{
    match chrono::Utc.timestamp_opt(secs, 0) {
        chrono::MappedLocalTime::Single(dt) => Some(dt.to_string()),
        chrono::MappedLocalTime::Ambiguous(dt, _) => Some(dt.to_string()),
        chrono::MappedLocalTime::None => None,
    }
}

} // verus!
