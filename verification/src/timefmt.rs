//! The timestamp label shown beside a commit: its author time rendered as
//! `%Y-%m-%d %H:%M` in UTC. Only the calendar arithmetic of the time crate
//! can produce the text, so the rendering is named rather than restated; a
//! timestamp the crate cannot represent gets a fixed placeholder instead of
//! a failure.

use vstd::prelude::*;

verus! {

/// The `%Y-%m-%d %H:%M` UTC rendering of a timestamp, a function of the
/// timestamp alone.
pub uninterp spec fn time_text_of(timestamp: i64) -> Seq<char>;

/// The timestamps chrono can represent: those whose day falls within its
/// calendar range, from the first second of its least year to the last
/// second of its greatest.
pub open spec fn chrono_representable(timestamp: i64) -> bool {
    -8334601228800i64 <= timestamp <= 8210266876799i64
}

/// Relies on chrono::DateTime::<Utc>::from_timestamp and DateTime::format:
/// the rendered text depends on the timestamp alone, and `Some` comes
/// exactly on the seconds whose day chrono's calendar holds — the day count
/// must land inside its year range, which the two bounds of
/// `chrono_representable` delimit; outside them it returns `None`, never a
/// panic.
#[verifier::external_body]
fn format_timestamp(timestamp: i64) -> (r: Option<String>)
    ensures
        r is Some <==> chrono_representable(timestamp),
        r matches Some(s) ==> s@ == time_text_of(timestamp),
{
    chrono::DateTime::<chrono::Utc>::from_timestamp(timestamp, 0)
        .map(|d| d.format("%Y-%m-%d %H:%M").to_string())
}

/// The label for a commit's timestamp: its rendered time, or a fixed
/// placeholder exactly when the timestamp cannot be represented.
pub fn commit_time_label(timestamp: i64) -> (r: String)
    ensures
        chrono_representable(timestamp) ==> r@ == time_text_of(timestamp),
        !chrono_representable(timestamp) ==> r@ == "unknown time"@,
{
    match format_timestamp(timestamp) {
        Some(s) => s,
        None => String::from_str("unknown time"),
    }
}

} // verus!
