//! The few places where the library leans on outside crates: fresh IDs,
//! clock reads, whitespace trimming, and the two canonical text forms
//! (hyphenated UUIDs, RFC 3339 timestamps) that the event schema carries.

use vstd::prelude::*;

use crate::models::Assignment;
use crate::scoring::{Score, ScoreBreakdown};

verus! {

/// What `str::trim` leaves of a string: the same characters with leading and
/// trailing whitespace removed.
pub uninterp spec fn trim_of(s: Seq<char>) -> Seq<char>;

/// Relies on str::trim: removes leading and trailing whitespace, nothing
/// else; the result is a function of the characters alone, and trimming an
/// empty string leaves it empty.
#[verifier::external_body]
pub fn trimmed<'a>(s: &'a str) -> (r: &'a str)
    ensures
        r@ == trim_of(s@),
        s@.len() == 0 ==> r@.len() == 0,
{
    s.trim()
}

/// Relies on uuid::Uuid::new_v4: a fresh random version-4 UUID. Nothing is
/// promised of the value: it is random.
#[verifier::external_body]
pub fn fresh_uuid() -> (r: u128) {
    uuid::Uuid::new_v4().as_u128()
}

/// No reading of the clock can return a moment outside chrono's supported
/// range of about ±262000 years, which stays well below this bound in
/// milliseconds.
pub const TIMESTAMP_ABS_BOUND_MS: i64 = 9_000_000_000_000_000;

/// Timestamps up to this magnitude are safely inside chrono's range, so they
/// always have an RFC 3339 form.
pub const RFC3339_SAFE_ABS_MS: i64 = 8_000_000_000_000_000;

/// Relies on chrono::Utc::now and DateTime::timestamp_millis: the current
/// wall-clock time as non-leap milliseconds since the Unix epoch. chrono
/// dates are bounded to about ±262000 years, under 8.3e15 milliseconds.
#[verifier::external_body]
pub fn now_millis() -> (r: i64)
    ensures
        -TIMESTAMP_ABS_BOUND_MS <= r <= TIMESTAMP_ABS_BOUND_MS,
{
    chrono::Utc::now().timestamp_millis()
}

/// The hyphenated text form of a UUID given as its 128-bit value.
pub uninterp spec fn uuid_str_of(id: u128) -> Seq<char>;

/// Relies on uuid::Uuid::from_u128 and its Display form: the canonical
/// hyphenated form, 36 characters, a function of the 128-bit value alone.
#[verifier::external_body]
pub fn uuid_hyphenated(id: u128) -> (r: String)
    ensures
        r@ == uuid_str_of(id),
        r@.len() == 36,
{
    uuid::Uuid::from_u128(id).to_string()
}

/// The RFC 3339 text form of a UTC moment given in milliseconds since the
/// Unix epoch.
pub uninterp spec fn rfc3339_of(ms: i64) -> Seq<char>;

/// Relies on chrono::DateTime::from_timestamp_millis and to_rfc3339: inside
/// chrono's range the conversion always succeeds, and the text is a function
/// of the millisecond value alone (the zone is fixed to UTC).
#[verifier::external_body]
pub fn rfc3339_utc(ms: i64) -> (r: String)
    requires
        -RFC3339_SAFE_ABS_MS <= ms <= RFC3339_SAFE_ABS_MS,
    ensures
        r@ == rfc3339_of(ms),
{
    match chrono::DateTime::<chrono::Utc>::from_timestamp_millis(ms) {
        Some(dt) => dt.to_rfc3339(),
        None => String::new(),
    }
}

/// An assignment event as the streaming interfaces carry it: IDs in
/// hyphenated form, the timestamp in RFC 3339, the scores exact.
#[derive(Debug)]
pub struct AssignmentEvent {
    pub id: String,
    pub order_id: String,
    pub courier_id: String,
    pub score: Score,
    pub score_breakdown: ScoreBreakdown,
    pub assigned_at: String,
}

/// Renders an assignment into its wire event form.
pub fn assignment_to_proto(a: &Assignment) -> (e: AssignmentEvent)
    requires
        -RFC3339_SAFE_ABS_MS <= a.assigned_at <= RFC3339_SAFE_ABS_MS,
    ensures
        e.id@ == uuid_str_of(a.id),
        e.order_id@ == uuid_str_of(a.order_id),
        e.courier_id@ == uuid_str_of(a.courier_id),
        e.score == a.score,
        e.score_breakdown == a.score_breakdown,
        e.assigned_at@ == rfc3339_of(a.assigned_at),
{
    AssignmentEvent {
        id: uuid_hyphenated(a.id),
        order_id: uuid_hyphenated(a.order_id),
        courier_id: uuid_hyphenated(a.courier_id),
        score: a.score,
        score_breakdown: a.score_breakdown,
        assigned_at: rfc3339_utc(a.assigned_at),
    }
}

} // verus!
