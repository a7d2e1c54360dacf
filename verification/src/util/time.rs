//! Clock readings and time arithmetic.
use vstd::prelude::*;
use crate::text::{chars_of, string_of};

verus! {

/// Declares chrono's `TimeDelta` (also exported as `Duration`).
#[verifier::external_type_specification]
#[verifier::external_body]
pub struct ExTimeDelta(chrono::TimeDelta);

/// What `chrono::TimeDelta::milliseconds` gives for `ms`.
pub uninterp spec fn delta_of_millis(ms: i64) -> chrono::TimeDelta;

/// Milliseconds since the Unix epoch, read from `chrono::Utc::now()`.
/// The clock decides the value, so no clause speaks of it.
#[verifier::external_body]
pub fn current_time_millis() -> i64 {
    chrono::Utc::now().timestamp_millis()
}

/// `chrono::Utc::now().timestamp_nanos_opt()`: the clock in nanoseconds,
/// `None` where it does not fit an `i64`. Nothing is promised of the value.
#[verifier::external_body]
fn utc_now_nanos() -> Option<i64> {
    chrono::Utc::now().timestamp_nanos_opt()
}

/// `chrono::DateTime::from_timestamp_millis(ts)`, shown in the machine's
/// local time zone as `%Y-%m-%d %H:%M:%S%.3f`; `None` where chrono cannot
/// represent the instant. The text depends on the time zone, so no clause
/// speaks of it.
#[verifier::external_body]
fn local_timestamp_text(ts_millis: i64) -> Option<String> {
    match chrono::DateTime::from_timestamp_millis(ts_millis) {
        Some(dt) => Some(dt.with_timezone(&chrono::Local).format("%Y-%m-%d %H:%M:%S%.3f").to_string()),
        None => None,
    }
}

/// `chrono::Local::now()` written as `%Y-%m-%d %H:%M:%S`. Nothing is
/// promised of the text: it depends on the clock and the time zone.
#[verifier::external_body]
pub(crate) fn local_now_text() -> String {
    chrono::Local::now().format("%Y-%m-%d %H:%M:%S").to_string()
}

/// `chrono::TimeDelta::milliseconds`, which panics only on `i64::MIN`.
#[verifier::external_body]
fn time_delta_millis(ms: i64) -> (r: chrono::TimeDelta)
    requires
        ms != i64::MIN,
    ensures
        r == delta_of_millis(ms),
{
    chrono::TimeDelta::milliseconds(ms)
}

/// The clock in nanoseconds since the epoch, or 0 where it does not fit.
pub fn current_time_nanos() -> i64 {
    match utc_now_nanos() {
        Some(n) => n,
        None => 0,
    }
}

/// Milliseconds from `since` to `now`, and 0 where `now` comes first.
pub open spec fn elapsed_from(now: i64, since: i64) -> int {
    if now - since < 0 { 0 } else { now - since }
}

/// [`elapsed_from`], computed.
pub fn elapsed_between(now: i64, since: i64) -> (r: u64)
    ensures
        r == elapsed_from(now, since),
{
    let d: i128 = now as i128 - since as i128;
    if d < 0 {
        0
    } else {
        d as u64
    }
}

/// Milliseconds since `since_millis` by the clock, and 0 for an instant
/// still to come.
pub fn elapsed_millis(since_millis: i64) -> (r: u64)
    ensures
        exists|now: i64| r == elapsed_from(now, since_millis),
{
    let now = current_time_millis();
    elapsed_between(now, since_millis)
}

/// The text shown for a timestamp: chrono's rendering where there is one,
/// and `N/A` where there is none.
pub fn timestamp_text(rendered: Option<String>) -> (r: String)
    ensures
        r@ == timestamp_text_spec(rendered),
{
    proof { reveal_strlit("N/A"); }
    match rendered {
        Some(s) => s,
        None => string_of(&chars_of("N/A")),
    }
}

/// A timestamp in milliseconds shown in local time, or `N/A` where it is
/// out of chrono's range.
pub fn format_timestamp(ts_millis: i64) -> (r: String)
    ensures
        exists|rendered: Option<String>| r@ == timestamp_text_spec(rendered),
{
    let rendered = local_timestamp_text(ts_millis);
    let ghost g = rendered;
    let r = timestamp_text(rendered);
    assert(r@ == timestamp_text_spec(g));
    r
}

/// The characters [`timestamp_text`] gives for `rendered`.
pub open spec fn timestamp_text_spec(rendered: Option<String>) -> Seq<char> {
    match rendered {
        Some(s) => s@,
        None => "N/A"@,
    }
}

/// The span from `start_ms` to `end_ms`; the difference must be one chrono
/// can hold.
pub fn duration_between(start_ms: i64, end_ms: i64) -> (r: chrono::TimeDelta)
    requires
        i64::MIN < end_ms - start_ms <= i64::MAX,
    ensures
        r == delta_of_millis((end_ms - start_ms) as i64),
{
    time_delta_millis(end_ms - start_ms)
}

} // verus!
