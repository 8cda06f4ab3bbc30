//! Local time for log prefixes and scheduled checks, read through chrono.

use vstd::prelude::*;
use chrono::{Local, NaiveDateTime, Timelike};
use crate::text::is_ascii_digit;

verus! {

#[verifier::external_type_specification]
#[verifier::external_body]
pub struct ExNaiveDateTime(NaiveDateTime);

/// Calls `chrono::Local::now` and keeps its local wall-clock date and time
/// (`naive_local`). Nothing is stated of the time it reads. (chrono panics when
/// the system clock is set before 1970.)
#[verifier::external_body]
fn local_now() -> NaiveDateTime {
    Local::now().naive_local()
}

/// Calls `Timelike::hour` on a date-time; chrono documents the range 0 to 23.
#[verifier::external_body]
fn hour_of(t: &NaiveDateTime) -> (res: u32)
    ensures
        res < 24,
{
    t.hour()
}

/// Calls `Timelike::minute` on a date-time; chrono documents the range 0 to 59.
#[verifier::external_body]
fn minute_of(t: &NaiveDateTime) -> (res: u32)
    ensures
        res < 60,
{
    t.minute()
}

/// The strftime layout of log prefixes.
pub open spec fn log_time_format() -> Seq<char> {
    "%Y-%m-%d %H:%M:%S"@
}

/// The shape of a date-time written with `log_time_format`: the year (four
/// digits, or a sign and at least four digits outside years 0 to 9999), then
/// `-MM-DD HH:MM:SS`.
pub open spec fn log_time_shape(s: Seq<char>) -> bool {
    let n = s.len() as int;
    let tail_digit = |k: int| k == 1 || k == 2 || k == 4 || k == 5 || k == 7 || k == 8 || k == 10
        || k == 11 || k == 13 || k == 14;
    &&& n >= 19
    &&& s[n - 15] == '-'
    &&& s[n - 12] == '-'
    &&& s[n - 9] == ' '
    &&& s[n - 6] == ':'
    &&& s[n - 3] == ':'
    &&& forall|k: int| 0 <= k < 15 && tail_digit(k) ==> is_ascii_digit(#[trigger] s[n - 15 + k])
    &&& n == 19 ==> forall|k: int| 0 <= k < 4 ==> is_ascii_digit(#[trigger] s[k])
    &&& n > 19 ==> (s[0] == '+' || s[0] == '-') && forall|k: int|
        1 <= k < n - 15 ==> is_ascii_digit(#[trigger] s[k])
}

/// Calls `NaiveDateTime::format` and writes the result with `to_string`. With the
/// log layout, chrono writes the year, month, day, hour, minute and second as
/// `log_time_shape` describes; other layouts, on which `to_string` can panic,
/// are not accepted.
#[verifier::external_body]
fn format_time(t: &NaiveDateTime, fmt: &str) -> (res: String)
    requires
        fmt@ == log_time_format(),
    ensures
        log_time_shape(res@),
{
    t.format(fmt).to_string()
}

/// Current local time, formatted for log prefixes (`YYYY-MM-DD HH:MM:SS`).
pub fn now_string() -> (res: String)
    ensures
        log_time_shape(res@),
{
    let now = local_now();
    format_time(&now, "%Y-%m-%d %H:%M:%S")
}

/// Local hour and minute (24-hour clock).
pub fn local_hour_minute() -> (res: (u32, u32))
    ensures
        res.0 < 24,
        res.1 < 60,
{
    let now = local_now();
    (hour_of(&now), minute_of(&now))
}

} // verus!
