//! What a run learns from the machine it runs on: the names of the host and
//! of the user, the present moment, and the values of the variables in
//! configured paths.

use crate::schedule::DateTime;
use chrono::{Datelike, Timelike};
use vstd::prelude::*;

verus! {

/// The name of this host: `whoami::fallible::hostname`, which asks the
/// operating system. `None` where the system gives no name. Nothing is
/// claimed of the name.
#[verifier::external_body]
pub fn hostname() -> (r: Option<String>) {
    whoami::fallible::hostname().ok()
}

/// The name of the user that runs this process: `whoami::username`, which
/// asks the operating system and falls back on a fixed name. Nothing is
/// claimed of the name.
#[verifier::external_body]
pub fn username() -> (r: String) {
    whoami::username()
}

/// Whether a path names no variable of the environment: it holds no `$`.
pub open spec fn names_no_variable(path: Seq<char>) -> bool {
    !path.contains('$')
}

/// The path with the environment variables in it filled in:
/// `shellexpand::env`, which reads the environment of this process. `None`
/// where the path names a variable that is not set. A path without a `$`
/// names no variable and comes back as it is; nothing else is claimed of
/// the result.
#[verifier::external_body]
pub fn expand_path(path_str: &str) -> (r: Option<String>)
    ensures
        names_no_variable(path_str@) ==> r.is_some() && r.unwrap()@ == path_str@,
{
    shellexpand::env(path_str).ok().map(|expanded| expanded.into_owned())
}

/// The fields of the present moment of local time: `chrono::Local::now`,
/// read off by year, month, day, hour, minute, second and millisecond.
/// Nothing is claimed of the fields.
#[verifier::external_body]
fn local_now() -> (r: (i32, u32, u32, u32, u32, u32, u32)) {
    let now = chrono::Local::now();
    (
        now.year(),
        now.month(),
        now.day(),
        now.hour(),
        now.minute(),
        now.second(),
        now.timestamp_subsec_millis(),
    )
}

/// The moment that the fields name, where they name a moment of the
/// calendar in the years 0 to 9999. The milliseconds of a leap second count
/// as the last millisecond of the second before.
pub open spec fn spec_datetime_of(
    year: i32,
    month: u32,
    day: u32,
    hour: u32,
    minute: u32,
    second: u32,
    millisecond: u32,
) -> Option<DateTime> {
    if 0 <= year <= 9999 && month <= 12 && day <= 31 && hour < 24 && minute < 60 && second < 60 {
        let dt = DateTime {
            year: year as u16,
            month: month as u8,
            day: day as u8,
            hour: hour as u8,
            minute: minute as u8,
            second: second as u8,
            millisecond: if millisecond > 999 {
                999u16
            } else {
                millisecond as u16
            },
        };
        if dt.wf() {
            Some(dt)
        } else {
            None
        }
    } else {
        None
    }
}

/// The moment that the fields name.
pub fn datetime_of(
    year: i32,
    month: u32,
    day: u32,
    hour: u32,
    minute: u32,
    second: u32,
    millisecond: u32,
) -> (r: Option<DateTime>)
    ensures
        r == spec_datetime_of(year, month, day, hour, minute, second, millisecond),
        r matches Some(dt) ==> dt.wf(),
{
    if 0 <= year && year <= 9999 && month <= 12 && day <= 31 && hour < 24 && minute < 60 && second
        < 60 {
        DateTime::new(
            year as u16,
            month as u8,
            day as u8,
            hour as u8,
            minute as u8,
            second as u8,
            if millisecond > 999 {
                999
            } else {
                millisecond as u16
            },
        )
    } else {
        None
    }
}

/// The present moment of local time, where it is a moment of the calendar
/// in the years 0 to 9999.
pub fn datetime_now() -> (r: Option<DateTime>)
    ensures
        r matches Some(dt) ==> dt.wf(),
{
    let (year, month, day, hour, minute, second, millisecond) = local_now();
    datetime_of(year, month, day, hour, minute, second, millisecond)
}

} // verus!
