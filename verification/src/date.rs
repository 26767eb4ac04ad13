//! The host's clock: today's calendar date, optionally shifted to a
//! fixed UTC offset.
//!
//! What day it is only the system clock can answer, so the two
//! functions that ask it are trusted wrappers around chrono; of their
//! results only what holds of every outcome is stated.  The offset
//! arithmetic and its overflow handling are verified.

use vstd::prelude::*;

use chrono::Datelike;

verus! {

/// A calendar date as the typesetting engine consumes it.
#[derive(Clone, Copy, PartialEq, Eq, Structural, Debug)]
pub struct Date {
    pub year: i32,
    pub month: u8,
    pub day: u8,
}

/// Month and day lie in their calendar ranges.
pub open spec fn spec_date_valid(d: Date) -> bool {
    1 <= d.month <= 12 && 1 <= d.day <= 31
}

/// Relies on chrono's `Local::now` and the `Datelike` accessors:
/// `month()` lies in `1..=12` and `day()` in `1..=31`.
#[verifier::external_body]
fn local_today_parts() -> (r: (i32, u32, u32))
    ensures
        1 <= r.1 <= 12,
        1 <= r.2 <= 31,
{
    let d = chrono::Local::now().naive_local();
    (d.year(), d.month(), d.day())
}

/// Relies on chrono's `FixedOffset::east_opt` — `Some` exactly for
/// offsets strictly between plus and minus one day of seconds — and on
/// `Utc::now` with the `Datelike` ranges as above.
#[verifier::external_body]
fn utc_today_at_offset(secs: i32) -> (r: Option<(i32, u32, u32)>)
    ensures
        r is Some <==> -86400 < secs < 86400,
        r matches Some(p) ==> 1 <= p.1 <= 12 && 1 <= p.2 <= 31,
{
    match chrono::FixedOffset::east_opt(secs) {
        Some(tz) => {
            let d = chrono::Utc::now().with_timezone(&tz).naive_local();
            Some((d.year(), d.month(), d.day()))
        },
        None => None,
    }
}

/// Today's date: the local calendar date, or, with an offset in whole
/// hours, the date at that fixed UTC offset.  Fails exactly when the
/// offset overflows the representable range of a day's worth of hours.
pub fn today(offset: Option<i64>) -> (r: Option<Date>)
    ensures
        match offset {
            None => r is Some,
            Some(h) => r is Some <==> -23 <= h <= 23,
        },
        r matches Some(d) ==> spec_date_valid(d),
{
    match offset {
        None => {
            let p = local_today_parts();
            Some(Date { year: p.0, month: p.1 as u8, day: p.2 as u8 })
        },
        Some(h) => {
            if h < -23 || h > 23 {
                return None;
            }
            let secs: i32 = (h as i32) * 3600;
            match utc_today_at_offset(secs) {
                Some(p) => Some(Date { year: p.0, month: p.1 as u8, day: p.2 as u8 }),
                None => None,
            }
        },
    }
}

} // verus!
