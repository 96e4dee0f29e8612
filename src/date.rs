//! Calendar timestamps and their ISO-8601 text with microseconds, as the
//! liveness endpoint reports them.
use vstd::prelude::*;
use crate::text::decimal;

verus! {

/// A calendar date and time of day, without time zone.
#[derive(Clone, Copy, Debug, PartialEq, Eq, Structural)]
pub struct DateTime {
    pub year: i32,
    pub month: u32,
    pub day: u32,
    pub hour: u32,
    pub minute: u32,
    pub second: u32,
    pub micro: u32,
}

pub open spec fn is_leap_year(y: int) -> bool {
    (y % 4 == 0 && y % 100 != 0) || y % 400 == 0
}

pub open spec fn days_in_month(y: int, m: int) -> int {
    if m == 2 {
        if is_leap_year(y) {
            29
        } else {
            28
        }
    } else if m == 4 || m == 6 || m == 9 || m == 11 {
        30
    } else {
        31
    }
}

/// The numeral of `n`, zero-padded on the left to at least `w` digits.
pub open spec fn padded(n: nat, w: nat) -> Seq<char>
    decreases w,
{
    let d = decimal(n);
    if d.len() >= w || w == 0 {
        d
    } else {
        seq!['0'] + padded(n, (w - 1) as nat)
    }
}

/// The year as `%Y` writes it: four digits at least, and a sign outside
/// 0..=9999.
pub open spec fn year_text(y: int) -> Seq<char> {
    if 0 <= y && y <= 9999 {
        padded(y as nat, 4)
    } else if y > 9999 {
        seq!['+'] + decimal(y as nat)
    } else {
        seq!['-'] + padded((-y) as nat, 4)
    }
}

impl DateTime {
    /// A real calendar date, within the years that the calendar library
    /// represents, and a time of day without leap second.
    pub open spec fn wf(&self) -> bool {
        &&& -262143 <= self.year <= 262142
        &&& 1 <= self.month <= 12
        &&& 1 <= self.day <= days_in_month(self.year as int, self.month as int)
        &&& self.hour < 24
        &&& self.minute < 60
        &&& self.second < 60
        &&& self.micro < 1_000_000
    }

    /// The text `YYYY-MM-DDTHH:MM:SS.ffffffZ`.
    pub open spec fn text(&self) -> Seq<char> {
        year_text(self.year as int) + seq!['-'] + padded(self.month as nat, 2) + seq!['-']
            + padded(self.day as nat, 2) + seq!['T'] + padded(self.hour as nat, 2) + seq![':']
            + padded(self.minute as nat, 2) + seq![':'] + padded(self.second as nat, 2) + seq![
            '.',
        ] + padded(self.micro as nat, 6) + seq!['Z']
    }
}

/// Relies on chrono's `NaiveDate::from_ymd_opt` and `and_hms_micro_opt`,
/// which accept every valid date and time, and on `NaiveDateTime::format`
/// with `%Y-%m-%dT%H:%M:%S%.6fZ`: zero-padded fields, `%Y` signed outside
/// 0..=9999, and six digits of microseconds after the point.
#[verifier::external_body]
fn chrono_format(d: &DateTime) -> (r: String)
    requires
        d.wf(),
    ensures
        r@ == d.text(),
{
    chrono::NaiveDate::from_ymd_opt(d.year, d.month, d.day)
        .unwrap()
        .and_hms_micro_opt(d.hour, d.minute, d.second, d.micro)
        .unwrap()
        .format("%Y-%m-%dT%H:%M:%S%.6fZ")
        .to_string()
}

/// The timestamp as `YYYY-MM-DDTHH:MM:SS.ffffffZ` (UTC is implied).
pub fn format_date(date: &DateTime) -> (r: String)
    requires
        date.wf(),
    ensures
        r@ == date.text(),
{
    chrono_format(date)
}

} // verus!
