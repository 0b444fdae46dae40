//! Calendar time from seconds since the epoch, for the time stamps of log lines.
//!
//! The calendar is the proleptic Gregorian one, and the epoch is the start of 1970.
use crate::text::{push_zero_padded, zero_padded};
use vstd::prelude::*;
use vstd::string::*;

verus! {

/// The seconds of a day.
pub const SECONDS_PER_DAY: u64 = 86400;

/// Whether `year` is a leap year.
pub open spec fn is_leap(year: int) -> bool {
    (year % 4 == 0 && year % 100 != 0) || year % 400 == 0
}

/// The days of `year`.
pub open spec fn days_in_year(year: int) -> int {
    if is_leap(year) {
        366
    } else {
        365
    }
}

/// The days of the month `month` of `year`, January being 1.
pub open spec fn days_in_month(year: int, month: int) -> int {
    if month == 2 {
        if is_leap(year) {
            29
        } else {
            28
        }
    } else if month == 4 || month == 6 || month == 9 || month == 11 {
        30
    } else {
        31
    }
}

/// The days from the epoch to the start of `year`.
pub open spec fn days_before_year(year: int) -> int
    decreases year,
{
    if year <= 1970 {
        0
    } else {
        days_before_year(year - 1) + days_in_year(year - 1)
    }
}

/// The days from the start of `year` to the start of its month `month`.
pub open spec fn days_before_month(year: int, month: int) -> int
    decreases month,
{
    if month <= 1 {
        0
    } else {
        days_before_month(year, month - 1) + days_in_month(year, month - 1)
    }
}

/// A date and a time of day.
#[derive(Debug, Clone, Copy, PartialEq, Eq, Structural)]
pub struct DateTime {
    pub year: u64,
    pub month: u64,
    pub day: u64,
    pub hour: u64,
    pub minute: u64,
    pub second: u64,
}

impl DateTime {
    /// The fields name a day of the calendar, not before the epoch, and a time of that day.
    pub open spec fn valid(self) -> bool {
        &&& self.year >= 1970
        &&& 1 <= self.month <= 12
        &&& 1 <= self.day <= days_in_month(self.year as int, self.month as int)
        &&& self.hour < 24
        &&& self.minute < 60
        &&& self.second < 60
    }

    /// The days from the epoch to this date.
    pub open spec fn epoch_days(self) -> int {
        days_before_year(self.year as int) + days_before_month(self.year as int, self.month as int)
            + self.day - 1
    }

    /// The seconds from the epoch to this date and time.
    pub open spec fn epoch_seconds(self) -> int {
        self.epoch_days() * 86400 + self.hour * 3600 + self.minute * 60 + self.second
    }

    /// The form `YYYY-MM-DD hh:mm:ss`, each number filled with zeros to its width.
    pub open spec fn text(self) -> Seq<char> {
        zero_padded(self.year as nat, 4) + "-"@ + zero_padded(self.month as nat, 2) + "-"@
            + zero_padded(self.day as nat, 2) + " "@ + zero_padded(self.hour as nat, 2) + ":"@
            + zero_padded(self.minute as nat, 2) + ":"@ + zero_padded(self.second as nat, 2)
    }

    /// The date and time that lie `seconds` seconds after the epoch.
    pub fn from_epoch_seconds(seconds: u64) -> (t: DateTime)
        ensures
            t.valid(),
            t.epoch_seconds() == seconds,
    {
        let mut days: u64 = seconds / SECONDS_PER_DAY;
        let in_day: u64 = seconds % SECONDS_PER_DAY;
        let ghost all_days: int = days as int;
        let mut year: u64 = 1970;
        while days >= year_length(year)
            invariant
                year >= 1970,
                days + days_before_year(year as int) == all_days,
                all_days <= u64::MAX / 86400,
            decreases days,
        {
            proof {
                lemma_days_before_year_grows(year as int);
            }
            days = days - year_length(year);
            year = year + 1;
        }
        let mut month: u64 = 1;
        proof {
            lemma_year_is_twelve_months(year as int);
        }
        while days >= month_length(year, month)
            invariant
                1 <= month <= 12,
                days + days_before_month(year as int, month as int) < days_in_year(year as int),
                days + days_before_month(year as int, month as int) + days_before_year(year as int)
                    == all_days,
                days_before_month(year as int, 13) == days_in_year(year as int),
            decreases days,
        {
            proof {
                if month == 12 {
                    assert(days_before_month(year as int, 13) == days_before_month(year as int, 12)
                        + days_in_month(year as int, 12));
                }
            }
            days = days - month_length(year, month);
            month = month + 1;
        }
        DateTime {
            year,
            month,
            day: days + 1,
            hour: in_day / 3600,
            minute: (in_day % 3600) / 60,
            second: in_day % 60,
        }
    }

    /// This date and time in the form `YYYY-MM-DD hh:mm:ss`.
    pub fn format(&self) -> (s: String)
        ensures
            s@ == self.text(),
    {
        let mut out = String::new();
        push_zero_padded(&mut out, self.year, 4);
        out.append("-");
        push_zero_padded(&mut out, self.month, 2);
        out.append("-");
        push_zero_padded(&mut out, self.day, 2);
        out.append(" ");
        push_zero_padded(&mut out, self.hour, 2);
        out.append(":");
        push_zero_padded(&mut out, self.minute, 2);
        out.append(":");
        push_zero_padded(&mut out, self.second, 2);
        assert(out@ =~= self.text());
        out
    }
}

/// The start of a year lies at least 365 days per year after the epoch, so a
/// year that a count of days reaches is bounded by that count.
pub proof fn lemma_days_before_year_grows(year: int)
    requires
        year >= 1970,
    ensures
        days_before_year(year) >= 365 * (year - 1970),
        days_before_year(year + 1) == days_before_year(year) + days_in_year(year),
    decreases year,
{
    if year > 1970 {
        lemma_days_before_year_grows(year - 1);
    }
}

/// The twelve months of a year have the days of the year between them.
pub proof fn lemma_year_is_twelve_months(year: int)
    ensures
        days_before_month(year, 13) == days_in_year(year),
{
    reveal_with_fuel(days_before_month, 14);
}

/// A later year starts later.
pub proof fn lemma_years_in_order(a: int, b: int)
    requires
        1970 <= a < b,
    ensures
        days_before_year(a + 1) <= days_before_year(b),
    decreases b - a,
{
    if a + 1 < b {
        lemma_years_in_order(a, b - 1);
    }
}

/// A later month starts later.
pub proof fn lemma_months_in_order(year: int, a: int, b: int)
    requires
        1 <= a < b,
    ensures
        days_before_month(year, a + 1) <= days_before_month(year, b),
        days_before_month(year, a + 1) == days_before_month(year, a) + days_in_month(year, a),
    decreases b - a,
{
    if a + 1 < b {
        lemma_months_in_order(year, a, b - 1);
    }
}

/// Two valid dates and times that lie equally far from the epoch are the
/// same: the seconds since the epoch decide year, month, day, hour, minute and second.
pub proof fn lemma_epoch_seconds_decide(a: DateTime, b: DateTime)
    requires
        a.valid(),
        b.valid(),
        a.epoch_seconds() == b.epoch_seconds(),
    ensures
        a == b,
{
    let ta = a.hour * 3600 + a.minute * 60 + a.second;
    let tb = b.hour * 3600 + b.minute * 60 + b.second;
    assert(0 <= ta < 86400 && 0 <= tb < 86400);
    assert(a.epoch_days() == b.epoch_days() && ta == tb);
    assert(a.hour == b.hour && a.minute == b.minute && a.second == b.second);
    let ya = a.year as int;
    let yb = b.year as int;
    lemma_year_is_twelve_months(ya);
    lemma_year_is_twelve_months(yb);
    lemma_days_before_year_grows(ya);
    lemma_days_before_year_grows(yb);
    lemma_day_within_year(a);
    lemma_day_within_year(b);
    if ya < yb {
        lemma_years_in_order(ya, yb);
    } else if yb < ya {
        lemma_years_in_order(yb, ya);
    }
    assert(ya == yb);
    let ma = a.month as int;
    let mb = b.month as int;
    if ma < mb {
        lemma_months_in_order(ya, ma, mb);
    } else if mb < ma {
        lemma_months_in_order(ya, mb, ma);
    } else {
    }
    assert(ma == mb);
}

/// A valid date lies within its year.
proof fn lemma_day_within_year(t: DateTime)
    requires
        t.valid(),
    ensures
        0 <= days_before_month(t.year as int, t.month as int) + t.day - 1 < days_in_year(
            t.year as int,
        ),
        days_before_month(t.year as int, t.month as int) >= 0,
{
    let y = t.year as int;
    let m = t.month as int;
    lemma_year_is_twelve_months(y);
    lemma_months_nonnegative(y, m);
    if m < 12 {
        lemma_months_in_order(y, m, 13);
    } else {
        assert(days_before_month(y, 13) == days_before_month(y, 12) + days_in_month(y, 12));
    }
}

proof fn lemma_months_nonnegative(year: int, month: int)
    ensures
        days_before_month(year, month) >= 0,
    decreases month,
{
    if month > 1 {
        lemma_months_nonnegative(year, month - 1);
    }
}

/// Whether `year` is a leap year.
pub fn is_leap_year(year: i32) -> (b: bool)
    ensures
        b == is_leap(year as int),
{
    (year % 4 == 0 && year % 100 != 0) || (year % 400 == 0)
}

/// The days of `year`.
fn year_length(year: u64) -> (n: u64)
    ensures
        n == days_in_year(year as int),
{
    if (year % 4 == 0 && year % 100 != 0) || (year % 400 == 0) {
        366
    } else {
        365
    }
}

/// The days of the month `month` of `year`.
fn month_length(year: u64, month: u64) -> (n: u64)
    ensures
        n == days_in_month(year as int, month as int),
{
    if month == 2 {
        if year_length(year) == 366 {
            29
        } else {
            28
        }
    } else if month == 4 || month == 6 || month == 9 || month == 11 {
        30
    } else {
        31
    }
}

/// The offset of the zone that log lines are stamped in, eight hours east of
/// Greenwich, in seconds.
pub fn offset8() -> (offset: Option<u64>)
    ensures
        offset == Some(28800u64),
{
    Some(8 * 60 * 60)
}

/// The seconds that `format_datetime` formats: `seconds` moved by `offset`.
pub open spec fn shifted(seconds: u64, offset: Option<u64>) -> int {
    match offset {
        Some(o) => seconds + o,
        None => seconds as int,
    }
}

/// The date and time `seconds` seconds after the epoch, moved east by
/// `offset` seconds, in the form `YYYY-MM-DD hh:mm:ss`.
pub fn format_datetime(seconds: u64, offset: Option<u64>) -> (s: String)
    requires
        shifted(seconds, offset) <= u64::MAX,
    ensures
        exists|t: DateTime|
            t.valid() && #[trigger] t.epoch_seconds() == shifted(seconds, offset) && s@ == t.text(),
{
    let total: u64 = match offset {
        Some(o) => seconds + o,
        None => seconds,
    };
    let t = DateTime::from_epoch_seconds(total);
    t.format()
}

/// The time `now` seconds after the epoch as log lines show it: in the zone
/// of [`offset8`], in the form `YYYY-MM-DD hh:mm:ss`.
pub fn format_now(now: u64) -> (s: String)
    requires
        now + 28800 <= u64::MAX,
    ensures
        exists|t: DateTime|
            t.valid() && #[trigger] t.epoch_seconds() == now + 28800 && s@ == t.text(),
{
    format_datetime(now, offset8())
}

} // verus!
