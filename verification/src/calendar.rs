//! Dates in UTC, and the months that pass between two moments.

use crate::outside::utc_date;
use crate::outside::{MAX_TIMESTAMP, MIN_TIMESTAMP};
use vstd::prelude::*;

verus! {

pub const SECONDS_PER_DAY: i64 = 86400;

/// A date of the Gregorian calendar, which is carried on before its introduction. The year before
/// year 1 is year 0.
#[derive(Clone, Copy, PartialEq, Eq, Debug)]
pub struct Date {
    pub year: i32,
    pub month: u32,
    pub day: u32,
}

/// A second of a day.
#[derive(Clone, Copy, PartialEq, Eq, Debug)]
pub struct Moment {
    pub date: Date,
    pub second: u32,
}

pub open spec fn is_leap(year: int) -> bool {
    year % 4 == 0 && (year % 100 != 0 || year % 400 == 0)
}

pub open spec fn month_length(year: int, month: int) -> int {
    if month == 2 {
        if is_leap(year) {
            29
        } else {
            28
        }
    } else if month == 4 || month == 6 || month == 9 || month == 11 {
        30
    } else {
        31
    }
}

/// The days of a year that lie before a month.
pub open spec fn days_before_month(year: int, month: int) -> int
    decreases month,
{
    if month <= 1 {
        0
    } else {
        days_before_month(year, month - 1) + month_length(year, month - 1)
    }
}

/// The leap years from year 1 up to a year.
pub open spec fn leap_years(year: int) -> int {
    year / 4 - year / 100 + year / 400
}

/// The days from the beginning of 1970 to that of a year.
pub open spec fn days_before_year(year: int) -> int {
    365 * (year - 1970) + leap_years(year - 1) - leap_years(1969)
}

impl Date {
    pub open spec fn is_valid(self) -> bool {
        1 <= self.month <= 12 && 1 <= self.day <= month_length(self.year as int, self.month as int)
    }

    /// The days from the beginning of 1970 to that of the date.
    pub open spec fn day_number(self) -> int {
        days_before_year(self.year as int) + days_before_month(
            self.year as int,
            self.month as int,
        ) + self.day - 1
    }

    /// The months from the beginning of year 0 to that of the date's month.
    pub open spec fn month_number(self) -> int {
        12 * self.year + self.month - 1
    }
}

/// Whether a date is that of a moment, given in seconds since 1970.
pub open spec fn is_date_of(date: Date, secs: int) -> bool {
    date.is_valid() && date.day_number() == secs / (SECONDS_PER_DAY as int)
}

/// The date of a moment. There is no more than one: see `law_dates_are_unique`.
pub open spec fn date_of(secs: int) -> Date {
    choose|date: Date| is_date_of(date, secs)
}

/// A moment that is given in seconds since 1970.
pub open spec fn moment_of(secs: int) -> Moment {
    Moment { date: date_of(secs), second: (secs % (SECONDS_PER_DAY as int)) as u32 }
}

/// Whether a moment comes earlier in its month than another one does in its own.
pub open spec fn earlier_in_month(this: Moment, that: Moment) -> bool {
    this.date.day < that.date.day || (this.date.day == that.date.day && this.second < that.second)
}

/// The whole months from one moment to another. A month is over when the day and the time of day
/// come round again, so less than a month counts as none. From a moment that is yet to come none
/// have passed.
pub open spec fn months_passed(then: Moment, now: Moment) -> int {
    let months = now.date.month_number() - then.date.month_number() - if earlier_in_month(
        now,
        then,
    ) {
        1int
    } else {
        0
    };
    if months < 0 {
        0
    } else {
        months
    }
}

/// A year has a day more where it is a leap year.
pub proof fn lemma_year_length(year: int)
    ensures
        days_before_year(year + 1) == days_before_year(year) + if is_leap(year) {
            366int
        } else {
            365
        },
{
}

proof fn lemma_years_in_order(this: int, that: int)
    requires
        this < that,
    ensures
        days_before_year(this + 1) <= days_before_year(that),
    decreases that - this,
{
    if this + 1 < that {
        lemma_years_in_order(this, that - 1);
        lemma_year_length(that - 1);
    }
}

proof fn lemma_months_in_order(year: int, this: int, that: int)
    requires
        1 <= this < that,
    ensures
        days_before_month(year, this) + month_length(year, this) <= days_before_month(year, that),
    decreases that - this,
{
    if this + 1 < that {
        lemma_months_in_order(year, this, that - 1);
    }
}

proof fn lemma_day_in_year(date: Date)
    requires
        date.is_valid(),
    ensures
        days_before_year(date.year as int) <= date.day_number() < days_before_year(date.year + 1),
{
    let year = date.year as int;
    lemma_year_length(year);
    if date.month > 1 {
        lemma_months_in_order(year, 1, date.month as int);
    }
    if date.month < 12 {
        lemma_months_in_order(year, date.month as int, 12);
    }
    reveal_with_fuel(days_before_month, 13);
}

/// Of two dates the one in the earlier month lies earlier.
pub proof fn lemma_dates_in_order(this: Date, that: Date)
    requires
        this.is_valid(),
        that.is_valid(),
        this.month_number() < that.month_number(),
    ensures
        this.day_number() < that.day_number(),
{
    if this.year < that.year {
        lemma_day_in_year(this);
        lemma_day_in_year(that);
        lemma_years_in_order(this.year as int, that.year as int);
    } else {
        lemma_months_in_order(this.year as int, this.month as int, that.month as int);
    }
}

/// A moment has no more than one date.
pub proof fn law_dates_are_unique(date: Date, secs: int)
    requires
        is_date_of(date, secs),
    ensures
        date_of(secs) == date,
{
    let other = date_of(secs);
    assert(is_date_of(other, secs));
    if date.month_number() < other.month_number() {
        lemma_dates_in_order(date, other);
    }
    if other.month_number() < date.month_number() {
        lemma_dates_in_order(other, date);
    }
}

/// From a moment that is yet to come no month has passed.
pub proof fn law_no_month_passes_before_its_time(then: Date, now: Date, secs: int, clock: int)
    requires
        is_date_of(then, secs),
        is_date_of(now, clock),
        clock <= secs,
    ensures
        months_passed(moment_of(secs), moment_of(clock)) == 0,
{
    law_dates_are_unique(then, secs);
    law_dates_are_unique(now, clock);
    if then.month_number() < now.month_number() {
        lemma_dates_in_order(then, now);
    }
}

/// A moment of a month some months later.
pub open spec fn is_later_by(later: Moment, then: Moment, months: int) -> bool {
    &&& later.date.month_number() == then.date.month_number() + months
    &&& later.date.day == then.date.day
    &&& later.second == then.second
}

/// Whether a moment does not come before another one.
pub open spec fn reaches(now: Moment, then: Moment) -> bool {
    now.date.month_number() > then.date.month_number() || (now.date.month_number()
        == then.date.month_number() && !earlier_in_month(now, then))
}

/// The months that have passed are those after which the same day and time of day were reached,
/// and no more.
pub proof fn law_months_are_whole(then: Moment, now: Moment, later: Moment, months: int)
    requires
        reaches(now, then),
        0 <= months,
        is_later_by(later, then, months),
    ensures
        reaches(now, later) <==> months <= months_passed(then, now),
{
}

/// The moment that is given in seconds since 1970.
pub fn moment(secs: i64) -> (moment: Moment)
    requires
        MIN_TIMESTAMP <= secs <= MAX_TIMESTAMP,
    ensures
        moment == moment_of(secs as int),
        is_date_of(moment.date, secs as int),
{
    let date = utc_date(secs);
    proof {
        law_dates_are_unique(date, secs as int);
    }
    let second: u32 = match secs.checked_rem_euclid(SECONDS_PER_DAY) {
        Some(second) => second as u32,
        None => 0,
    };
    Moment { date, second }
}

/// The whole months from one moment to another.
pub fn whole_months(then: Moment, now: Moment) -> (months: i64)
    ensures
        months == months_passed(then, now),
{
    let earlier = now.date.day < then.date.day || (now.date.day == then.date.day && now.second
        < then.second);
    let years: i64 = now.date.year as i64 - then.date.year as i64;
    let mut months: i64 = 12 * years + now.date.month as i64 - then.date.month as i64;
    if earlier {
        months = months - 1;
    }
    if months < 0 {
        0
    } else {
        months
    }
}

} // verus!
