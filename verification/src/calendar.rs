//! Calendar values used by the alarm logic.
//!
//! A day is identified by its number in the proleptic Gregorian calendar,
//! counted the way chrono counts it (`Datelike::num_days_from_ce`): January 1
//! of year 1 is day 1. Moving a day forward by `k` days is adding `k` to that
//! number; the day of the week is asked of chrono.

use vstd::prelude::*;

verus! {

/// Number of the first day chrono can represent (January 1, 262144 BCE).
pub const MIN_DAY: i32 = -95_746_129;

/// Number of the last day chrono can represent (December 31, 262142 CE).
pub const MAX_DAY: i32 = 95_745_399;

/// The day of the week, counted from Monday (0) to Sunday (6), of the day
/// with this number: day 1 (January 1 of year 1, proleptic Gregorian) is a
/// Monday and the week repeats every seven days.
pub open spec fn weekday_number_of(days_from_ce: i32) -> u32 {
    ((days_from_ce - 1) % 7) as u32
}

/// Asks chrono for the day of the week of the day with this number.
///
/// Calls `NaiveDate::from_num_days_from_ce_opt` and then
/// `Weekday::num_days_from_monday` on the date's weekday. The first call
/// gives a date exactly for the day numbers of chrono's range (from
/// `MIN_DAY` to `MAX_DAY`), day 1 being January 1 of year 1 of the
/// proleptic Gregorian calendar, a Monday; the second numbers the weekday
/// from Monday = 0, so it is the day number minus one, modulo 7.
#[verifier::external_body]
fn chrono_weekday_number(days_from_ce: i32) -> (r: Option<u32>)
    ensures
        r is Some <==> MIN_DAY <= days_from_ce <= MAX_DAY,
        r matches Some(n) ==> n == weekday_number_of(days_from_ce) && n < 7,
{
    match chrono::NaiveDate::from_num_days_from_ce_opt(days_from_ce) {
        Some(date) => Some(chrono::Datelike::weekday(&date).num_days_from_monday()),
        None => None,
    }
}

/// A calendar day.
#[derive(Clone, Copy, Debug, PartialEq, Eq, Structural)]
pub struct Date {
    /// Day number, January 1 of year 1 being day 1.
    pub days_from_ce: i32,
}

impl Date {
    /// The day lies in the range chrono can represent.
    pub open spec fn wf(self) -> bool {
        MIN_DAY <= self.days_from_ce <= MAX_DAY
    }

    /// Day of the week of this day, Monday being 0.
    pub open spec fn weekday_number(self) -> u32 {
        weekday_number_of(self.days_from_ce)
    }

    /// Day of the week of this day, Monday being 0.
    pub fn day_of_week(&self) -> (n: u32)
        requires
            self.wf(),
        ensures
            n == self.weekday_number(),
            n < 7,
    {
        match chrono_weekday_number(self.days_from_ce) {
            Some(n) => n,
            None => 0,
        }
    }
}

/// A wall-clock instant to the second: a calendar day and a time of day.
#[derive(Clone, Copy, Debug, PartialEq, Eq, Structural)]
pub struct DateTime {
    pub date: Date,
    pub hour: u32,
    pub minute: u32,
    pub second: u32,
}

impl DateTime {
    /// A representable day and a time of day within it.
    pub open spec fn wf(self) -> bool {
        &&& self.date.wf()
        &&& self.hour < 24
        &&& self.minute < 60
        &&& self.second < 60
    }

    /// Seconds elapsed since midnight.
    pub open spec fn second_of_day(self) -> int {
        self.hour * 3600 + self.minute * 60 + self.second
    }

    /// Whether `self` is not earlier than `other`, comparing the day, then
    /// the hour, the minute and the second.
    pub open spec fn at_or_after(self, other: DateTime) -> bool {
        ||| self.date.days_from_ce > other.date.days_from_ce
        ||| self.date.days_from_ce == other.date.days_from_ce && self.hour > other.hour
        ||| self.date.days_from_ce == other.date.days_from_ce && self.hour == other.hour
            && self.minute > other.minute
        ||| self.date.days_from_ce == other.date.days_from_ce && self.hour == other.hour
            && self.minute == other.minute && self.second >= other.second
    }

    /// Whether `self` is not earlier than `other`.
    pub fn is_at_or_after(&self, other: &DateTime) -> (r: bool)
        ensures
            r == self.at_or_after(*other),
    {
        if self.date.days_from_ce != other.date.days_from_ce {
            self.date.days_from_ce > other.date.days_from_ce
        } else if self.hour != other.hour {
            self.hour > other.hour
        } else if self.minute != other.minute {
            self.minute > other.minute
        } else {
            self.second >= other.second
        }
    }

    /// Signed number of seconds from `self` to `later`.
    pub open spec fn seconds_until(self, later: DateTime) -> int {
        (later.date.days_from_ce - self.date.days_from_ce) * 86400 + later.second_of_day()
            - self.second_of_day()
    }

    /// Whole minutes from `self` to `later`, the remainder dropped toward zero.
    pub open spec fn whole_minutes_until(self, later: DateTime) -> int {
        let s = self.seconds_until(later);
        if s >= 0 {
            s / 60
        } else {
            -((-s) / 60)
        }
    }

    /// Whole minutes from `self` to `later`, the remainder dropped toward zero.
    pub fn minutes_until(&self, later: &DateTime) -> (m: i64)
        requires
            self.wf(),
            later.wf(),
        ensures
            m == self.whole_minutes_until(*later),
    {
        let days: i64 = later.date.days_from_ce as i64 - self.date.days_from_ce as i64;
        let a: i64 = (self.hour as i64) * 3600 + (self.minute as i64) * 60 + self.second as i64;
        let b: i64 = (later.hour as i64) * 3600 + (later.minute as i64) * 60 + later.second as i64;
        assert(-200_000_000 <= days <= 200_000_000);
        let s: i64 = days * 86400 + b - a;
        if s >= 0 {
            s / 60
        } else {
            -((-s) / 60)
        }
    }
}

/// `at_or_after` orders instants: it is reflexive, total, antisymmetric and
/// transitive.
pub proof fn lemma_instant_order(a: DateTime, b: DateTime, c: DateTime)
    ensures
        a.at_or_after(a),
        a.at_or_after(b) || b.at_or_after(a),
        a.at_or_after(b) && b.at_or_after(a) ==> a == b,
        a.at_or_after(b) && b.at_or_after(c) ==> a.at_or_after(c),
{
}

} // verus!
