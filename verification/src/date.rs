//! Calendar dates without a time of day.

use crate::calendar::{
    civil_to_days, days_of_civil, in_range, iso_week_of, iso_week_on, month_of, month_on,
    month_start, month_start_on, weekday_of, weekday_on, year_of, year_on, MAX_DAYS, MIN_DAYS,
};
use vstd::prelude::*;

verus! {

/// A calendar date, held as the number of its day counted from January 1 of
/// year 1 as day 1. Dates compare as their day numbers do.
#[derive(Clone, Copy, Debug, PartialEq, Eq, Structural, PartialOrd, Ord, Hash)]
pub struct Date {
    days: i32,
}

impl View for Date {
    type V = int;

    /// The number of the day.
    closed spec fn view(&self) -> int {
        self.days as int
    }
}

/// What the calendar says of one date: the fields by which recurrence periods
/// are told apart, and the first day of the date's month.
#[derive(Clone, Copy, Debug, PartialEq, Eq, Structural)]
pub struct CalendarDay {
    pub date: Date,
    pub year: i32,
    pub month: u32,
    pub iso_year: i32,
    pub iso_week: u32,
    pub month_start: Date,
}

impl CalendarDay {
    /// Whether the fields are what the calendar says of `self.date`.
    pub open spec fn describes_date(self) -> bool {
        &&& in_range(self.date@)
        &&& self.year == year_of(self.date@)
        &&& self.month == month_of(self.date@)
        &&& (self.iso_year as int, self.iso_week as int) == iso_week_of(self.date@)
        &&& self.month_start@ == month_start(self.date@)
        &&& MIN_DAYS <= self.month_start@ <= self.date@
    }
}

impl Date {
    /// Every date is one that the calendar can represent.
    #[verifier::type_invariant]
    pub open spec fn representable(self) -> bool {
        in_range(self@)
    }

    /// Dates with the same day number are the same date.
    pub proof fn lemma_same_day_same_date(a: Date, b: Date)
        requires
            a@ == b@,
        ensures
            a == b,
    {
    }

    /// The date with the given day number, if the calendar can represent it.
    pub fn from_days(days: i32) -> (r: Option<Date>)
        ensures
            in_range(days as int) ==> r is Some && r->0@ == days,
            !in_range(days as int) ==> r is None,
    {
        if MIN_DAYS <= days && days <= MAX_DAYS {
            Some(Date { days })
        } else {
            None
        }
    }

    /// The date with the given year, month and day of the month, if there is one.
    pub fn from_ymd(year: i32, month: u32, day: u32) -> (r: Option<Date>)
        ensures
            match days_of_civil(year as int, month as int, day as int) {
                Some(n) => r is Some && r->0@ == n,
                None => r is None,
            },
    {
        match civil_to_days(year, month, day) {
            Some(days) => Some(Date { days }),
            None => None,
        }
    }

    /// The first date that the calendar can represent.
    pub fn min() -> (r: Date)
        ensures
            r@ == MIN_DAYS,
    {
        Date { days: MIN_DAYS }
    }

    /// The last date that the calendar can represent.
    pub fn max() -> (r: Date)
        ensures
            r@ == MAX_DAYS,
    {
        Date { days: MAX_DAYS }
    }

    /// The number of this date's day.
    pub fn days(&self) -> (r: i32)
        ensures
            r == self@,
            in_range(self@),
    {
        proof {
            use_type_invariant(self);
        }
        self.days
    }

    /// The calendar year.
    pub fn year(&self) -> (r: i32)
        ensures
            r == year_of(self@),
    {
        proof {
            use_type_invariant(self);
        }
        year_on(self.days)
    }

    /// The month of the year, from 1 to 12.
    pub fn month(&self) -> (r: u32)
        ensures
            r == month_of(self@),
            1 <= r <= 12,
    {
        proof {
            use_type_invariant(self);
        }
        month_on(self.days)
    }

    /// The ISO 8601 week: the week's year, then the week's number in that year.
    pub fn iso_week(&self) -> (r: (i32, u32))
        ensures
            (r.0 as int, r.1 as int) == iso_week_of(self@),
    {
        proof {
            use_type_invariant(self);
        }
        iso_week_on(self.days)
    }

    /// How many days after Monday this date falls, from 0 to 6.
    pub fn days_from_monday(&self) -> (r: u32)
        ensures
            r == weekday_of(self@),
            r <= 6,
    {
        proof {
            use_type_invariant(self);
        }
        weekday_on(self.days)
    }

    /// The first day of this date's month.
    pub fn first_of_month(&self) -> (r: Date)
        ensures
            r@ == month_start(self@),
            MIN_DAYS <= r@ <= self@,
    {
        proof {
            use_type_invariant(self);
        }
        Date { days: month_start_on(self.days) }
    }

    /// Everything the calendar says of this date, gathered in one value.
    pub fn calendar_day(&self) -> (r: CalendarDay)
        ensures
            r.date == *self,
            r.describes_date(),
    {
        proof {
            use_type_invariant(self);
        }
        let week = self.iso_week();
        CalendarDay {
            date: *self,
            year: self.year(),
            month: self.month(),
            iso_year: week.0,
            iso_week: week.1,
            month_start: self.first_of_month(),
        }
    }

    /// The date `n` days after this one (before it, where `n` is negative), if
    /// the calendar can represent it.
    pub fn checked_add_days(&self, n: i32) -> (r: Option<Date>)
        ensures
            in_range(self@ + n) ==> r is Some && r->0@ == self@ + n,
            !in_range(self@ + n) ==> r is None,
    {
        proof {
            use_type_invariant(self);
        }
        let target: i64 = self.days as i64 + n as i64;
        if MIN_DAYS as i64 <= target && target <= MAX_DAYS as i64 {
            Some(Date { days: target as i32 })
        } else {
            None
        }
    }

    /// The date `n` days before this one (after it, where `n` is negative), if
    /// the calendar can represent it.
    pub fn checked_sub_days(&self, n: i32) -> (r: Option<Date>)
        ensures
            in_range(self@ - n) ==> r is Some && r->0@ == self@ - n,
            !in_range(self@ - n) ==> r is None,
    {
        proof {
            use_type_invariant(self);
        }
        let target: i64 = self.days as i64 - n as i64;
        if MIN_DAYS as i64 <= target && target <= MAX_DAYS as i64 {
            Some(Date { days: target as i32 })
        } else {
            None
        }
    }

    /// The next day, or `None` after the last date that the calendar can represent.
    pub fn succ(&self) -> (r: Option<Date>)
        ensures
            self@ < MAX_DAYS ==> r is Some && r->0@ == self@ + 1,
            self@ >= MAX_DAYS ==> r is None,
    {
        proof {
            use_type_invariant(self);
        }
        self.checked_add_days(1)
    }

    /// The day before, or `None` before the first date that the calendar can represent.
    pub fn pred(&self) -> (r: Option<Date>)
        ensures
            self@ > MIN_DAYS ==> r is Some && r->0@ == self@ - 1,
            self@ <= MIN_DAYS ==> r is None,
    {
        proof {
            use_type_invariant(self);
        }
        self.checked_sub_days(1)
    }

    /// The number of days from `earlier` to this date, negative where this date comes first.
    pub fn days_since(&self, earlier: Date) -> (r: i32)
        ensures
            r == self@ - earlier@,
    {
        proof {
            use_type_invariant(self);
            use_type_invariant(earlier);
        }
        self.days - earlier.days
    }

    /// Whether this date comes before `other`.
    pub fn is_before(&self, other: Date) -> (r: bool)
        ensures
            r == (self@ < other@),
    {
        self.days < other.days
    }
}

} // verus!
