//! Habits: what recurs, how often, and on which dates it was done.

use crate::calendar::{in_range, iso_week_of, month_of, month_start, year_of, MIN_DAYS};
use crate::date::{CalendarDay, Date};
use crate::date_set::{
    ascending, has_on_or_before, latest_on_or_before, lemma_latest_exists, lemma_latest_unique,
    members, DateSet,
};
use vstd::prelude::*;

verus! {

/// How often a habit recurs.
#[derive(Debug, Clone, Copy, PartialEq, Eq, Structural)]
pub enum Frequency {
    Daily,
    Weekly,
    Monthly,
}

/// The name under which a frequency is shown.
pub open spec fn frequency_label(frequency: Frequency) -> Seq<char> {
    match frequency {
        Frequency::Daily => "Daily"@,
        Frequency::Weekly => "Weekly"@,
        Frequency::Monthly => "Monthly"@,
    }
}

/// Whether the days numbered `a` and `b` fall in the same recurrence period:
/// the same day, the same ISO week, or the same month of the same year.
pub open spec fn same_period(frequency: Frequency, a: int, b: int) -> bool {
    match frequency {
        Frequency::Daily => a == b,
        Frequency::Weekly => iso_week_of(a) == iso_week_of(b),
        Frequency::Monthly => year_of(a) == year_of(b) && month_of(a) == month_of(b),
    }
}

/// The first day of the month of the day numbered `day`, which is never after `day`.
pub open spec fn first_of_month(day: int) -> int {
    if month_start(day) <= day {
        month_start(day)
    } else {
        day
    }
}

/// Where a streak is looked for next once the period of `day` has been
/// counted: one day back, exactly seven days back, or the day before the
/// first of the month.
pub open spec fn previous_anchor(frequency: Frequency, day: int) -> int {
    match frequency {
        Frequency::Daily => day - 1,
        Frequency::Weekly => day - 7,
        Frequency::Monthly => first_of_month(day) - 1,
    }
}

/// Whether the latest of `dates` on or before `day` falls in the period of `day`.
pub open spec fn period_completed(dates: Set<int>, frequency: Frequency, day: int) -> bool {
    has_on_or_before(dates, day) && same_period(frequency, latest_on_or_before(dates, day), day)
}

/// The length of the unbroken run of completed periods that ends at `day`,
/// walking backward from it. Days before the first one of the calendar are
/// never completed.
pub open spec fn streak_ending(dates: Set<int>, frequency: Frequency, day: int) -> nat
    decreases
        (if day >= MIN_DAYS {
            day - MIN_DAYS + 1
        } else {
            0
        }),
{
    if day < MIN_DAYS || !period_completed(dates, frequency, day) {
        0
    } else {
        1 + streak_ending(dates, frequency, previous_anchor(frequency, day))
    }
}

/// A streak is no longer than the stretch of days from the calendar's first
/// day to the day it ends at.
pub proof fn lemma_streak_bounded(dates: Set<int>, frequency: Frequency, day: int)
    ensures
        day < MIN_DAYS ==> streak_ending(dates, frequency, day) == 0,
        day >= MIN_DAYS ==> streak_ending(dates, frequency, day) <= day - MIN_DAYS + 1,
    decreases
        (if day >= MIN_DAYS {
            day - MIN_DAYS + 1
        } else {
            0
        }),
{
    if day >= MIN_DAYS && period_completed(dates, frequency, day) {
        lemma_streak_bounded(dates, frequency, previous_anchor(frequency, day));
    }
}

impl Frequency {
    /// The name under which the frequency is shown.
    pub fn to_string(&self) -> (r: String)
        ensures
            r@ == frequency_label(*self),
    {
        match self {
            Frequency::Daily => "Daily".to_owned(),
            Frequency::Weekly => "Weekly".to_owned(),
            Frequency::Monthly => "Monthly".to_owned(),
        }
    }

    /// The frequency that follows this one when cycling through them.
    pub fn next(self) -> (r: Frequency)
        ensures
            r == match self {
                Frequency::Daily => Frequency::Weekly,
                Frequency::Weekly => Frequency::Monthly,
                Frequency::Monthly => Frequency::Daily,
            },
    {
        match self {
            Frequency::Daily => Frequency::Weekly,
            Frequency::Weekly => Frequency::Monthly,
            Frequency::Monthly => Frequency::Daily,
        }
    }

    /// Whether two days fall in the same recurrence period, judged by what the
    /// calendar says of each.
    pub fn same_period(self, a: &CalendarDay, b: &CalendarDay) -> (r: bool)
        ensures
            r == match self {
                Frequency::Daily => a.date@ == b.date@,
                Frequency::Weekly => a.iso_year == b.iso_year && a.iso_week == b.iso_week,
                Frequency::Monthly => a.year == b.year && a.month == b.month,
            },
            a.describes_date() && b.describes_date() ==> r == same_period(self, a.date@, b.date@),
    {
        match self {
            Frequency::Daily => a.date.days() == b.date.days(),
            Frequency::Weekly => a.iso_year == b.iso_year && a.iso_week == b.iso_week,
            Frequency::Monthly => a.year == b.year && a.month == b.month,
        }
    }

    /// The date at which a streak is looked for next once the period of `day`
    /// has been counted, or `None` where that would be before the calendar's
    /// first day.
    pub fn step_back(self, day: &CalendarDay) -> (r: Option<Date>)
        ensures
            ({
                let target = match self {
                    Frequency::Daily => day.date@ - 1,
                    Frequency::Weekly => day.date@ - 7,
                    Frequency::Monthly => day.month_start@ - 1,
                };
                match r {
                    Some(d) => d@ == target && target >= MIN_DAYS,
                    None => target < MIN_DAYS,
                }
            }),
            day.describes_date() ==> match r {
                Some(d) => d@ == previous_anchor(self, day.date@) && d@ < day.date@,
                None => previous_anchor(self, day.date@) < MIN_DAYS,
            },
    {
        proof {
            use_type_invariant(&day.date);
        }
        match self {
            Frequency::Daily => day.date.pred(),
            Frequency::Weekly => day.date.checked_sub_days(7),
            Frequency::Monthly => day.month_start.pred(),
        }
    }
}

/// What a habit is, as plain mathematical values.
#[verifier::ext_equal]
pub struct HabitView {
    pub name: Seq<char>,
    pub category: Seq<char>,
    pub frequency: Frequency,
    /// The day numbers of the dates on which the habit was done.
    pub completed: Set<int>,
}

impl HabitView {
    /// Whether the habit was done on the day numbered `day`.
    pub open spec fn is_completed(self, day: int) -> bool {
        self.completed.contains(day)
    }

    /// The habit with the day numbered `day` recorded as done.
    pub open spec fn marked(self, day: int) -> HabitView {
        HabitView { completed: self.completed.insert(day), ..self }
    }

    /// The habit with the day numbered `day` recorded as not done.
    pub open spec fn unmarked(self, day: int) -> HabitView {
        HabitView { completed: self.completed.remove(day), ..self }
    }

    /// The habit with the day numbered `day` recorded as not done where it
    /// was done, and as done where it was not.
    pub open spec fn toggled(self, day: int) -> HabitView {
        if self.is_completed(day) {
            self.unmarked(day)
        } else {
            self.marked(day)
        }
    }

    /// The habit's streak of completed periods that ends at the day numbered `day`.
    pub open spec fn streak(self, day: int) -> nat {
        streak_ending(self.completed, self.frequency, day)
    }

    /// For each day from `start` to `end`, both included and in ascending
    /// order, whether the habit was done on it.
    pub open spec fn completion_status(self, start: int, end: int) -> Seq<bool> {
        Seq::new(
            if end < start {
                0nat
            } else {
                (end - start + 1) as nat
            },
            |i: int| self.completed.contains(start + i),
        )
    }
}

/// A habit marked as done on a day is completed on that day, and is not once
/// the day is unmarked again.
pub proof fn lemma_mark_then_unmark(habit: HabitView, day: int)
    ensures
        habit.marked(day).is_completed(day),
        !habit.marked(day).unmarked(day).is_completed(day),
{
}

/// Marking a day twice leaves the habit as marking it once does.
pub proof fn lemma_mark_idempotent(habit: HabitView, day: int)
    ensures
        habit.marked(day).marked(day) == habit.marked(day),
{
    assert(habit.marked(day).marked(day) =~= habit.marked(day));
}

/// The completion status of a range has one item for each day from `start`
/// to `end`, none where `end` comes first, and its `i`-th item tells whether
/// the habit was done `i` days after `start`.
pub proof fn lemma_completion_status(habit: HabitView, start: int, end: int)
    ensures
        end < start ==> habit.completion_status(start, end).len() == 0,
        end >= start ==> habit.completion_status(start, end).len() == end - start + 1,
        forall|i: int|
            0 <= i < habit.completion_status(start, end).len() ==> habit.completion_status(
                start,
                end,
            )[i] == habit.is_completed(start + i),
{
}

/// A daily streak counts the day it ends at if the habit was done on that
/// very day, and goes on from the day before; else it is 0.
pub proof fn lemma_daily_streak(dates: Set<int>, day: int)
    ensures
        streak_ending(dates, Frequency::Daily, day) == if day >= MIN_DAYS && dates.contains(day) {
            1 + streak_ending(dates, Frequency::Daily, day - 1)
        } else {
            0
        },
{
    if dates.contains(day) {
        lemma_latest_unique(dates, day, day);
    } else if has_on_or_before(dates, day) {
        lemma_latest_exists(dates, day);
    }
}

/// A habit done on each of the `count` days that end at `end`, but not on the
/// day before them, has a daily streak of `count` at `end`.
pub proof fn lemma_daily_run(dates: Set<int>, end: int, count: nat)
    requires
        forall|d: int| end - count < d <= end ==> dates.contains(d),
        !dates.contains(end - count),
        MIN_DAYS <= end - count + 1,
    ensures
        streak_ending(dates, Frequency::Daily, end) == count,
    decreases count,
{
    lemma_daily_streak(dates, end);
    if count > 0 {
        lemma_daily_run(dates, end - 1, (count - 1) as nat);
    }
}

/// A weekly habit done once in each of three weeks, each time within the
/// seven days that end at that week's anchor (the day `end`, the day seven
/// days before it, and the day fourteen days before it), and in the same ISO
/// week as the anchor, has a streak of 3 at `end`.
pub proof fn lemma_weekly_streak_of_three(first: int, second: int, third: int, end: int)
    requires
        end - 21 < first <= end - 14,
        end - 14 < second <= end - 7,
        end - 7 < third <= end,
        MIN_DAYS <= end - 14,
        iso_week_of(first) == iso_week_of(end - 14),
        iso_week_of(second) == iso_week_of(end - 7),
        iso_week_of(third) == iso_week_of(end),
    ensures
        streak_ending(set![first, second, third], Frequency::Weekly, end) == 3,
{
    let dates = set![first, second, third];
    lemma_latest_unique(dates, end, third);
    lemma_latest_unique(dates, end - 7, second);
    lemma_latest_unique(dates, end - 14, first);
    assert(!has_on_or_before(dates, end - 21));
    assert(streak_ending(dates, Frequency::Weekly, end - 21) == 0);
    assert(streak_ending(dates, Frequency::Weekly, end - 14) == 1);
    assert(streak_ending(dates, Frequency::Weekly, end - 7) == 2);
}

/// Something done again and again, with the dates on which it was done.
pub struct Habit {
    pub name: String,
    pub category: String,
    pub frequency: Frequency,
    completed_dates: DateSet,
}

impl View for Habit {
    type V = HabitView;

    closed spec fn view(&self) -> HabitView {
        HabitView {
            name: self.name@,
            category: self.category@,
            frequency: self.frequency,
            completed: self.completed_dates@,
        }
    }
}

impl Clone for Habit {
    fn clone(&self) -> (r: Habit)
        ensures
            r@ == self@,
    {
        Habit {
            name: self.name.clone(),
            category: self.category.clone(),
            frequency: self.frequency,
            completed_dates: self.completed_dates.clone(),
        }
    }
}

impl Habit {
    /// A habit that has not been done yet.
    pub fn new(name: String, category: String, frequency: Frequency) -> (r: Habit)
        ensures
            r@ == (HabitView {
                name: name@,
                category: category@,
                frequency,
                completed: Set::<int>::empty(),
            }),
    {
        Habit { name, category, frequency, completed_dates: DateSet::new() }
    }

    /// Records the habit as done on `date`. Nothing changes where it already was.
    pub fn mark_completed(&mut self, date: Date)
        ensures
            final(self)@ == old(self)@.marked(date@),
    {
        self.completed_dates.insert(date);
    }

    /// Records the habit as not done on `date`. Nothing changes where it was not.
    pub fn unmark_completed(&mut self, date: Date)
        ensures
            final(self)@ == old(self)@.unmarked(date@),
    {
        self.completed_dates.remove(date);
    }

    /// Records the habit as not done on `date` where it was done on it, and
    /// as done where it was not.
    pub fn toggle_completed(&mut self, date: Date)
        ensures
            final(self)@ == old(self)@.toggled(date@),
    {
        if self.is_completed(date) {
            self.unmark_completed(date);
        } else {
            self.mark_completed(date);
        }
    }

    /// Whether the habit was done on exactly `date`.
    pub fn is_completed(&self, date: Date) -> (r: bool)
        ensures
            r == self@.is_completed(date@),
    {
        self.completed_dates.contains(date)
    }

    /// The habit's name.
    pub fn name(&self) -> (r: &String)
        ensures
            r@ == self@.name,
    {
        &self.name
    }

    /// The category under which the habit is grouped.
    pub fn category(&self) -> (r: &String)
        ensures
            r@ == self@.category,
    {
        &self.category
    }

    /// How often the habit recurs.
    pub fn get_frequency(&self) -> (r: Frequency)
        ensures
            r == self@.frequency,
    {
        self.frequency
    }

    /// The length of the unbroken run of completed periods that ends at
    /// `end_date`, walking backward from it period by period.
    pub fn get_streak(&self, end_date: Date) -> (streak: u32)
        ensures
            streak == self@.streak(end_date@),
    {
        let mut streak: u32 = 0;
        let mut current = end_date;
        proof {
            use_type_invariant(end_date);
        }
        loop
            invariant
                in_range(current@),
                in_range(end_date@),
                current@ <= end_date@,
                streak <= end_date@ - current@,
                streak + self@.streak(current@) == self@.streak(end_date@),
            decreases current@ - MIN_DAYS,
        {
            let last = match self.completed_dates.latest_on_or_before(current) {
                Some(last) => last,
                None => {
                    return streak;
                },
            };
            proof {
                lemma_latest_unique(self@.completed, current@, last@);
            }
            let today = current.calendar_day();
            if !self.frequency.same_period(&last.calendar_day(), &today) {
                return streak;
            }
            streak = streak + 1;
            match self.frequency.step_back(&today) {
                Some(earlier) => {
                    proof {
                        use_type_invariant(earlier);
                    }
                    current = earlier;
                },
                None => {
                    proof {
                        lemma_streak_bounded(
                            self@.completed,
                            self.frequency,
                            previous_anchor(self.frequency, current@),
                        );
                    }
                    return streak;
                },
            }
        }
    }

    /// The streak that ends at `date`.
    pub fn get_current_streak(&self, date: Date) -> (streak: u32)
        ensures
            streak == self@.streak(date@),
    {
        self.get_streak(date)
    }

    /// For each date from `start_date` to `end_date`, both included and in
    /// ascending order, whether the habit was done on it. Empty where
    /// `end_date` comes before `start_date`.
    pub fn get_completion_status(&self, start_date: Date, end_date: Date) -> (status: Vec<bool>)
        ensures
            status@ == self@.completion_status(start_date@, end_date@),
    {
        let mut status: Vec<bool> = Vec::new();
        proof {
            use_type_invariant(start_date);
            use_type_invariant(end_date);
        }
        if end_date.is_before(start_date) {
            assert(status@ =~= self@.completion_status(start_date@, end_date@));
            return status;
        }
        let count: i32 = end_date.days_since(start_date) + 1;
        let mut offset: i32 = 0;
        while offset < count
            invariant
                in_range(start_date@),
                in_range(end_date@),
                count == end_date@ - start_date@ + 1,
                0 <= offset <= count,
                status@.len() == offset,
                forall|i: int|
                    0 <= i < offset ==> status@[i] == self@.completed.contains(start_date@ + i),
            decreases count - offset,
        {
            let day = match start_date.checked_add_days(offset) {
                Some(day) => day,
                None => {
                    assert(false);
                    return status;
                },
            };
            status.push(self.is_completed(day));
            offset = offset + 1;
        }
        assert(status@ =~= self@.completion_status(start_date@, end_date@));
        status
    }

    /// The dates on which the habit was done, each once, in ascending order.
    pub fn completed_dates(&self) -> (r: Vec<Date>)
        ensures
            ascending(r@),
            members(r@) == self@.completed,
    {
        self.completed_dates.to_vec()
    }
}

/// The habits of a sequence, each as plain values.
pub open spec fn habit_views(s: Seq<Habit>) -> Seq<HabitView> {
    s.map_values(|h: Habit| h@)
}

} // verus!
