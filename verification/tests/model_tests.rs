use chrono::{Datelike, NaiveDate};
use habit_tracker::date::Date;
use habit_tracker::habit::{Frequency, Habit};
use habit_tracker::projection::project;
use habit_tracker::todo::Todo;
use habit_tracker::ui::ListEntry;
use std::collections::BTreeMap;

struct Rng(u64);

impl Rng {
    fn next(&mut self) -> u64 {
        self.0 = self.0.wrapping_mul(6364136223846793005).wrapping_add(1442695040888963407);
        self.0 >> 33
    }

    fn below(&mut self, bound: u64) -> u64 {
        self.next() % bound
    }
}

fn to_date(date: NaiveDate) -> Date {
    Date::from_days(date.num_days_from_ce()).unwrap()
}

fn streak_by_chrono(frequency: Frequency, completed: &[NaiveDate], end: NaiveDate) -> u32 {
    let mut sorted = completed.to_vec();
    sorted.sort_unstable();
    sorted.dedup();
    let mut streak = 0;
    let mut current = end;
    while let Some(last) = sorted.iter().rev().find(|&&d| d <= current) {
        let same = match frequency {
            Frequency::Daily => *last == current,
            Frequency::Weekly => last.iso_week() == current.iso_week(),
            Frequency::Monthly => last.year() == current.year() && last.month() == current.month(),
        };
        if !same {
            break;
        }
        streak += 1;
        current = match frequency {
            Frequency::Daily => current.pred_opt().unwrap(),
            Frequency::Weekly => current - chrono::Duration::weeks(1),
            Frequency::Monthly => current.with_day(1).unwrap() - chrono::Duration::days(1),
        };
    }
    streak
}

#[test]
fn streaks_agree_with_a_walk_over_chrono_dates() {
    let mut rng = Rng(17);
    let base = NaiveDate::from_ymd_opt(2023, 11, 20).unwrap();
    for round in 0..600 {
        let frequency = match round % 3 {
            0 => Frequency::Daily,
            1 => Frequency::Weekly,
            _ => Frequency::Monthly,
        };
        let spread = match frequency {
            Frequency::Daily => 12,
            Frequency::Weekly => 60,
            Frequency::Monthly => 260,
        };
        let count = rng.below(14);
        let mut completed = Vec::new();
        let mut habit = Habit::new("h".to_string(), "c".to_string(), frequency);
        for _ in 0..count {
            let date = base + chrono::Duration::days(rng.below(spread) as i64);
            completed.push(date);
            habit.mark_completed(to_date(date));
        }
        for _ in 0..8 {
            let end = base + chrono::Duration::days(rng.below(spread + 10) as i64);
            assert_eq!(
                habit.get_streak(to_date(end)),
                streak_by_chrono(frequency, &completed, end),
                "{:?} {:?} {:?}",
                frequency,
                completed,
                end
            );
        }
    }
}

#[test]
fn marking_and_unmarking_agree_with_a_set() {
    let mut rng = Rng(5);
    let base = NaiveDate::from_ymd_opt(2024, 2, 20).unwrap();
    let mut habit = Habit::new("h".to_string(), "c".to_string(), Frequency::Daily);
    let mut model = std::collections::BTreeSet::new();
    for _ in 0..2000 {
        let date = base + chrono::Duration::days(rng.below(40) as i64);
        match rng.below(3) {
            0 => {
                habit.mark_completed(to_date(date));
                model.insert(date);
            }
            1 => {
                habit.unmark_completed(to_date(date));
                model.remove(&date);
            }
            _ => assert_eq!(habit.is_completed(to_date(date)), model.contains(&date)),
        }
        let expected: Vec<Date> = model.iter().map(|d| to_date(*d)).collect();
        assert_eq!(habit.completed_dates(), expected);
    }
    let status = habit.get_completion_status(to_date(base), to_date(base + chrono::Duration::days(39)));
    let expected: Vec<bool> =
        (0..40).map(|i| model.contains(&(base + chrono::Duration::days(i)))).collect();
    assert_eq!(status, expected);
}

fn rows(items: &[ListEntry]) -> Vec<String> {
    items
        .iter()
        .map(|entry| match entry {
            ListEntry::Category(name) => format!("[{}]", name),
            ListEntry::Habit(habit) => format!("h:{}", habit.name),
            ListEntry::Todo(todo) => format!("t:{}", todo.description),
        })
        .collect()
}

fn rows_by_btree_map(habits: &[Habit], todos: &[Todo], tab: usize) -> Vec<String> {
    let mut grouped: BTreeMap<&str, Vec<&Habit>> = BTreeMap::new();
    for habit in habits {
        let shown = match tab {
            0 => habit.frequency == Frequency::Daily,
            1 => habit.frequency == Frequency::Weekly,
            2 => habit.frequency == Frequency::Monthly,
            3 => true,
            _ => false,
        };
        if shown {
            grouped.entry(&habit.category).or_insert_with(Vec::new).push(habit);
        }
    }
    let mut rows = Vec::new();
    for (category, members) in grouped {
        rows.push(format!("[{}]", category));
        for habit in members {
            rows.push(format!("h:{}", habit.name));
        }
    }
    if tab == 4 {
        rows.push("[To-Do List]".to_string());
        for todo in todos {
            rows.push(format!("t:{}", todo.description));
        }
    }
    rows
}

#[test]
fn lists_agree_with_grouping_by_an_ordered_map() {
    let mut rng = Rng(99);
    let categories = ["", "Body", "Mind", "body", "Bo", "Art", "Zen", "École", "日課", "B"];
    for _ in 0..300 {
        let mut habits = Vec::new();
        for n in 0..rng.below(12) {
            let frequency = match rng.below(3) {
                0 => Frequency::Daily,
                1 => Frequency::Weekly,
                _ => Frequency::Monthly,
            };
            let category = categories[rng.below(categories.len() as u64) as usize];
            habits.push(Habit::new(format!("habit{}", n), category.to_string(), frequency));
        }
        let mut todos = Vec::new();
        for n in 0..rng.below(4) {
            todos.push(Todo::new(format!("todo{}", n)));
        }
        for tab in 0..6 {
            assert_eq!(rows(&project(&habits, &todos, tab)), rows_by_btree_map(&habits, &todos, tab));
        }
    }
}
