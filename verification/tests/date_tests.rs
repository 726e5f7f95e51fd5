use chrono::{Datelike, NaiveDate};
use habit_tracker::calendar::{MAX_DAYS, MIN_DAYS};
use habit_tracker::date::Date;
use habit_tracker::date_set::DateSet;

fn ymd(year: i32, month: u32, day: u32) -> Date {
    Date::from_ymd(year, month, day).unwrap()
}

fn naive(date: Date) -> NaiveDate {
    NaiveDate::from_num_days_from_ce_opt(date.days()).unwrap()
}

#[test]
fn calendar_bounds_are_those_of_chrono() {
    assert_eq!(NaiveDate::MIN.num_days_from_ce(), MIN_DAYS);
    assert_eq!(NaiveDate::MAX.num_days_from_ce(), MAX_DAYS);
    assert_eq!(Date::min().days(), MIN_DAYS);
    assert_eq!(Date::max().days(), MAX_DAYS);
    assert_eq!(Date::min().year(), NaiveDate::MIN.year());
    assert_eq!(Date::max().year(), NaiveDate::MAX.year());
    assert!(Date::from_days(MIN_DAYS).is_some());
    assert!(Date::from_days(MAX_DAYS).is_some());
    assert!(Date::from_days(MIN_DAYS - 1).is_none());
    assert!(Date::from_days(MAX_DAYS + 1).is_none());
    assert!(Date::from_days(i32::MIN).is_none());
    assert!(Date::from_days(i32::MAX).is_none());
}

#[test]
fn from_ymd_numbers_days_from_year_one() {
    assert_eq!(ymd(1, 1, 1).days(), 1);
    assert_eq!(ymd(1970, 1, 1).days(), 719_163);
    assert_eq!(ymd(2024, 1, 5).days(), 738_890);
    assert_eq!(ymd(0, 12, 31).days(), 0);
}

#[test]
fn from_ymd_refuses_days_that_do_not_exist() {
    assert!(Date::from_ymd(2023, 2, 29).is_none());
    assert!(Date::from_ymd(2024, 2, 29).is_some());
    assert!(Date::from_ymd(2024, 13, 1).is_none());
    assert!(Date::from_ymd(2024, 0, 1).is_none());
    assert!(Date::from_ymd(2024, 4, 31).is_none());
    assert!(Date::from_ymd(2024, 1, 0).is_none());
    assert!(Date::from_ymd(400_000, 1, 1).is_none());
    assert!(Date::from_ymd(-400_000, 1, 1).is_none());
}

#[test]
fn calendar_fields_are_read_back() {
    let d = ymd(2024, 3, 20);
    assert_eq!(d.year(), 2024);
    assert_eq!(d.month(), 3);
    let e = ymd(-44, 12, 7);
    assert_eq!(e.year(), -44);
    assert_eq!(e.month(), 12);
}

#[test]
fn iso_week_follows_the_week_date() {
    assert_eq!(ymd(2024, 1, 1).iso_week(), (2024, 1));
    assert_eq!(ymd(2016, 1, 3).iso_week(), (2015, 53));
    assert_eq!(ymd(2014, 12, 29).iso_week(), (2015, 1));
    assert_eq!(ymd(2024, 1, 17).iso_week(), (2024, 3));
}

#[test]
fn days_from_monday_counts_from_monday() {
    assert_eq!(ymd(2024, 1, 1).days_from_monday(), 0);
    assert_eq!(ymd(2024, 1, 3).days_from_monday(), 2);
    assert_eq!(ymd(2024, 1, 7).days_from_monday(), 6);
    assert_eq!(ymd(1, 1, 1).days_from_monday(), 0);
}

#[test]
fn first_of_month_is_day_one_of_the_same_month() {
    assert_eq!(ymd(2024, 3, 20).first_of_month(), ymd(2024, 3, 1));
    assert_eq!(ymd(2024, 3, 1).first_of_month(), ymd(2024, 3, 1));
    assert_eq!(ymd(2024, 2, 29).first_of_month(), ymd(2024, 2, 1));
    assert_eq!(Date::min().first_of_month(), Date::min());
}

#[test]
fn calendar_day_gathers_the_fields() {
    let d = ymd(2016, 1, 3);
    let c = d.calendar_day();
    assert_eq!(c.date, d);
    assert_eq!(c.year, 2016);
    assert_eq!(c.month, 1);
    assert_eq!(c.iso_year, 2015);
    assert_eq!(c.iso_week, 53);
    assert_eq!(c.month_start, ymd(2016, 1, 1));
}

#[test]
fn calendar_queries_agree_with_chrono_over_many_days() {
    let mut days = -800_000;
    while days < 800_000 {
        let d = Date::from_days(days).unwrap();
        let n = NaiveDate::from_num_days_from_ce_opt(days).unwrap();
        assert_eq!(d.year(), n.year());
        assert_eq!(d.month(), n.month());
        assert_eq!(d.iso_week(), (n.iso_week().year(), n.iso_week().week()));
        assert_eq!(d.days_from_monday(), n.weekday().num_days_from_monday());
        assert_eq!(naive(d.first_of_month()), n.with_day(1).unwrap());
        assert_eq!(Date::from_ymd(n.year(), n.month(), n.day()), Some(d));
        days += 977;
    }
}

#[test]
fn pred_and_succ_step_one_day_and_stop_at_the_bounds() {
    let d = ymd(2024, 3, 1);
    assert_eq!(d.pred(), Some(ymd(2024, 2, 29)));
    assert_eq!(d.succ(), Some(ymd(2024, 3, 2)));
    assert_eq!(ymd(2023, 12, 31).succ(), Some(ymd(2024, 1, 1)));
    assert_eq!(Date::min().pred(), None);
    assert_eq!(Date::max().succ(), None);
    assert_eq!(naive(Date::min()).pred_opt(), None);
    assert_eq!(naive(Date::max()).succ_opt(), None);
    assert_eq!(Date::min().succ().map(naive), NaiveDate::MIN.succ_opt());
    assert_eq!(Date::max().pred().map(naive), NaiveDate::MAX.pred_opt());
}

#[test]
fn checked_add_and_sub_move_by_days() {
    let d = ymd(2024, 1, 17);
    assert_eq!(d.checked_sub_days(7), Some(ymd(2024, 1, 10)));
    assert_eq!(d.checked_add_days(7), Some(ymd(2024, 1, 24)));
    assert_eq!(d.checked_add_days(-17), Some(ymd(2023, 12, 31)));
    assert_eq!(d.checked_sub_days(-1), Some(ymd(2024, 1, 18)));
    assert_eq!(d.checked_add_days(0), Some(d));
    assert_eq!(Date::min().checked_sub_days(1), None);
    assert_eq!(Date::max().checked_add_days(1), None);
    assert_eq!(d.checked_add_days(i32::MAX), None);
    assert_eq!(d.checked_sub_days(i32::MIN), None);
    assert_eq!(d.checked_add_days(i32::MIN), None);
    assert_eq!(Date::min().checked_add_days(MAX_DAYS - MIN_DAYS), Some(Date::max()));
}

#[test]
fn days_since_is_the_difference_of_day_numbers() {
    assert_eq!(ymd(2024, 1, 5).days_since(ymd(2024, 1, 1)), 4);
    assert_eq!(ymd(2024, 1, 1).days_since(ymd(2024, 1, 5)), -4);
    assert_eq!(ymd(2024, 3, 1).days_since(ymd(2024, 2, 1)), 29);
    assert_eq!(Date::max().days_since(Date::min()), MAX_DAYS - MIN_DAYS);
}

#[test]
fn dates_compare_as_their_day_numbers() {
    assert!(ymd(2024, 1, 1).is_before(ymd(2024, 1, 2)));
    assert!(!ymd(2024, 1, 2).is_before(ymd(2024, 1, 2)));
    assert!(!ymd(2024, 1, 3).is_before(ymd(2024, 1, 2)));
    assert!(ymd(2023, 12, 31) < ymd(2024, 1, 1));
    assert_eq!(ymd(2024, 1, 1), Date::from_days(738_886).unwrap());
}

#[test]
fn date_set_keeps_each_date_once_in_ascending_order() {
    let mut s = DateSet::new();
    assert_eq!(s.len(), 0);
    assert!(s.insert(ymd(2024, 1, 3)));
    assert!(s.insert(ymd(2024, 1, 1)));
    assert!(s.insert(ymd(2024, 1, 2)));
    assert!(!s.insert(ymd(2024, 1, 1)));
    assert_eq!(s.len(), 3);
    assert_eq!(s.to_vec(), vec![ymd(2024, 1, 1), ymd(2024, 1, 2), ymd(2024, 1, 3)]);
    assert!(s.contains(ymd(2024, 1, 2)));
    assert!(!s.contains(ymd(2024, 1, 4)));
    assert!(s.remove(ymd(2024, 1, 2)));
    assert!(!s.remove(ymd(2024, 1, 2)));
    assert_eq!(s.to_vec(), vec![ymd(2024, 1, 1), ymd(2024, 1, 3)]);
    let copy = s.clone();
    assert!(s.remove(ymd(2024, 1, 1)));
    assert_eq!(copy.to_vec(), vec![ymd(2024, 1, 1), ymd(2024, 1, 3)]);
    assert_eq!(s.to_vec(), vec![ymd(2024, 1, 3)]);
}

#[test]
fn date_set_finds_the_latest_on_or_before() {
    let mut s = DateSet::new();
    assert_eq!(s.latest_on_or_before(ymd(2024, 1, 1)), None);
    s.insert(ymd(2024, 1, 10));
    s.insert(ymd(2024, 1, 3));
    s.insert(ymd(2024, 1, 20));
    assert_eq!(s.latest_on_or_before(ymd(2024, 1, 2)), None);
    assert_eq!(s.latest_on_or_before(ymd(2024, 1, 3)), Some(ymd(2024, 1, 3)));
    assert_eq!(s.latest_on_or_before(ymd(2024, 1, 9)), Some(ymd(2024, 1, 3)));
    assert_eq!(s.latest_on_or_before(ymd(2024, 1, 10)), Some(ymd(2024, 1, 10)));
    assert_eq!(s.latest_on_or_before(ymd(2024, 1, 19)), Some(ymd(2024, 1, 10)));
    assert_eq!(s.latest_on_or_before(Date::max()), Some(ymd(2024, 1, 20)));
}
