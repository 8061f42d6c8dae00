use calendar_frontend::calendar::{Date, DateTime, Time, Weekday};

/// 2024-01-01, a Monday.
const NEW_YEAR_2024: i32 = 738886;

#[test]
fn first_day_is_monday() {
    assert_eq!(Date { days_from_ce: 1 }.weekday(), Weekday::Mon);
}

#[test]
fn known_days_have_their_weekdays() {
    assert_eq!(Date { days_from_ce: NEW_YEAR_2024 }.weekday(), Weekday::Mon);
    assert_eq!(Date { days_from_ce: NEW_YEAR_2024 + 4 }.weekday(), Weekday::Fri);
    assert_eq!(Date { days_from_ce: NEW_YEAR_2024 + 6 }.weekday(), Weekday::Sun);
    assert_eq!(Date { days_from_ce: 0 }.weekday(), Weekday::Sun);
    assert_eq!(Date { days_from_ce: -6 }.weekday(), Weekday::Mon);
    assert_eq!(Date { days_from_ce: i32::MIN }.weekday(), Date { days_from_ce: i32::MIN + 7 }.weekday());
}

#[test]
fn weekdays_repeat_weekly() {
    for d in [-20, 1, 5, NEW_YEAR_2024, 1_000_000] {
        assert_eq!(Date { days_from_ce: d }.weekday(), Date { days_from_ce: d + 7 }.weekday());
    }
}

#[test]
fn weekday_numbers_count_from_monday() {
    assert_eq!(Weekday::Mon.number_from_monday(), 0);
    assert_eq!(Weekday::Sun.number_from_monday(), 6);
    assert!(Weekday::Wed.same_day(&Weekday::Wed));
    assert!(!Weekday::Wed.same_day(&Weekday::Thu));
}

#[test]
fn adding_seconds_within_a_day() {
    let m = DateTime::new(Date { days_from_ce: NEW_YEAR_2024 }, Time { secs: 9 * 3600 });
    let r = m.add_seconds(3600);
    assert_eq!(r, DateTime::new(Date { days_from_ce: NEW_YEAR_2024 }, Time { secs: 10 * 3600 }));
}

#[test]
fn adding_seconds_carries_into_days() {
    let m = DateTime::new(Date { days_from_ce: NEW_YEAR_2024 }, Time { secs: 23 * 3600 });
    let r = m.add_seconds(2 * 3600 + 86400);
    assert_eq!(r, DateTime::new(Date { days_from_ce: NEW_YEAR_2024 + 2 }, Time { secs: 3600 }));
}

#[test]
fn adding_nothing_or_a_day() {
    let m = DateTime::new(Date { days_from_ce: 10 }, Time { secs: 123 });
    assert_eq!(m.add_seconds(0), m);
    assert_eq!(m.add_seconds(86400), DateTime::new(Date { days_from_ce: 11 }, Time { secs: 123 }));
}

#[test]
fn adding_the_largest_duration() {
    let m = DateTime::new(Date { days_from_ce: 0 }, Time { secs: 86399 });
    let r = m.add_seconds(u32::MAX);
    let total: u64 = 86399 + u32::MAX as u64;
    assert_eq!(r.date.days_from_ce as u64, total / 86400);
    assert_eq!(r.time.secs as u64, total % 86400);
}

#[test]
fn moments_order_by_day_then_time() {
    let a = DateTime::new(Date { days_from_ce: 5 }, Time { secs: 100 });
    let b = DateTime::new(Date { days_from_ce: 5 }, Time { secs: 200 });
    let c = DateTime::new(Date { days_from_ce: 6 }, Time { secs: 0 });
    assert!(a.key() < b.key());
    assert!(b.key() < c.key());
    assert_eq!(a.key(), (5, 100));
}
