use sapphire_journal::datetime::{Date, DateTime};
use sapphire_journal::journal::WeekStart;
use sapphire_journal::period::{parse_datetime, Period};
use sapphire_journal::week_period::{parse_period, parse_period_at};

fn dt(s: &str) -> DateTime {
    parse_datetime(s).unwrap()
}

fn range(p: Option<Result<Period, String>>) -> (DateTime, DateTime) {
    match p {
        Some(Ok(Period::Range(s, e))) => (s, e),
        other => panic!("unexpected {:?}", other),
    }
}

#[test]
fn parse_date_range() {
    let (s, e) = range(parse_period("2026-03-01,2026-03-07", WeekStart::Monday));
    assert_eq!(s, dt("2026-03-01T00:00:00"));
    assert_eq!(e, dt("2026-03-07T23:59:59"));
}

#[test]
fn parse_datetime_range() {
    let (s, e) = range(parse_period("2026-03-01T09:00,2026-03-01T17:30", WeekStart::Monday));
    assert_eq!(s, dt("2026-03-01T09:00:00"));
    assert_eq!(e, dt("2026-03-01T17:30:00"));
}

#[test]
fn week_periods_follow_the_first_day_of_the_week() {
    // 2026-03-05 is a Thursday.
    let today = Date { year: 2026, month: 3, day: 5 };
    let (s, e) = range(parse_period_at("this_week", today, WeekStart::Monday));
    assert_eq!((s, e), (dt("2026-03-02T00:00:00"), dt("2026-03-08T23:59:59")));
    let (s, e) = range(parse_period_at("this_week", today, WeekStart::Sunday));
    assert_eq!((s, e), (dt("2026-03-01T00:00:00"), dt("2026-03-07T23:59:59")));
    let (s, _) = range(parse_period_at("last_week", today, WeekStart::Sunday));
    assert_eq!(s, dt("2026-02-22T00:00:00"));
    let (s, _) = range(parse_period_at("next_week", today, WeekStart::Monday));
    assert_eq!(s, dt("2026-03-09T00:00:00"));
    let (s, e) = range(parse_period_at("last_month", Date { year: 2026, month: 1, day: 15 }, WeekStart::Monday));
    assert_eq!((s, e), (dt("2025-12-01T00:00:00"), dt("2025-12-31T23:59:59")));
    let (s, e) = range(parse_period_at("2026-03-05", today, WeekStart::Monday));
    assert_eq!((s, e), (dt("2026-03-05T00:00:00"), dt("2026-03-05T23:59:59")));
    assert!(matches!(parse_period_at("none", today, WeekStart::Monday), Some(Ok(Period::Absent))));
    // The slash form and ISO weeks are not accepted here.
    assert!(matches!(parse_period_at("2026-03-01/2026-03-07", today, WeekStart::Monday), Some(Err(_))));
    assert_eq!(
        parse_period_at("2026-03-01,later", today, WeekStart::Monday).unwrap().unwrap_err(),
        "`later` is not a valid date/datetime in period `2026-03-01,later`"
    );
}
