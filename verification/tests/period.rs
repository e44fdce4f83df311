use sapphire_journal::datetime::{Date, DateTime};
use sapphire_journal::period::{parse_datetime, parse_datetime_end, parse_period, parse_period_at, Period};

fn dt(s: &str) -> DateTime {
    parse_datetime(s).unwrap()
}

fn day(y: i32, m: u32, d: u32) -> Date {
    Date { year: y, month: m, day: d }
}

#[test]
fn period_parse_single_date() {
    let p = parse_period("2026-03-05").unwrap().unwrap();
    let Period::Range(s, e) = p else { panic!() };
    assert_eq!(s, dt("2026-03-05T00:00:00"));
    assert_eq!(e, dt("2026-03-05T23:59:59"));
}

#[test]
fn parse_date_range_slash() {
    let p = parse_period("2026-03-01/2026-03-07").unwrap().unwrap();
    let Period::Range(s, e) = p else { panic!() };
    assert_eq!(s, dt("2026-03-01T00:00:00"));
    assert_eq!(e, dt("2026-03-07T23:59:59"));
}

#[test]
fn parse_datetime_range_slash() {
    let p = parse_period("2026-03-01T09:00/2026-03-01T17:30").unwrap().unwrap();
    let Period::Range(s, e) = p else { panic!() };
    assert_eq!(s, dt("2026-03-01T09:00:00"));
    assert_eq!(e, dt("2026-03-01T17:30:00"));
}

#[test]
fn parse_year() {
    let p = parse_period("2026").unwrap().unwrap();
    let Period::Range(s, e) = p else { panic!() };
    assert_eq!(s, dt("2026-01-01T00:00:00"));
    assert_eq!(e, dt("2026-12-31T23:59:59"));
}

#[test]
fn parse_year_month() {
    let p = parse_period("2026-04").unwrap().unwrap();
    let Period::Range(s, e) = p else { panic!() };
    assert_eq!(s, dt("2026-04-01T00:00:00"));
    assert_eq!(e, dt("2026-04-30T23:59:59"));
}

#[test]
fn parse_iso_week_format() {
    // 2026-W15 = 2026-04-06 (Mon) to 2026-04-12 (Sun)
    let p = parse_period("2026-W15").unwrap().unwrap();
    let Period::Range(s, e) = p else { panic!() };
    assert_eq!(s, dt("2026-04-06T00:00:00"));
    assert_eq!(e, dt("2026-04-12T23:59:59"));
}

#[test]
fn period_parse_none() {
    let p = parse_period("none").unwrap().unwrap();
    assert!(matches!(p, Period::Absent));
}

#[test]
fn period_period_none_matches_absent() {
    assert!(Period::Absent.matches(None));
    assert!(!Period::Absent.matches(Some(dt("2026-03-05T10:00:00"))));
}

#[test]
fn period_period_range_matches_inclusive() {
    let p = Period::Range(dt("2026-03-05T00:00:00"), dt("2026-03-05T23:59:59"));
    assert!(p.matches(Some(dt("2026-03-05T12:00:00"))));
    assert!(!p.matches(Some(dt("2026-03-06T00:00:00"))));
    assert!(!p.matches(None));
}

#[test]
fn period_overlaps_event_no_event_never_matches() {
    let p = Period::Range(dt("2026-03-08T00:00:00"), dt("2026-03-08T23:59:59"));
    assert!(!p.overlaps_event(None, None));
}

#[test]
fn period_overlaps_event_spanning_period() {
    let p = Period::Range(dt("2026-03-08T00:00:00"), dt("2026-03-08T23:59:59"));
    assert!(p.overlaps_event(Some(dt("2026-03-01T00:00:00")), Some(dt("2026-03-31T23:59:59")),));
}

#[test]
fn period_overlaps_event_outside_period() {
    let p = Period::Range(dt("2026-03-08T00:00:00"), dt("2026-03-08T23:59:59"));
    assert!(!p.overlaps_event(Some(dt("2026-03-10T00:00:00")), Some(dt("2026-03-20T23:59:59")),));
}

// ── relative periods on a fixed day ─────────────────────────────────────────

#[test]
fn relative_periods_on_a_fixed_day() {
    // 2026-03-05 is a Thursday.
    let today = day(2026, 3, 5);
    let range = |s: &str| match parse_period_at(s, today).unwrap().unwrap() {
        Period::Range(a, b) => (a, b),
        Period::Absent => panic!("unexpected absent period"),
    };
    assert_eq!(range("today"), (dt("2026-03-05T00:00:00"), dt("2026-03-05T23:59:59")));
    assert_eq!(range("yesterday"), (dt("2026-03-04T00:00:00"), dt("2026-03-04T23:59:59")));
    assert_eq!(range("tomorrow"), (dt("2026-03-06T00:00:00"), dt("2026-03-06T23:59:59")));
    assert_eq!(range("this_week"), (dt("2026-03-02T00:00:00"), dt("2026-03-08T23:59:59")));
    assert_eq!(range("last_week"), (dt("2026-02-23T00:00:00"), dt("2026-03-01T23:59:59")));
    assert_eq!(range("next_week"), (dt("2026-03-09T00:00:00"), dt("2026-03-15T23:59:59")));
    assert_eq!(range("this_month"), (dt("2026-03-01T00:00:00"), dt("2026-03-31T23:59:59")));
    assert_eq!(range("last_month"), (dt("2026-02-01T00:00:00"), dt("2026-02-28T23:59:59")));
    assert_eq!(range("next_month"), (dt("2026-04-01T00:00:00"), dt("2026-04-30T23:59:59")));
}

#[test]
fn month_boundaries_wrap_the_year() {
    let jan = day(2026, 1, 15);
    let Period::Range(a, b) = parse_period_at("last_month", jan).unwrap().unwrap() else { panic!() };
    assert_eq!((a, b), (dt("2025-12-01T00:00:00"), dt("2025-12-31T23:59:59")));
    let dec = day(2024, 12, 1);
    let Period::Range(a, b) = parse_period_at("next_month", dec).unwrap().unwrap() else { panic!() };
    assert_eq!((a, b), (dt("2025-01-01T00:00:00"), dt("2025-01-31T23:59:59")));
    // Leap year February.
    let Period::Range(_, b) = parse_period_at("2024-02", dec).unwrap().unwrap() else { panic!() };
    assert_eq!(b, dt("2024-02-29T23:59:59"));
}

#[test]
fn invalid_period_is_reported() {
    let err = parse_period_at("someday", day(2026, 3, 5)).unwrap().unwrap_err();
    assert!(err.starts_with("`someday` is not a valid period"));
    let err = parse_period_at("2026-03-01/later", day(2026, 3, 5)).unwrap().unwrap_err();
    assert_eq!(err, "`later` is not a valid date/datetime in period `2026-03-01/later`");
    let err = parse_period_at("2026-W99", day(2026, 3, 5)).unwrap();
    assert!(err.is_err());
}

#[test]
fn datetime_formats() {
    assert_eq!(dt("2026-03-05T10:20:30").second, 30);
    let m = parse_datetime("2026-03-05T10:20").unwrap();
    assert_eq!((m.hour, m.minute, m.second), (10, 20, 0));
    let d = parse_datetime("2026-03-05").unwrap();
    assert_eq!((d.hour, d.minute, d.second), (0, 0, 0));
    let e = parse_datetime_end("2026-03-05").unwrap();
    assert_eq!((e.hour, e.minute, e.second), (23, 59, 59));
    assert!(parse_datetime("05/03/2026").is_err());
}

#[test]
fn single_instant_event_overlaps_like_a_match() {
    let p = Period::Range(dt("2026-03-05T00:00:00"), dt("2026-03-05T23:59:59"));
    for t in ["2026-03-04T23:59:59", "2026-03-05T00:00:00", "2026-03-05T12:00:00", "2026-03-06T00:00:00"] {
        let t = dt(t);
        assert_eq!(p.overlaps_event(Some(t), Some(t)), p.matches(Some(t)));
    }
}
