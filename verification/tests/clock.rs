use gh_web_dash::clock::Timestamp;

#[test]
fn a_time_is_read_and_written() {
    let t = Timestamp::parse("2026-08-04T12:00:00+02:00").unwrap();
    assert_eq!(
        t,
        Timestamp {
            secs: 1_785_837_600,
            nanos: 0
        }
    );
    assert_eq!(t.to_rfc3339().unwrap(), "2026-08-04T10:00:00+00:00");
}

#[test]
fn what_is_no_time_is_not_read() {
    assert!(Timestamp::parse("").is_none());
    assert!(Timestamp::parse("2026-08-04").is_none());
    assert!(Timestamp::parse("not a date").is_none());
}

#[test]
fn days_are_counted_back() {
    let t = Timestamp::parse("2026-08-04T10:00:00.5Z").unwrap();
    assert_eq!(
        t.days_before_rfc3339(30).unwrap(),
        "2026-07-05T10:00:00.500+00:00"
    );
    assert_eq!(
        t.days_before_rfc3339(0).unwrap(),
        t.to_rfc3339().unwrap()
    );
}

#[test]
fn a_leap_second_is_counted_into_the_next_day() {
    let t = Timestamp::parse("2016-12-31T23:59:60Z").unwrap();
    assert_eq!(t.nanos, 1_000_000_000);
    assert_eq!(
        t.days_before_rfc3339(1).unwrap(),
        "2016-12-31T00:00:00+00:00"
    );
}

#[test]
fn the_calendar_ends() {
    let t = Timestamp {
        secs: i64::MAX,
        nanos: 0,
    };
    assert!(t.to_rfc3339().is_none());
    assert!(t.days_before_rfc3339(1).is_none());
    let first = Timestamp {
        secs: i64::MIN,
        nanos: 0,
    };
    assert!(first.days_before_rfc3339(1).is_none());
}
