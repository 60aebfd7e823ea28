use github_metrics_exporter::metrics::{decimal, serialize_duration};
use github_metrics_exporter::time::{age_days, Timestamp};

fn chrono_days(created: &str, now: &str) -> u64 {
    let created = chrono::DateTime::parse_from_rfc3339(created).unwrap();
    let now = chrono::DateTime::parse_from_rfc3339(now).unwrap();
    created.signed_duration_since(now).num_days().unsigned_abs()
}

fn our_days(created: &str, now: &str) -> u64 {
    age_days(&Timestamp::parse(created).unwrap(), &Timestamp::parse(now).unwrap())
}

#[test]
fn parse_reads_seconds_since_epoch() {
    assert_eq!(Timestamp::parse("1970-01-01T00:00:00Z"), Some(Timestamp { secs: 0, nanos: 0 }));
    assert_eq!(
        Timestamp::parse("2021-01-01T00:00:00Z"),
        Some(Timestamp { secs: 1_609_459_200, nanos: 0 })
    );
    assert_eq!(
        Timestamp::parse("2021-01-11T00:00:00Z"),
        Some(Timestamp { secs: 1_610_323_200, nanos: 0 })
    );
}

#[test]
fn parse_applies_offset_and_fraction() {
    assert_eq!(
        Timestamp::parse("2021-01-01T01:00:00+01:00"),
        Some(Timestamp { secs: 1_609_459_200, nanos: 0 })
    );
    assert_eq!(
        Timestamp::parse("2021-01-01T00:00:00.25Z"),
        Some(Timestamp { secs: 1_609_459_200, nanos: 250_000_000 })
    );
    assert_eq!(
        Timestamp::parse("1969-12-31T23:59:59.5Z"),
        Some(Timestamp { secs: -1, nanos: 500_000_000 })
    );
}

#[test]
fn parse_rejects_what_is_no_rfc3339_time() {
    assert_eq!(Timestamp::parse(""), None);
    assert_eq!(Timestamp::parse("2021-01-01"), None);
    assert_eq!(Timestamp::parse("2021-01-01T00:00:00"), None);
    assert_eq!(Timestamp::parse("2021-13-01T00:00:00Z"), None);
    assert_eq!(Timestamp::parse("2021-12-31T25:59:59Z"), None);
    assert_eq!(Timestamp::parse("not a time"), None);
}

#[test]
fn age_is_ten_days_between_first_and_eleventh() {
    let created = Timestamp::parse("2021-01-01T00:00:00Z").unwrap();
    let now = Timestamp::parse("2021-01-11T00:00:00Z").unwrap();
    assert_eq!(age_days(&created, &now), 10);
}

#[test]
fn age_rounds_down_to_whole_days() {
    let now = Timestamp::new(10 * 86_400, 0);
    assert_eq!(age_days(&Timestamp::new(0, 0), &now), 10);
    assert_eq!(age_days(&Timestamp::new(0, 1), &now), 9);
    assert_eq!(age_days(&Timestamp::new(1, 0), &now), 9);
    assert_eq!(age_days(&Timestamp::new(9 * 86_400 + 1, 0), &now), 0);
    assert_eq!(age_days(&now, &now), 0);
}

#[test]
fn age_does_not_depend_on_which_instant_is_first() {
    let early = Timestamp::new(1_609_459_200, 0);
    let late = Timestamp::new(1_610_323_200, 0);
    assert_eq!(age_days(&early, &late), 10);
    assert_eq!(age_days(&late, &early), 10);
    assert_eq!(age_days(&Timestamp::new(0, 1), &Timestamp::new(-86_400, 0)), 1);
    assert_eq!(age_days(&Timestamp::new(0, 0), &Timestamp::new(-86_400, 1)), 0);
}

#[test]
fn age_at_the_ends_of_the_range() {
    let first = Timestamp::new(i64::MIN, 0);
    let last = Timestamp::new(i64::MAX, u32::MAX);
    let nanos: u128 = (u64::MAX as u128) * 1_000_000_000 + (u32::MAX as u128);
    let days = (nanos / 86_400_000_000_000) as u64;
    assert_eq!(age_days(&first, &last), days);
    assert_eq!(age_days(&last, &first), days);
}

#[test]
fn age_agrees_with_whole_days_of_signed_duration() {
    let cases = [
        ("2021-01-01T00:00:00Z", "2021-01-11T00:00:00Z"),
        ("2021-01-01T00:00:00.5Z", "2021-01-11T00:00:00Z"),
        ("2021-01-01T00:00:00Z", "2021-01-10T23:59:59.999999999Z"),
        ("2020-02-28T12:00:00+05:30", "2024-03-01T00:00:00-08:00"),
        ("2024-03-01T00:00:00Z", "2020-02-28T12:00:00Z"),
        ("1969-07-20T20:17:40Z", "2021-01-11T00:00:00Z"),
    ];
    for (created, now) in cases {
        assert_eq!(our_days(created, now), chrono_days(created, now));
    }
    assert_eq!(our_days("2021-01-01T00:00:00.5Z", "2021-01-11T00:00:00Z"), 9);
}

#[test]
fn duration_is_written_in_days() {
    assert_eq!(serialize_duration(10), "10 days");
    assert_eq!(serialize_duration(0), "0 days");
    assert_eq!(serialize_duration(1), "1 days");
    assert_eq!(serialize_duration(u64::MAX), "18446744073709551615 days");
}

#[test]
fn decimal_has_no_leading_zeros() {
    assert_eq!(decimal(0), "0");
    assert_eq!(decimal(9), "9");
    assert_eq!(decimal(10), "10");
    assert_eq!(decimal(1_234_567_890), "1234567890");
    assert_eq!(decimal(u64::MAX), u64::MAX.to_string());
}
