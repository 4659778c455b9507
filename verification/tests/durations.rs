use abletime::{format_duration, Duration, Timestamp};

#[test]
fn test_format_duration() {
    assert_eq!("3:25:45.000", format_duration(&Duration::seconds(12345)));
    assert_eq!("0:05:21.000", format_duration(&Duration::seconds(321)));
    assert_eq!("0:00:00.522", format_duration(&Duration::milliseconds(522)));
}

#[test]
fn format_duration_of_zero() {
    assert_eq!("0:00:00.000", format_duration(&Duration::zero()));
}

#[test]
fn format_duration_pads_each_part() {
    assert_eq!("1:01:01.001", format_duration(&Duration::milliseconds(3_661_001)));
    assert_eq!("0:59:59.999", format_duration(&Duration::milliseconds(3_599_999)));
    assert_eq!("1:00:00.000", format_duration(&Duration::milliseconds(3_600_000)));
    assert_eq!("0:00:09.099", format_duration(&Duration::milliseconds(9_099)));
}

#[test]
fn format_duration_does_not_pad_hours() {
    assert_eq!("100:00:00.000", format_duration(&Duration::seconds(360_000)));
    assert_eq!("27:46:40.000", format_duration(&Duration::seconds(100_000)));
}

#[test]
fn format_duration_of_the_longest_span() {
    assert_eq!("2562047788015:12:55.807", format_duration(&Duration::max_value()));
}

#[test]
fn format_duration_of_the_shortest_span() {
    assert_eq!(
        "-2562047788015:-12:-55.-808",
        format_duration(&Duration::milliseconds(i64::MIN))
    );
}

#[test]
fn format_duration_gives_each_part_of_a_negative_span_its_sign() {
    assert_eq!("0:00:-1.-500", format_duration(&Duration::milliseconds(-1500)));
    assert_eq!("0:00:00.-05", format_duration(&Duration::milliseconds(-5)));
    assert_eq!("-1:00:00.000", format_duration(&Duration::seconds(-3600)));
    assert_eq!("-3:-25:-45.000", format_duration(&Duration::seconds(-12345)));
    assert_eq!("0:-1:00.000", format_duration(&Duration::seconds(-60)));
}

#[test]
fn duration_constructors() {
    assert_eq!(Duration::zero().num_milliseconds(), 0);
    assert_eq!(Duration::milliseconds(522).num_milliseconds(), 522);
    assert_eq!(Duration::seconds(2).num_milliseconds(), 2000);
    assert_eq!(Duration::seconds(-2).num_milliseconds(), -2000);
    assert_eq!(Duration::minutes(60).num_milliseconds(), 3_600_000);
    assert_eq!(Duration::max_value().num_milliseconds(), i64::MAX);
    assert_eq!(Duration::seconds(1), Duration::milliseconds(1000));
    assert_ne!(Duration::seconds(1), Duration::milliseconds(1001));
}

#[test]
fn timestamp_from_millis_keeps_the_value() {
    assert_eq!(Timestamp::from_millis(0).unwrap().millis(), 0);
    assert_eq!(Timestamp::from_millis(1_600_000_000_123).unwrap().millis(), 1_600_000_000_123);
    assert_eq!(Timestamp::from_millis(-5).unwrap().millis(), -5);
}

#[test]
fn timestamp_from_millis_stops_at_the_limit() {
    let limit: i64 = 0x3FFF_FFFF_FFFF_FFFF;
    assert_eq!(abletime::time::TIMESTAMP_LIMIT, limit);
    assert!(Timestamp::from_millis(limit).is_some());
    assert!(Timestamp::from_millis(-limit).is_some());
    assert!(Timestamp::from_millis(limit + 1).is_none());
    assert!(Timestamp::from_millis(-limit - 1).is_none());
    assert!(Timestamp::from_millis(i64::MAX).is_none());
    assert!(Timestamp::from_millis(i64::MIN).is_none());
}

#[test]
fn timestamp_since_is_the_difference() {
    let early = Timestamp::from_millis(1000).unwrap();
    let late = Timestamp::from_millis(4500).unwrap();
    assert_eq!(late.since(&early), Duration::milliseconds(3500));
    assert_eq!(early.since(&late), Duration::milliseconds(-3500));
    assert_eq!(early.since(&early), Duration::zero());
}

#[test]
fn timestamp_since_between_the_limits() {
    let limit: i64 = 0x3FFF_FFFF_FFFF_FFFF;
    let first = Timestamp::from_millis(-limit).unwrap();
    let last = Timestamp::from_millis(limit).unwrap();
    assert_eq!(last.since(&first), Duration::milliseconds(i64::MAX - 1));
    assert_eq!(first.since(&last), Duration::milliseconds(-(i64::MAX - 1)));
}

#[test]
fn timestamp_plus_adds_the_span() {
    let at = Timestamp::from_millis(1000).unwrap();
    assert_eq!(at.plus(Duration::seconds(1)), Timestamp::from_millis(2000));
    assert_eq!(at.plus(Duration::seconds(-2)), Timestamp::from_millis(-1000));
    assert!(at.plus(Duration::max_value()).is_none());
    assert!(at.plus(Duration::milliseconds(i64::MIN)).is_none());
    let limit = Timestamp::from_millis(0x3FFF_FFFF_FFFF_FFFF).unwrap();
    assert!(limit.plus(Duration::milliseconds(1)).is_none());
    assert!(limit.plus(Duration::zero()).is_some());
}
