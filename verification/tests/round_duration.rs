use backup_monitor::round_duration::{round_duration, RoundAccuracy, RoundDirection};

fn duration(s: &str) -> i64 {
    humantime::parse_duration(s).unwrap().as_millis() as i64
}

#[test]
fn round_to_minutes() {
    assert_eq!(
        round_duration(duration("1d"), RoundAccuracy::Minutes, RoundDirection::Down),
        (duration("1d"), 0)
    );
    assert_eq!(
        round_duration(duration("1h"), RoundAccuracy::Minutes, RoundDirection::Down),
        (duration("1h"), 0)
    );
    assert_eq!(
        round_duration(duration("1m"), RoundAccuracy::Minutes, RoundDirection::Down),
        (duration("1m"), 0)
    );
    assert_eq!(
        round_duration(duration("1s"), RoundAccuracy::Minutes, RoundDirection::Down),
        (0, duration("1s"))
    );

    assert_eq!(
        round_duration(duration("1d 17h"), RoundAccuracy::Minutes, RoundDirection::Down),
        (duration("1d 17h"), 0)
    );
    assert_eq!(
        round_duration(duration("2h 59m"), RoundAccuracy::Minutes, RoundDirection::Down),
        (duration("2h 59m"), 0)
    );

    assert_eq!(
        round_duration(duration("1d 17h 9m"), RoundAccuracy::Minutes, RoundDirection::Down),
        (duration("1d 17h"), duration("9m"))
    );
    assert_eq!(
        round_duration(duration("1d 9m"), RoundAccuracy::Minutes, RoundDirection::Down),
        (duration("1d"), duration("9m"))
    );
    assert_eq!(
        round_duration(duration("1d 9m 389ms"), RoundAccuracy::Minutes, RoundDirection::Down),
        (duration("1d"), duration("9m 389ms"))
    );

    assert_eq!(
        round_duration(duration("5h 9m 17s"), RoundAccuracy::Minutes, RoundDirection::Down),
        (duration("5h 9m"), duration("17s"))
    );
    assert_eq!(
        round_duration(duration("5h 17s"), RoundAccuracy::Minutes, RoundDirection::Down),
        (duration("5h"), duration("17s"))
    );
    assert_eq!(
        round_duration(duration("5h 17s 389ms"), RoundAccuracy::Minutes, RoundDirection::Down),
        (duration("5h"), duration("17s 389ms"))
    );

    assert_eq!(
        round_duration(duration("29m 8s 28ms"), RoundAccuracy::Minutes, RoundDirection::Down),
        (duration("29m"), duration("8s 28ms"))
    );
    assert_eq!(
        round_duration(duration("15m 16s"), RoundAccuracy::Minutes, RoundDirection::Down),
        (duration("15m"), duration("16s"))
    );
    assert_eq!(
        round_duration(duration("29m 28ms"), RoundAccuracy::Minutes, RoundDirection::Down),
        (duration("29m"), duration("28ms"))
    );

    assert_eq!(
        round_duration(duration("34s 127ms"), RoundAccuracy::Minutes, RoundDirection::Down),
        (0, duration("34s 127ms"))
    );
    assert_eq!(
        round_duration(duration("34s 94ms"), RoundAccuracy::Minutes, RoundDirection::Down),
        (0, duration("34s 94ms"))
    );
}

#[test]
fn round_to_seconds() {
    assert_eq!(
        round_duration(duration("1d"), RoundAccuracy::Seconds, RoundDirection::Down),
        (duration("1d"), 0)
    );
    assert_eq!(
        round_duration(duration("1h"), RoundAccuracy::Seconds, RoundDirection::Down),
        (duration("1h"), 0)
    );
    assert_eq!(
        round_duration(duration("1m"), RoundAccuracy::Seconds, RoundDirection::Down),
        (duration("1m"), 0)
    );
    assert_eq!(
        round_duration(duration("1s"), RoundAccuracy::Seconds, RoundDirection::Down),
        (duration("1s"), 0)
    );

    assert_eq!(
        round_duration(duration("1d 17h"), RoundAccuracy::Seconds, RoundDirection::Down),
        (duration("1d 17h"), 0)
    );
    assert_eq!(
        round_duration(duration("2h 59m"), RoundAccuracy::Seconds, RoundDirection::Down),
        (duration("2h 59m"), 0)
    );

    assert_eq!(
        round_duration(duration("1d 17h 9m"), RoundAccuracy::Seconds, RoundDirection::Down),
        (duration("1d 17h"), duration("9m"))
    );
    assert_eq!(
        round_duration(duration("1d 9m"), RoundAccuracy::Seconds, RoundDirection::Down),
        (duration("1d"), duration("9m"))
    );
    assert_eq!(
        round_duration(duration("1d 9m 389ms"), RoundAccuracy::Seconds, RoundDirection::Down),
        (duration("1d"), duration("9m 389ms"))
    );

    assert_eq!(
        round_duration(duration("5h 9m 17s"), RoundAccuracy::Seconds, RoundDirection::Down),
        (duration("5h 9m"), duration("17s"))
    );
    assert_eq!(
        round_duration(duration("5h 17s"), RoundAccuracy::Seconds, RoundDirection::Down),
        (duration("5h"), duration("17s"))
    );
    assert_eq!(
        round_duration(duration("5h 17s 389ms"), RoundAccuracy::Seconds, RoundDirection::Down),
        (duration("5h"), duration("17s 389ms"))
    );

    assert_eq!(
        round_duration(duration("29m 8s 28ms"), RoundAccuracy::Seconds, RoundDirection::Down),
        (duration("29m 8s"), duration("28ms"))
    );
    assert_eq!(
        round_duration(duration("15m 16s"), RoundAccuracy::Seconds, RoundDirection::Down),
        (duration("15m 16s"), 0)
    );
    assert_eq!(
        round_duration(duration("29m 28ms"), RoundAccuracy::Seconds, RoundDirection::Down),
        (duration("29m"), duration("28ms"))
    );

    assert_eq!(
        round_duration(duration("34s 127ms"), RoundAccuracy::Seconds, RoundDirection::Down),
        (duration("34s"), duration("127ms"))
    );
    assert_eq!(
        round_duration(duration("34s 94ms"), RoundAccuracy::Seconds, RoundDirection::Down),
        (duration("34s"), duration("94ms"))
    );
}

#[test]
fn round_up() {
    assert_eq!(
        round_duration(duration("1d"), RoundAccuracy::Minutes, RoundDirection::Up),
        (duration("1d"), 0)
    );
    assert_eq!(
        round_duration(duration("1h"), RoundAccuracy::Minutes, RoundDirection::Up),
        (duration("1h"), 0)
    );
    assert_eq!(
        round_duration(duration("1m"), RoundAccuracy::Minutes, RoundDirection::Up),
        (duration("1m"), 0)
    );
    assert_eq!(
        round_duration(duration("1s"), RoundAccuracy::Minutes, RoundDirection::Up),
        (duration("1m"), duration("59s"))
    );

    assert_eq!(
        round_duration(duration("1d 17h"), RoundAccuracy::Minutes, RoundDirection::Up),
        (duration("1d 17h"), 0)
    );
    assert_eq!(
        round_duration(duration("2h 59m"), RoundAccuracy::Minutes, RoundDirection::Up),
        (duration("2h 59m"), 0)
    );
    assert_eq!(
        round_duration(duration("2h 59m 13ms"), RoundAccuracy::Minutes, RoundDirection::Up),
        (duration("3h"), duration("59s 987ms"))
    );
    assert_eq!(
        round_duration(duration("2h 13ms"), RoundAccuracy::Minutes, RoundDirection::Up),
        (duration("2h 1m"), duration("59s 987ms"))
    );

    assert_eq!(
        round_duration(duration("1d 17h 9m"), RoundAccuracy::Minutes, RoundDirection::Up),
        (duration("1d 18h"), duration("51m"))
    );
    assert_eq!(
        round_duration(duration("1d 9m"), RoundAccuracy::Minutes, RoundDirection::Up),
        (duration("1d 1h"), duration("51m"))
    );
    assert_eq!(
        round_duration(duration("1d 9m 389ms"), RoundAccuracy::Minutes, RoundDirection::Up),
        (duration("1d 1h"), duration("50m 59s 611ms"))
    );
}

#[test]
fn round_down_is_idempotent() {
    for text in ["1d 17h 9m", "5h 17s 389ms", "29m 8s 28ms", "34s 127ms"] {
        let d = duration(text);
        let (rounded, _) = round_duration(d, RoundAccuracy::Minutes, RoundDirection::Down);
        assert_eq!(
            round_duration(rounded, RoundAccuracy::Minutes, RoundDirection::Down),
            (rounded, 0)
        );
        let (rounded, _) = round_duration(d, RoundAccuracy::Seconds, RoundDirection::Down);
        assert_eq!(
            round_duration(rounded, RoundAccuracy::Seconds, RoundDirection::Down),
            (rounded, 0)
        );
    }
}

#[test]
fn round_down_round_trip() {
    for text in ["1d 17h 9m", "1d 9m 389ms", "5h 17s 389ms", "29m 8s 28ms", "34s 127ms", "17s"] {
        let d = duration(text);
        let (rounded, remainder) = round_duration(d, RoundAccuracy::Minutes, RoundDirection::Down);
        assert_eq!(rounded + remainder, d);
    }
}
