use duration_human::{DurationError, DurationHuman, DurationHumanValidator};

fn parse(s: &str) -> DurationHuman {
    DurationHuman::parse(s).unwrap()
}

#[test]
fn one_sec() {
    let duration = DurationHuman::parse("1s").unwrap();
    assert_eq!(duration.to_string(), "1s");
    assert_eq!(duration.format_expanded(), "1s");
}

#[test]
fn duration_roundtrip() {
    let duration =
        parse("It will take 2years 1 week 3days 5h 6min and 10s.").format_expanded();
    assert_eq!(duration, format!("2 years 1 week 3 days 5h 6min 10s"));

    let duration = parse(duration.as_str()).format_expanded();
    assert_eq!(duration, format!("2 years 1 week 3 days 5h 6min 10s"));
}

#[test]
fn beware_of_unrecognised() {
    let duration = parse("It will take 2years 1 week 3 dagen 5h 6min and 10s.");
    assert_eq!(duration.format_expanded(), format!("2 years 1 week 5h 6min 10s"));
}

#[test]
fn duration_max() {
    let duration =
        parse("5 centuries 84 years 11 months 1 week 6 days 23h 34min 33s 709ms 551μs 615ns");
    let pretty = duration.format_expanded();
    let duration_from_pretty = parse(pretty.as_str());
    assert_eq!(duration, duration_from_pretty);
}

#[test]
fn test_roundtrip() {
    let duration = parse("2years 1 week 3days 5h 6min 10s").format_expanded();
    assert_eq!(duration, format!("2 years 1 week 3 days 5h 6min 10s"));

    let duration = parse(duration.as_str()).format_expanded();
    assert_eq!(duration, format!("2 years 1 week 3 days 5h 6min 10s"));
}

#[test]
fn ignore_blanks_in_input() {
    let duration = parse("2year 1 week 3day 5h 6min 10s");
    assert_eq!(duration.format_expanded(), format!("2 years 1 week 3 days 5h 6min 10s"));
}

#[test]
fn test_max() {
    let duration =
        parse("5 centuries 84 years 11 months 1 week 6 days 23h 34min 33s 709ms 551Î¼s 615ns");
    let pretty = duration.format_expanded();
    let duration_from_pretty = parse(pretty.as_str());
    assert_eq!(duration, duration_from_pretty);
}

#[test]
fn overflow() {
    let duration = DurationHuman::parse("584 year 10 months 5 weeks 7 days 49h");
    assert!(duration.is_err());
    match duration {
        Err(DurationError::IntegerOverflowAt { duration }) => {
            assert_eq!(duration, "49h".to_string());
        }
        other => panic!("Did not expect: {:?}", other),
    }
}

#[test]
fn overflow_ms() {
    let duration = DurationHuman::parse("18446744073709551615ms");
    assert!(duration.is_err());
    match duration {
        Err(DurationError::IntegerOverflowAt { duration }) => assert!(!duration.is_empty()),
        other => panic!("Did not expect: {:?}", other),
    }
}

#[test]
fn syntax_error() {
    // The misspelt "3dya" is no occurrence and is skipped like any other text.
    let result = DurationHuman::parse("2year 1 week 3dya 5h 6min 10s");
    assert_eq!(result, Ok(parse("2year 1 week 5h 6min 10s")));
    // A text without any occurrence is a syntax error.
    assert_eq!(DurationHuman::parse("3dya"), Err(DurationError::InvalidSyntax));
}

#[test]
fn permissive_extraction() {
    assert_eq!(
        parse("It will take 2years 1 week 3days 5h 6min and 10s."),
        parse("2years 1week 3days 5h 6min 10s")
    );
    assert_eq!(parse("It will take about 5h"), parse("5h"));
}

#[test]
fn zero_contributes_nothing() {
    assert_eq!(parse("0day 5h"), parse("5h"));
    assert_eq!(parse("0 centuries").as_nanos(), 0);
    assert_eq!(parse("0centuries 18446744073709551615ns").as_nanos(), u64::MAX);
}

#[test]
fn exact_maximum() {
    let d = parse("18446744073709551615ns");
    assert_eq!(d.as_nanos(), u64::MAX);
    assert_eq!(
        d.format_expanded(),
        "5 centuries 84 years 11 months 1 week 6 days 23h 34min 33s 709ms 551\u{3bc}s 615ns"
    );
    assert_eq!(parse(d.format_expanded().as_str()), d);
    assert_eq!(d.format_compact(), "18446744073709551615ns");
}

#[test]
fn expanded_round_trip_at_unit_edges() {
    let year = 31_536_000_000_000_000u64;
    let century = 100 * year;
    for n in [
        1u64,
        999,
        1_000,
        1_001,
        999_999_999,
        1_000_000_000,
        59_999_999_999,
        60_000_000_000,
        86_400_000_000_000,
        604_800_000_000_000,
        2_592_000_000_000_000,
        year - 1,
        year,
        century - 1,
        century,
        century + 1,
        u64::MAX - 1,
        u64::MAX,
    ] {
        let d = DurationHuman::new(n);
        assert_eq!(parse(d.format_expanded().as_str()), d, "{}", n);
    }
}

#[test]
fn zero_renders_empty_expanded() {
    let zero = DurationHuman::new(0);
    assert_eq!(zero.format_expanded(), "");
    assert_eq!(DurationHuman::parse(""), Err(DurationError::InvalidSyntax));
    assert_eq!(zero.format_compact(), "0ns");
    assert_eq!(parse("0ns"), zero);
}

#[test]
fn compact_round_trip() {
    for n in [0u64, 1, 1_000, 61_000_000_000, 3_600_000_000_000, 31_536_000_000_000_000, u64::MAX]
    {
        let d = DurationHuman::new(n);
        assert_eq!(parse(d.format_compact().as_str()), d, "{}", n);
    }
}

#[test]
fn compact_and_expanded_forms() {
    let d = parse("80h");
    assert_eq!(d.format_expanded(), "3 days 8h");
    assert_eq!(d.to_string(), "80h");
    let d = parse("72h");
    assert_eq!(d.format_expanded(), "3 days");
    assert_eq!(d.to_string(), "3 days");
    let d = parse("604800\u{3bc}s");
    assert_eq!(d.format_expanded(), "604ms 800\u{3bc}s");
    assert_eq!(d.to_string(), "604800\u{3bc}s");
    let d = parse("604800ms");
    assert_eq!(d.format_expanded(), "10min 4s 800ms");
    assert_eq!(d.to_string(), "604800ms");
    let d = parse("604800s");
    assert_eq!(d.format_expanded(), "1 week");
    assert_eq!(d.to_string(), "1 week");
    let d = parse("608430s");
    assert_eq!(d.format_expanded(), "1 week 1h 30s");
    assert_eq!(d.to_string(), "608430s");
    let d = parse("365 days");
    assert_eq!(d.to_string(), "1 year");
    assert_eq!(parse("1 century").to_string(), "1 century");
    assert_eq!(parse("1 day").format_expanded(), "1 day");
    assert_eq!(parse("61s").to_string(), "61s");
}

#[test]
fn unit_multipliers() {
    assert_eq!(parse("1ns").as_nanos(), 1);
    assert_eq!(parse("1\u{3bc}s").as_nanos(), 1_000);
    assert_eq!(parse("1ms").as_nanos(), 1_000_000);
    assert_eq!(parse("1s").as_nanos(), 1_000_000_000);
    assert_eq!(parse("1min").as_nanos(), 60_000_000_000);
    assert_eq!(parse("1h").as_nanos(), 3_600_000_000_000);
    assert_eq!(parse("1day").as_nanos(), 86_400_000_000_000);
    assert_eq!(parse("1 week").as_nanos(), 604_800_000_000_000);
    assert_eq!(parse("1 month").as_nanos(), 2_592_000_000_000_000);
    assert_eq!(parse("1 year").as_nanos(), 31_536_000_000_000_000);
    assert_eq!(parse("1 century").as_nanos(), 3_153_600_000_000_000_000);
    assert_eq!(parse("2 centuries").as_nanos(), 6_307_200_000_000_000_000);
    assert_eq!(parse("2\t\nweeks").as_nanos(), 2 * 604_800_000_000_000);
}

#[test]
fn invalid_value() {
    assert_eq!(DurationHuman::parse("99999999999999999999s"), Err(DurationError::InvalidValue));
    assert_eq!(parse("00000000000000000000005s").as_nanos(), 5_000_000_000);
}

#[test]
fn overflow_names_whole_occurrence() {
    assert_eq!(
        DurationHuman::parse("6 centuries"),
        Err(DurationError::IntegerOverflowAt { duration: "6 centuries".to_string() })
    );
    assert_eq!(
        DurationHuman::parse("1ns 18446744073709551615ns"),
        Err(DurationError::IntegerOverflowAt { duration: "18446744073709551615ns".to_string() })
    );
}

#[test]
fn default_and_conversions() {
    assert_eq!(DurationHuman::default().as_nanos(), 60_000_000_000);
    assert_eq!(DurationHuman::from(42u64).as_nanos(), 42);
    assert_eq!(DurationHuman::new(42).as_nanos(), 42);
}

#[test]
fn error_messages() {
    assert_eq!(DurationError::InvalidValue.message(), "Invalid duration value");
    assert_eq!(
        DurationError::IntegerOverflowAt { duration: "49h".to_string() }.message(),
        "Duration overflows at '49h'"
    );
    assert_eq!(
        DurationError::DurationMustLieBetween { range: "must be between 1s and 1h".to_string() }
            .message(),
        "Duration must be between 1s and 1h"
    );
    assert_eq!(
        DurationError::DurationValidationMustBeOrdered {
            minimal: "10min".to_string(),
            default: "5min".to_string(),
            maximal: "1h".to_string()
        }
        .message(),
        "Invalid range: should be 10min <= 5min <= 1h"
    );
    assert!(DurationError::InvalidSyntax.message().starts_with("Duration must be specified"));
}
