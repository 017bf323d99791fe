use duration_human::errors::InvalidDuration;
use duration_human::in_ms::{DurationInms, DurationInmsRangeAndDefault, DurationInmsValidator};
use duration_human::validator::{DurationRangeArgument, ParsedDuration};
use duration_human::DurationError;

fn ms(s: &str) -> DurationInms {
    DurationInms::parse(s).unwrap()
}

#[test]
fn millisecond_formats() {
    let d = ms("80h");
    assert_eq!(d.format_expanded(), "3 day 8h");
    assert_eq!(d.to_string(), "80h");
    let d = ms("72h");
    assert_eq!(d.format_expanded(), "3 day");
    assert_eq!(d.to_string(), "3 day");
    let d = ms("18446744073709551615ns");
    assert_eq!(
        d.format_expanded(),
        "5 century 84 year 11 month 1 week 6 day 23h 34min 33s 709ms"
    );
    let d = ms("18446744073709551615ms");
    assert_eq!(
        d.format_expanded(),
        "5849424 century 17 year 4 month 1 week 2 day 14h 25min 51s 615ms"
    );
    let d = ms("604800\u{3bc}s");
    assert_eq!(d.format_expanded(), "604ms");
    assert_eq!(d.to_string(), "604ms");
    let d = ms("604800ms");
    assert_eq!(d.format_expanded(), "10min 4s 800ms");
    assert_eq!(d.to_string(), "604800ms");
    let d = ms("604800s");
    assert_eq!(d.format_expanded(), "1 week");
    assert_eq!(d.to_string(), "1 week");
    let d = ms("608430s");
    assert_eq!(d.format_expanded(), "1 week 1h 30s");
    assert_eq!(d.to_string(), "608430s");
    assert_eq!(ms("365 day").to_string(), "1 year");
    assert_eq!(ms("30 day").to_string(), "1 month");
    assert_eq!(ms("14 day").to_string(), "2 week");
    assert_eq!(ms("10 day").to_string(), "10 day");
    assert_eq!(ms("0s").to_string(), "0ms");
}

#[test]
fn millisecond_parse_errors() {
    assert_eq!(DurationInms::parse("2 hours").err(), Some(DurationError::InvalidSyntax));
    assert_eq!(DurationInms::parse("1 century").err(), Some(DurationError::InvalidSyntax));
    assert_eq!(DurationInms::parse("in 5min").err(), Some(DurationError::InvalidSyntax));
    assert_eq!(
        DurationInms::parse("99999999999999999999ms").err(),
        Some(DurationError::InvalidValue)
    );
    assert_eq!(
        DurationInms::parse("600000000 year").err(),
        Some(DurationError::IntegerOverflowAt { duration: "600000000 year".to_string() })
    );
    assert_eq!(ms("2 min").as_millis(), 120_000);
}

#[test]
fn millisecond_validators() {
    let v = DurationInmsValidator::new(60_000, 120_000, 3_600_000);
    assert_eq!(v.parse_and_validate("90s").unwrap().as_millis(), 90_000);
    assert_eq!(
        v.parse_and_validate("2h").err(),
        Some(DurationError::DurationMustLieBetween { range: "must be between 1min and 1h".to_string() })
    );
    assert!(ms("1h").is_in(&v));
    assert_eq!(v.range_text(), "1min and 1h");
    assert_eq!(
        DurationInmsValidator::try_new(500, 1_000, 2_000).err(),
        Some(DurationError::DurationValidationMinMustBeMoreThanOneSecond)
    );
    assert_eq!(
        DurationInmsValidator::try_from_bounds(ms("1h"), ms("1min")).err(),
        Some(DurationError::DurationValidationMinMustBeLessOrEqualMax {
            minimal: "1h".to_string(),
            maximal: "1min".to_string(),
        })
    );
    let r = DurationInmsRangeAndDefault::new(1_000, 2_000, 3_000);
    assert!(r.contains(&ms("2s")));
    assert_eq!(ms("3s").must_be_in(&r), Ok(ms("3s")));
    assert_eq!(
        ms("4s").must_be_in(&r),
        Err(InvalidDuration::DurationMustLieBetween {
            min: "1s".to_string(),
            max: "3s".to_string()
        })
    );
    assert_eq!(DurationInms::default().as_millis(), 60_000);
}

#[test]
fn millisecond_range_declarations() {
    let entry = |arg, text: &str| ParsedDuration { arg, duration: ms(text) };
    let args = vec![
        entry(DurationRangeArgument::Min, "1s"),
        entry(DurationRangeArgument::Default, "1min"),
        entry(DurationRangeArgument::Max, "1h"),
    ];
    let r = DurationInmsRangeAndDefault::try_from_arguments(&args).unwrap();
    assert_eq!((r.min.as_millis(), r.default.as_millis(), r.max.as_millis()), (1_000, 60_000, 3_600_000));
    let v = DurationInmsValidator::try_from_arguments(&args).unwrap();
    assert_eq!(v.default.as_millis(), 60_000);

    let args = vec![entry(DurationRangeArgument::Min, "1s"), entry(DurationRangeArgument::Max, "1h")];
    let r = DurationInmsRangeAndDefault::try_from_arguments(&args).unwrap();
    assert_eq!((r.min.as_millis(), r.default.as_millis(), r.max.as_millis()), (1_000, 1_000, 3_600_000));
    let v = DurationInmsValidator::try_from_arguments(&args).unwrap();
    assert_eq!(v.default.as_millis(), 1_000);

    let args = vec![entry(DurationRangeArgument::Min, "1s")];
    assert_eq!(
        DurationInmsRangeAndDefault::try_from_arguments(&args).err(),
        Some("could not find max duration".to_string())
    );
    assert_eq!(
        DurationInmsValidator::try_from_arguments(&args).err(),
        Some(DurationError::DurationValidationMaxMustBeSpecified)
    );
}

#[test]
fn millisecond_validator_constructors() {
    let v = DurationInmsValidator::try_from_texts("1s", "1min", "1h").unwrap();
    assert_eq!((v.min.as_millis(), v.default.as_millis(), v.max.as_millis()), (1_000, 60_000, 3_600_000));
    let v = DurationInmsValidator::try_from_text_bounds("2s", "1h").unwrap();
    assert_eq!((v.min.as_millis(), v.default.as_millis(), v.max.as_millis()), (2_000, 2_000, 3_600_000));
    let v = DurationInmsValidator::try_from_ms_bounds(1_000, 5_000).unwrap();
    assert_eq!(v.default.as_millis(), 1_000);
    assert_eq!(
        DurationInmsValidator::try_from_texts("1s", "soon", "1h").err(),
        Some(DurationError::InvalidSyntax)
    );
    assert_eq!(
        DurationInmsValidator::try_from_text_bounds("1h", "1s").err(),
        Some(DurationError::DurationValidationMinMustBeLessOrEqualMax {
            minimal: "1h".to_string(),
            maximal: "1s".to_string(),
        })
    );
    assert_eq!(
        DurationInmsValidator::try_from_ms_bounds(500, 5_000).err(),
        Some(DurationError::DurationValidationMinMustBeMoreThanOneSecond)
    );
}
