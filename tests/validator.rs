use duration_human::validator::{DurationRangeArgument, ParsedDuration};
use duration_human::{DurationError, DurationHuman, DurationHumanValidator};

const SEC: u64 = 1_000_000_000;
const MINUTE: u64 = 60 * SEC;
const HOUR: u64 = 60 * MINUTE;
const DAY: u64 = 24 * HOUR;

fn d(s: &str) -> DurationHuman {
    DurationHuman::parse(s).unwrap()
}

#[test]
fn range_validator_ordering() {
    assert_eq!(
        DurationHumanValidator::try_new(10 * MINUTE, 5 * MINUTE, HOUR).err(),
        Some(DurationError::DurationValidationMustBeOrdered {
            minimal: "10min".to_string(),
            default: "5min".to_string(),
            maximal: "1h".to_string(),
        })
    );
    assert_eq!(
        DurationHumanValidator::try_from_bounds(d("1h"), d("10min")).err(),
        Some(DurationError::DurationValidationMinMustBeLessOrEqualMax {
            minimal: "1h".to_string(),
            maximal: "10min".to_string(),
        })
    );
}

#[test]
fn sub_second_rejection() {
    assert_eq!(
        DurationHumanValidator::try_new(500_000_000, HOUR, 2 * HOUR).err(),
        Some(DurationError::DurationValidationMinMustBeMoreThanOneSecond)
    );
    assert_eq!(
        DurationHumanValidator::try_from_text_bounds("500ms", "1h").err(),
        Some(DurationError::DurationValidationMinMustBeMoreThanOneSecond)
    );
}

#[test]
fn containment() {
    let v = DurationHumanValidator::new(10 * MINUTE, 2 * HOUR, 60 * DAY);
    let r = v.parse_and_validate("666000ms").unwrap();
    assert_eq!(r.format_compact(), "666s");
    assert_eq!(r.format_expanded(), "11min 6s");
    assert!(r.is_in(&v));
    assert!(v.contains(&DurationHuman::new(10 * MINUTE)));
    assert!(v.contains(&DurationHuman::new(60 * DAY)));
    assert!(!v.contains(&DurationHuman::new(60 * DAY + 1)));
    assert!(!v.contains(&DurationHuman::new(10 * MINUTE - 1)));
}

#[test]
fn out_of_range_and_parse_failure() {
    let v = DurationHumanValidator::new(10 * MINUTE, 2 * HOUR, 60 * DAY);
    assert_eq!(
        v.parse_and_validate("5min"),
        Err(DurationError::DurationMustLieBetween {
            range: "must be between 10min and 2 months".to_string()
        })
    );
    assert_eq!(v.parse_and_validate("soon"), Err(DurationError::InvalidSyntax));
    assert_eq!(v.describe(), "must be between 10min and 2 months");
    match v.parse_and_validate("61day") {
        Err(DurationError::DurationMustLieBetween { range }) => assert_eq!(range, v.describe()),
        other => panic!("Did not expect: {:?}", other),
    }
    assert_eq!(v.range_text(), "10min and 2 months");
    assert_eq!(v.bounds(), (10 * MINUTE, 2 * HOUR, 60 * DAY));
}

#[test]
fn constructors() {
    let v = DurationHumanValidator::try_from_texts("1500ms", "2h", "60day").unwrap();
    assert_eq!(v.bounds(), (1_500_000_000, 2 * HOUR, 60 * DAY));
    let v = DurationHumanValidator::try_from_nanos_bounds(SEC, HOUR).unwrap();
    assert_eq!(v.bounds(), (SEC, SEC, HOUR));
    let v = DurationHumanValidator::try_from_durations(d("1s"), d("1min"), d("1h")).unwrap();
    assert_eq!(v.default.as_nanos(), MINUTE);
    assert_eq!(
        DurationHumanValidator::try_from_texts("1s", "nothing", "1h").err(),
        Some(DurationError::InvalidSyntax)
    );
    let v = DurationHumanValidator::try_new(SEC, SEC, SEC).unwrap();
    assert_eq!(v.bounds(), (SEC, SEC, SEC));
}

#[test]
fn range_declaration() {
    let entry = |arg, text: &str| ParsedDuration { arg, duration: d(text) };
    let args = vec![
        entry(DurationRangeArgument::Default, "2h"),
        entry(DurationRangeArgument::Min, "1500ms"),
        entry(DurationRangeArgument::Max, "60day"),
    ];
    let v = DurationHumanValidator::try_from_arguments(&args).unwrap();
    assert_eq!(v.bounds(), (1_500_000_000, 2 * HOUR, 60 * DAY));

    let args = vec![
        entry(DurationRangeArgument::Min, "1h"),
        entry(DurationRangeArgument::Max, "90min"),
        entry(DurationRangeArgument::Min, "10min"),
    ];
    let v = DurationHumanValidator::try_from_arguments(&args).unwrap();
    assert_eq!(v.bounds(), (10 * MINUTE, 10 * MINUTE, 90 * MINUTE));

    let args = vec![entry(DurationRangeArgument::Max, "1h")];
    assert_eq!(
        DurationHumanValidator::try_from_arguments(&args).err(),
        Some(DurationError::DurationValidationMinMustBeSpecified)
    );
    let args = vec![entry(DurationRangeArgument::Min, "1h")];
    assert_eq!(
        DurationHumanValidator::try_from_arguments(&args).err(),
        Some(DurationError::DurationValidationMaxMustBeSpecified)
    );
}
