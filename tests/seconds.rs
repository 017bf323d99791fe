use duration_human::errors::InvalidDuration;
use duration_human::seconds::{
    format_duration, parse_duration, parse_duration_with_min_and_max, Duration, DurationRange,
};
use duration_human::token::{PurgeResult, RwLockNotAcquired, TokenCreateFailed, TokenUpdateFailed};

#[test]
fn seconds_text() {
    assert_eq!(format_duration(45), "45s");
    assert_eq!(format_duration(60), "1min");
    assert_eq!(format_duration(90), "90s");
    assert_eq!(format_duration(120), "2min");
    assert_eq!(format_duration(3_600), "1h");
    assert_eq!(format_duration(5_400), "90min");
    assert_eq!(format_duration(7_200), "2h");
    assert_eq!(Duration::new(7_200).to_string(), "2h");
}

#[test]
fn tight_tokens() {
    assert_eq!(parse_duration("2h").unwrap().as_secs(), 7_200);
    assert_eq!(parse_duration("15min").unwrap().as_secs(), 900);
    assert_eq!(parse_duration("2500ms").unwrap().as_secs(), 2);
    assert_eq!(parse_duration("2 h").err(), Some(InvalidDuration::InvalidSyntax));
    assert_eq!(parse_duration("2day").err(), Some(InvalidDuration::InvalidSyntax));
    assert_eq!(
        parse_duration("18446744073709551615h").err(),
        Some(InvalidDuration::InvalidValue)
    );
    assert_eq!(Duration::parse("30s"), Ok(Duration::new(30)));
    assert_eq!(Duration::default(), Duration::new(60));
}

#[test]
fn seconds_range() {
    assert_eq!(parse_duration_with_min_and_max("30min", 60, 3_600), Ok(Duration::new(1_800)));
    assert_eq!(
        parse_duration_with_min_and_max("30s", 60, 3_600),
        Err(InvalidDuration::DurationMustLieBetween {
            min: "1min".to_string(),
            max: "1h".to_string()
        })
    );
    assert_eq!(
        parse_duration_with_min_and_max("thirty", 60, 3_600),
        Err(InvalidDuration::InvalidSyntax)
    );
    let range = DurationRange::new(60, 120);
    assert_eq!(range.contains(Duration::new(120)), Ok(Duration::new(120)));
    assert!(range.contains(Duration::new(121)).is_err());
    assert_eq!(
        InvalidDuration::DurationMustLieBetween { min: "1min".to_string(), max: "1h".to_string() }
            .message(),
        "Duration must lie between 1min and 1h"
    );
}

#[test]
fn token_server_values() {
    let p = PurgeResult::from_counts(5, 3);
    assert_eq!((p.tokens, p.purged), (3, 2));
    assert_eq!(p.report(), "PURGED: tokens: 3, purged: 2");
    assert_eq!(RwLockNotAcquired.message(), "InternalServerError");
    assert_eq!(RwLockNotAcquired.detail(), "could not acquire read/write lock");
    assert_eq!(TokenCreateFailed::MetaDataMustBeJsonObject.message(), "metadata must be a JSON object");
    assert_eq!(TokenUpdateFailed::InvalidToken.message(), "InvalidToken");
    assert_eq!(TokenUpdateFailed::from(RwLockNotAcquired), TokenUpdateFailed::RwLockNotAcquired);
}
