use vstd::prelude::*;
use vstd::string::StringExecFns;

verus! {

/// Why a duration text or a validator was refused.
#[derive(Debug, PartialEq, Eq)]
pub enum DurationError {
    /// A parsed duration lies outside the validator's range; `range` is the
    /// validator's description, `must be between <min> and <max>`.
    DurationMustLieBetween { range: String },
    /// No `<digits><unit>` occurrence was found in the text.
    InvalidSyntax,
    /// The digits of an occurrence do not fit an unsigned 64-bit integer.
    InvalidValue,
    /// A unit keyword that the grammar does not know. The grammar in this
    /// crate matches and reads units with one definition, so parsing never
    /// returns it.
    UnsupportedSymbol { sym: String },
    /// The occurrence `duration` takes the sum past 2^64 - 1 nanoseconds.
    IntegerOverflowAt { duration: String },
    /// A validator's minimum exceeds its maximum.
    DurationValidationMinMustBeLessOrEqualMax { minimal: String, maximal: String },
    /// A validator's bounds are not ordered as min <= default <= max.
    DurationValidationMustBeOrdered { minimal: String, default: String, maximal: String },
    /// A range declaration names no minimum.
    DurationValidationMinMustBeSpecified,
    /// A range declaration names no maximum.
    DurationValidationMaxMustBeSpecified,
    /// A validator's minimum is under one second.
    DurationValidationMinMustBeMoreThanOneSecond,
    /// A validator's default is under one second.
    DurationValidationDefaultMustBeMoreThanOneSecond,
}

/// The text that describes a text without a duration in it.
pub open spec fn syntax_text() -> Seq<char> {
    "Duration must be specified as a positive integer, immediately followed by days, h, min, s, ms, \u{3bc}s or ns"@
}

fn syntax_message() -> (r: String)
    ensures
        r@ == syntax_text(),
{
    String::from_str(
        "Duration must be specified as a positive integer, immediately followed by days, h, min, s, ms, \u{3bc}s or ns",
    )
}

/// The text that describes an error.
pub open spec fn error_text(e: DurationError) -> Seq<char> {
    match e {
        DurationError::DurationMustLieBetween { range } => "Duration "@ + range@,
        DurationError::InvalidSyntax => syntax_text(),
        DurationError::InvalidValue => "Invalid duration value"@,
        DurationError::UnsupportedSymbol { sym } => "'"@ + sym@
            + "' is not supported as a duration symbol"@,
        DurationError::IntegerOverflowAt { duration } => "Duration overflows at '"@ + duration@
            + "'"@,
        DurationError::DurationValidationMinMustBeLessOrEqualMax { minimal, maximal } =>
            "Invalid range: should be "@ + minimal@ + " <= "@ + maximal@,
        DurationError::DurationValidationMustBeOrdered { minimal, default, maximal } =>
            "Invalid range: should be "@ + minimal@ + " <= "@ + default@ + " <= "@ + maximal@,
        DurationError::DurationValidationMinMustBeSpecified => "could not find min duration"@,
        DurationError::DurationValidationMaxMustBeSpecified => "could not find max duration"@,
        DurationError::DurationValidationMinMustBeMoreThanOneSecond =>
            "min duration must be 1s or longer"@,
        DurationError::DurationValidationDefaultMustBeMoreThanOneSecond =>
            "default duration must be 1s or longer"@,
    }
}

impl DurationError {
    /// The text that describes this error.
    pub fn message(&self) -> (r: String)
        ensures
            r@ == error_text(*self),
    {
        match self {
            DurationError::DurationMustLieBetween { range } => {
                let mut r = String::from_str("Duration ");
                r.append(range.as_str());
                r
            },
            DurationError::InvalidSyntax => syntax_message(),
            DurationError::InvalidValue => String::from_str("Invalid duration value"),
            DurationError::UnsupportedSymbol { sym } => {
                let mut r = String::from_str("'");
                r.append(sym.as_str());
                r.append("' is not supported as a duration symbol");
                r
            },
            DurationError::IntegerOverflowAt { duration } => {
                let mut r = String::from_str("Duration overflows at '");
                r.append(duration.as_str());
                r.append("'");
                r
            },
            DurationError::DurationValidationMinMustBeLessOrEqualMax { minimal, maximal } => {
                let mut r = String::from_str("Invalid range: should be ");
                r.append(minimal.as_str());
                r.append(" <= ");
                r.append(maximal.as_str());
                r
            },
            DurationError::DurationValidationMustBeOrdered { minimal, default, maximal } => {
                let mut r = String::from_str("Invalid range: should be ");
                r.append(minimal.as_str());
                r.append(" <= ");
                r.append(default.as_str());
                r.append(" <= ");
                r.append(maximal.as_str());
                r
            },
            DurationError::DurationValidationMinMustBeSpecified => String::from_str(
                "could not find min duration",
            ),
            DurationError::DurationValidationMaxMustBeSpecified => String::from_str(
                "could not find max duration",
            ),
            DurationError::DurationValidationMinMustBeMoreThanOneSecond => String::from_str(
                "min duration must be 1s or longer",
            ),
            DurationError::DurationValidationDefaultMustBeMoreThanOneSecond => String::from_str(
                "default duration must be 1s or longer",
            ),
        }
    }
}

} // verus!

verus! {

/// Why a single-token duration or a range check was refused.
#[derive(Debug, PartialEq, Eq)]
pub enum InvalidDuration {
    /// The text is not one `<digits><unit>` token.
    InvalidSyntax,
    /// The digits do not fit an unsigned 64-bit integer, or the value does not
    /// fit the duration.
    InvalidValue,
    /// A unit keyword that the grammar does not know; never returned by the
    /// parsers of this crate, whose grammar reads units with one definition.
    UnsupportedDurationSymbol { sym: String },
    /// A duration lies outside `[min, max]`; both are written compact.
    DurationMustLieBetween { min: String, max: String },
}

/// The text that describes an error of a single-token duration.
pub open spec fn invalid_duration_text(e: InvalidDuration) -> Seq<char> {
    match e {
        InvalidDuration::InvalidSyntax => syntax_text(),
        InvalidDuration::InvalidValue => "Invalid duration value"@,
        InvalidDuration::UnsupportedDurationSymbol { sym } => "'"@ + sym@
            + "' is not supported as a duration symbol"@,
        InvalidDuration::DurationMustLieBetween { min, max } => "Duration must lie between "@
            + min@ + " and "@ + max@,
    }
}

impl InvalidDuration {
    /// The text that describes this error.
    pub fn message(&self) -> (r: String)
        ensures
            r@ == invalid_duration_text(*self),
    {
        match self {
            InvalidDuration::InvalidSyntax => syntax_message(),
            InvalidDuration::InvalidValue => String::from_str("Invalid duration value"),
            InvalidDuration::UnsupportedDurationSymbol { sym } => {
                let mut r = String::from_str("'");
                r.append(sym.as_str());
                r.append("' is not supported as a duration symbol");
                r
            },
            InvalidDuration::DurationMustLieBetween { min, max } => {
                let mut r = String::from_str("Duration must lie between ");
                r.append(min.as_str());
                r.append(" and ");
                r.append(max.as_str());
                r
            },
        }
    }
}

} // verus!
