//! Human-readable durations: parsing of free-form duration text into a
//! nanosecond count, rendering back into compact and expanded text, and range
//! validators for command-line and configuration values.
//!
//! A text is scanned left to right for occurrences of
//! `<digits><white space><unit>`: ASCII digits, any Unicode white space, and
//! one of `century`/`centuries`, `year(s)`, `month(s)`, `week(s)`, `day(s)`,
//! `h`, `min`, `s`, `ms`, `μs`, `ns`. Everything else in the text is ignored,
//! so prose around the durations and misspelt units such as `3dya` are
//! skipped; a text without any occurrence is refused. A month counts 30 days
//! and a year 365 days.
//!
//! The compact text writes a duration once, in the largest unit that divides
//! it exactly (`"666s"`, `"3 days"`, `"1 year"`), and zero as `"0ns"`. The
//! expanded text writes every non-zero share of a greedy breakdown from
//! centuries down to nanoseconds (`"11min 6s"`); zero gives the empty text.
//! Parsing either text gives the duration back (for the expanded text, any
//! duration but zero): see [`laws`].
//!
//! Besides the nanosecond [`DurationHuman`], [`in_ms`] reads single tokens
//! with millisecond precision and [`seconds`] reads tight tokens of clock
//! units for ranges given in whole seconds.

pub mod units;
pub mod text;
pub mod grammar;
pub mod errors;
pub mod render;
pub mod duration;
pub mod laws;
pub mod validator;
pub mod in_ms;
pub mod seconds;
pub mod token;

pub use duration::DurationHuman;
pub use errors::DurationError;
pub use units::Unit;
pub use validator::DurationHumanValidator;
