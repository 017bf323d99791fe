//! Durations read from a text that is exactly one `<digits><unit>` token with
//! no space between, with clock units only (`h`, `min`, `s`, `ms`, `μs`,
//! `ns`), and written in whole seconds, minutes or hours.
use vstd::prelude::*;
use vstd::string::StringExecFns;
use crate::errors::InvalidDuration;
use crate::in_ms::{exact_keyword, exact_keyword_at};
use crate::text::{
    chars_of, decimal, decimal_value, decimal_in, digit_run, digit_run_end, lemma_runs_bounded,
    push_decimal,
};
use crate::units::Unit;

verus! {

/// Nanoseconds in a second.
pub const NANOS_PER_SEC: u128 = 1_000_000_000;

/// The clock-unit keyword that `t` is, exactly.
pub open spec fn clock_keyword(t: Seq<char>) -> Option<Unit> {
    match exact_keyword(t) {
        Some(u) => if u.spaced() {
            None
        } else {
            Some(u)
        },
        None => None,
    }
}

/// `t` is digits followed directly by a clock keyword. Gives the number of
/// digits and the unit.
pub open spec fn tight_token(t: Seq<char>) -> Option<(nat, Unit)> {
    let d = digit_run(t);
    if d == 0 {
        None
    } else {
        match clock_keyword(t.skip(d as int)) {
            Some(u) => Some((d, u)),
            None => None,
        }
    }
}

/// Seconds in a unit that counts whole seconds, or zero for finer units.
pub open spec fn whole_seconds(u: Unit) -> nat {
    match u {
        Unit::Hour => 3_600,
        Unit::Minute => 60,
        Unit::Second => 1,
        _ => 0,
    }
}

/// Nanoseconds that `v` of the clock unit `u` stands for.
pub open spec fn clock_nanos(v: nat, u: Unit) -> nat {
    match u {
        Unit::Millisecond => v * 1_000_000,
        Unit::Microsecond => v * 1_000,
        Unit::Nanosecond => v,
        _ => v * whole_seconds(u) * 1_000_000_000,
    }
}

/// `r` is what parsing the tight token `s` yields: a count of hours, minutes
/// or seconds must fit 2^64 - 1 seconds.
pub open spec fn parses_secs_as(s: Seq<char>, r: Result<Duration, InvalidDuration>) -> bool {
    match tight_token(s) {
        None => r matches Err(InvalidDuration::InvalidSyntax),
        Some((d, u)) => {
            let v = decimal_value(s.take(d as int));
            if v > u64::MAX || v * whole_seconds(u) > u64::MAX {
                r matches Err(InvalidDuration::InvalidValue)
            } else {
                r matches Ok(x) && x@ == clock_nanos(v, u)
            }
        },
    }
}

/// `sec` seconds as written: in seconds unless a whole number of minutes; in
/// minutes unless a whole number of hours from 90 seconds on.
pub open spec fn seconds_text(sec: nat) -> Seq<char> {
    if sec < 60 || sec % 60 != 0 {
        decimal(sec) + seq!['s']
    } else if sec < 90 || sec % 3_600 != 0 {
        decimal(sec / 60) + seq!['m', 'i', 'n']
    } else {
        decimal(sec / 3_600) + seq!['h']
    }
}

/// `sec` seconds as written: `"45s"`, `"15min"`, `"2h"`.
pub fn format_duration(sec: u64) -> (r: String)
    ensures
        r@ == seconds_text(sec as nat),
{
    let mut out = String::new();
    if sec < 60 || sec % 60 != 0 {
        push_decimal(&mut out, sec);
        proof { reveal_strlit("s"); }
        out.append("s");
    } else if sec < 90 || sec % 3_600 != 0 {
        push_decimal(&mut out, sec / 60);
        proof { reveal_strlit("min"); }
        out.append("min");
    } else {
        push_decimal(&mut out, sec / 3_600);
        proof { reveal_strlit("h"); }
        out.append("h");
    }
    assert(out@ =~= seconds_text(sec as nat));
    out
}

/// A duration with nanosecond precision and at most 2^64 - 1 whole seconds.
#[derive(Clone, Copy, Debug, PartialEq, Eq, PartialOrd, Ord, Hash, Structural)]
pub struct Duration {
    nanos: u128,
}

impl View for Duration {
    type V = nat;

    /// The number of nanoseconds.
    closed spec fn view(&self) -> nat {
        self.nanos as nat
    }
}

impl Duration {
    /// The whole seconds fit 64 bits.
    #[verifier::type_invariant]
    spec fn fits(&self) -> bool {
        self.nanos < (u64::MAX as nat + 1) * NANOS_PER_SEC
    }

    /// The duration of `secs` seconds.
    pub fn new(secs: u64) -> (r: Self)
        ensures
            r@ == secs * NANOS_PER_SEC,
    {
        Duration { nanos: secs as u128 * NANOS_PER_SEC }
    }

    /// The number of whole seconds.
    pub fn as_secs(&self) -> (r: u64)
        ensures
            r == self@ / NANOS_PER_SEC as nat,
    {
        proof {
            use_type_invariant(self);
        }
        (self.nanos / NANOS_PER_SEC) as u64
    }

    /// `self` is no longer than `other`.
    pub fn at_most(&self, other: &Duration) -> (r: bool)
        ensures
            r == (self@ <= other@),
    {
        self.nanos <= other.nanos
    }

    /// Parses a text that is exactly digits followed by a clock unit, such as
    /// `"90s"` or `"250ms"`.
    pub fn parse(text: &str) -> (r: Result<Self, InvalidDuration>)
        ensures
            parses_secs_as(text@, r),
    {
        let s = chars_of(text);
        proof {
            assert(s@.skip(0) =~= s@);
            lemma_runs_bounded(s@);
        }
        let d = digit_run_end(&s, 0);
        if d == 0 {
            return Err(InvalidDuration::InvalidSyntax);
        }
        let u = match exact_keyword_at(&s, d) {
            Some(Unit::Hour) => Unit::Hour,
            Some(Unit::Minute) => Unit::Minute,
            Some(Unit::Second) => Unit::Second,
            Some(Unit::Millisecond) => Unit::Millisecond,
            Some(Unit::Microsecond) => Unit::Microsecond,
            Some(Unit::Nanosecond) => Unit::Nanosecond,
            _ => {
                return Err(InvalidDuration::InvalidSyntax);
            },
        };
        assert(s@.take(d as int) =~= s@.subrange(0, d as int));
        let v = match decimal_in(&s, 0, d) {
            Some(v) => v,
            None => {
                return Err(InvalidDuration::InvalidValue);
            },
        };
        let secs: u64 = match u {
            Unit::Hour => match v.checked_mul(3_600) {
                Some(x) => x,
                None => {
                    return Err(InvalidDuration::InvalidValue);
                },
            },
            Unit::Minute => match v.checked_mul(60) {
                Some(x) => x,
                None => {
                    return Err(InvalidDuration::InvalidValue);
                },
            },
            Unit::Second => v,
            _ => 0,
        };
        let nanos: u128 = match u {
            Unit::Millisecond => v as u128 * 1_000_000,
            Unit::Microsecond => v as u128 * 1_000,
            Unit::Nanosecond => v as u128,
            _ => secs as u128 * NANOS_PER_SEC,
        };
        assert(nanos == clock_nanos(v as nat, u)) by (nonlinear_arith)
            requires
                u == Unit::Hour ==> secs == v * 3_600,
                u == Unit::Minute ==> secs == v * 60,
                u == Unit::Second ==> secs == v,
                u == Unit::Hour || u == Unit::Minute || u == Unit::Second ==> nanos == secs
                    * 1_000_000_000,
                u == Unit::Millisecond ==> nanos == v * 1_000_000,
                u == Unit::Microsecond ==> nanos == v * 1_000,
                u == Unit::Nanosecond ==> nanos == v,
                u == Unit::Hour || u == Unit::Minute || u == Unit::Second || u
                    == Unit::Millisecond || u == Unit::Microsecond || u == Unit::Nanosecond,
        ;
        Ok(Duration { nanos })
    }

    /// The duration in whole seconds, written as `format_duration` does.
    pub fn to_string(&self) -> (r: String)
        ensures
            r@ == seconds_text(self@ / NANOS_PER_SEC as nat),
    {
        format_duration(self.as_secs())
    }
}

impl Default for Duration {
    /// One minute.
    fn default() -> (r: Self)
        ensures
            r@ == 60 * NANOS_PER_SEC,
    {
        Duration { nanos: 60 * NANOS_PER_SEC }
    }
}

/// Parses a tight token; see `Duration::parse`.
pub fn parse_duration(text: &str) -> (r: Result<Duration, InvalidDuration>)
    ensures
        parses_secs_as(text@, r),
{
    Duration::parse(text)
}

/// Parses a tight token and checks that it lies between `min` and `max`
/// seconds, both included.
pub fn parse_duration_with_min_and_max(option: &str, min: u64, max: u64) -> (r: Result<
    Duration,
    InvalidDuration,
>)
    ensures
        match r {
            Ok(d) => parses_secs_as(option@, Ok(d)) && min * NANOS_PER_SEC <= d@ <= max
                * NANOS_PER_SEC,
            Err(InvalidDuration::DurationMustLieBetween { min: a, max: b }) => exists|d: Duration|
                parses_secs_as(option@, Ok(d)) && !(min * NANOS_PER_SEC <= d@ <= max
                    * NANOS_PER_SEC) && a@ == seconds_text(min as nat) && b@ == seconds_text(
                    max as nat,
                ),
            Err(e) => parses_secs_as(option@, Err(e)),
        },
{
    let duration = parse_duration(option)?;
    let range = DurationRange::new(min, max);
    match range.contains(duration) {
        Ok(d) => Ok(d),
        Err(_) => Err(
            InvalidDuration::DurationMustLieBetween {
                min: format_duration(min),
                max: format_duration(max),
            },
        ),
    }
}

/// A range of durations between two whole numbers of seconds.
pub struct DurationRange {
    min: Duration,
    max: Duration,
}

impl DurationRange {
    /// The range from `min` to `max` seconds.
    pub fn new(min: u64, max: u64) -> (r: Self)
        ensures
            r.min_view() == min * NANOS_PER_SEC,
            r.max_view() == max * NANOS_PER_SEC,
    {
        DurationRange { min: Duration::new(min), max: Duration::new(max) }
    }

    /// The minimum, in nanoseconds.
    pub closed spec fn min_view(&self) -> nat {
        self.min@
    }

    /// The maximum, in nanoseconds.
    pub closed spec fn max_view(&self) -> nat {
        self.max@
    }

    /// `duration`, where it lies in the range; else the bounds as written.
    pub fn contains(&self, duration: Duration) -> (r: Result<Duration, InvalidDuration>)
        ensures
            match r {
                Ok(d) => d == duration && self.min_view() <= duration@ <= self.max_view(),
                Err(InvalidDuration::DurationMustLieBetween { min, max }) => !(self.min_view()
                    <= duration@ <= self.max_view()) && min@ == seconds_text(
                    self.min_view() / NANOS_PER_SEC as nat,
                ) && max@ == seconds_text(self.max_view() / NANOS_PER_SEC as nat),
                Err(_) => false,
            },
    {
        if self.min.at_most(&duration) && duration.at_most(&self.max) {
            Ok(duration)
        } else {
            Err(
                InvalidDuration::DurationMustLieBetween {
                    min: self.min.to_string(),
                    max: self.max.to_string(),
                },
            )
        }
    }
}

} // verus!
