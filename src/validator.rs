use vstd::prelude::*;
use vstd::string::StringExecFns;
use crate::duration::{DurationHuman, parses_as};
use crate::errors::DurationError;
use crate::grammar::{lex, total};
use crate::render::compact;
use crate::units::SEC;

verus! {

/// `s` holds at least one occurrence and their sum fits 64 bits.
pub open spec fn parses_ok(s: Seq<char>) -> bool {
    lex(s).len() > 0 && total(lex(s)) <= u64::MAX
}

/// The value of a text for which `parses_ok` holds.
pub open spec fn parsed_value(s: Seq<char>) -> nat {
    total(lex(s))
}

/// The range as written in messages: `<min> and <max>`, both compact.
pub open spec fn range_text(min: nat, max: nat) -> Seq<char> {
    compact(min) + " and "@ + compact(max)
}

/// Bounds that a validator may hold: ordered, with minimum and default of one
/// second or more.
pub open spec fn valid_bounds(min: nat, default: nat, max: nat) -> bool {
    min <= default <= max && min >= SEC && default >= SEC
}

/// The outcome of building a validator from `min`, `default` and `max`
/// nanoseconds: first the order min <= default <= max is checked, then that
/// minimum and default are a second or more.
pub open spec fn builds_as(
    min: nat,
    default: nat,
    max: nat,
    r: Result<DurationHumanValidator, DurationError>,
) -> bool {
    match r {
        Ok(v) => valid_bounds(min, default, max) && v.min@ == min && v.default@ == default
            && v.max@ == max,
        Err(DurationError::DurationValidationMustBeOrdered { minimal, default: dflt, maximal }) => !(
        min <= default <= max) && minimal@ == compact(min) && dflt@ == compact(default)
            && maximal@ == compact(max),
        Err(DurationError::DurationValidationMinMustBeMoreThanOneSecond) => min <= default <= max
            && min < SEC,
        Err(DurationError::DurationValidationDefaultMustBeMoreThanOneSecond) => min <= default
            <= max && min >= SEC && default < SEC,
        Err(_) => false,
    }
}

/// The outcome of building a validator from a minimum and a maximum, with the
/// default taken as the minimum.
pub open spec fn builds_bounds_as(
    min: nat,
    max: nat,
    r: Result<DurationHumanValidator, DurationError>,
) -> bool {
    match r {
        Err(DurationError::DurationValidationMinMustBeLessOrEqualMax { minimal, maximal }) => min
            > max && minimal@ == compact(min) && maximal@ == compact(max),
        _ => min <= max && builds_as(min, min, max, r),
    }
}

/// Which bound a declared duration sets.
#[derive(Clone, Copy, Debug, PartialEq, Eq, Structural)]
pub enum DurationRangeArgument {
    Min,
    Default,
    Max,
}

/// One `name: duration` entry of a range declaration.
#[derive(Clone, Copy, Debug)]
pub struct ParsedDuration<D> {
    pub arg: DurationRangeArgument,
    pub duration: D,
}

/// The duration that the last entry of kind `arg` declares, if any.
pub open spec fn last_declared<D>(args: Seq<ParsedDuration<D>>, arg: DurationRangeArgument) -> Option<
    D,
>
    decreases args.len(),
{
    if args.len() == 0 {
        None
    } else if args.last().arg == arg {
        Some(args.last().duration)
    } else {
        last_declared(args.drop_last(), arg)
    }
}

/// The duration that the last entry of kind `arg` declares, if any.
pub fn find_last<D: Copy>(args: &Vec<ParsedDuration<D>>, arg: DurationRangeArgument) -> (r: Option<D>)
    ensures
        r == last_declared(args@, arg),
{
    let mut found: Option<D> = None;
    let mut i: usize = 0;
    while i < args.len()
        invariant
            i <= args@.len(),
            found == last_declared(args@.take(i as int), arg),
        decreases args@.len() - i,
    {
        let p = args[i];
        if p.arg == arg {
            found = Some(p.duration);
        }
        assert(args@.take(i + 1).drop_last() =~= args@.take(i as int));
        i = i + 1;
    }
    assert(args@.take(i as int) =~= args@);
    found
}

/// Bounds for durations: a minimum, a default and a maximum.
pub struct DurationHumanValidator {
    pub min: DurationHuman,
    pub default: DurationHuman,
    pub max: DurationHuman,
}

impl DurationHumanValidator {
    /// The validator's bounds are valid.
    pub open spec fn wf(&self) -> bool {
        valid_bounds(self.min@, self.default@, self.max@)
    }

    /// A validator from bounds known to be valid, such as literals.
    pub fn new(minimal_nanos: u64, default_nanos: u64, maximal_nanos: u64) -> (r: Self)
        requires
            valid_bounds(minimal_nanos as nat, default_nanos as nat, maximal_nanos as nat),
        ensures
            r.wf(),
            r.min@ == minimal_nanos,
            r.default@ == default_nanos,
            r.max@ == maximal_nanos,
    {
        DurationHumanValidator {
            min: DurationHuman::new(minimal_nanos),
            default: DurationHuman::new(default_nanos),
            max: DurationHuman::new(maximal_nanos),
        }
    }

    /// A validator from bounds in nanoseconds, checked: they must be ordered,
    /// and minimum and default must be a second or more.
    pub fn try_new(minimal_nanos: u64, default_nanos: u64, maximal_nanos: u64) -> (r: Result<
        Self,
        DurationError,
    >)
        ensures
            builds_as(minimal_nanos as nat, default_nanos as nat, maximal_nanos as nat, r),
    {
        if minimal_nanos > default_nanos || default_nanos > maximal_nanos {
            Err(
                DurationError::DurationValidationMustBeOrdered {
                    minimal: DurationHuman::new(minimal_nanos).format_compact(),
                    default: DurationHuman::new(default_nanos).format_compact(),
                    maximal: DurationHuman::new(maximal_nanos).format_compact(),
                },
            )
        } else if minimal_nanos < SEC {
            Err(DurationError::DurationValidationMinMustBeMoreThanOneSecond)
        } else if default_nanos < SEC {
            Err(DurationError::DurationValidationDefaultMustBeMoreThanOneSecond)
        } else {
            Ok(Self::new(minimal_nanos, default_nanos, maximal_nanos))
        }
    }

    /// A validator from three durations, checked as `try_new` does.
    pub fn try_from_durations(
        minimal: DurationHuman,
        default: DurationHuman,
        maximal: DurationHuman,
    ) -> (r: Result<Self, DurationError>)
        ensures
            builds_as(minimal@, default@, maximal@, r),
    {
        Self::try_new(minimal.as_nanos(), default.as_nanos(), maximal.as_nanos())
    }

    /// A validator from a minimum and a maximum, with the minimum as default.
    /// A minimum above the maximum is refused before anything else.
    pub fn try_from_bounds(minimal: DurationHuman, maximal: DurationHuman) -> (r: Result<
        Self,
        DurationError,
    >)
        ensures
            builds_bounds_as(minimal@, maximal@, r),
    {
        if minimal.as_nanos() > maximal.as_nanos() {
            Err(
                DurationError::DurationValidationMinMustBeLessOrEqualMax {
                    minimal: minimal.format_compact(),
                    maximal: maximal.format_compact(),
                },
            )
        } else {
            Self::try_new(minimal.as_nanos(), minimal.as_nanos(), maximal.as_nanos())
        }
    }

    /// A validator from a minimum and a maximum in nanoseconds; see
    /// `try_from_bounds`.
    pub fn try_from_nanos_bounds(minimal_nanos: u64, maximal_nanos: u64) -> (r: Result<
        Self,
        DurationError,
    >)
        ensures
            builds_bounds_as(minimal_nanos as nat, maximal_nanos as nat, r),
    {
        Self::try_from_bounds(DurationHuman::new(minimal_nanos), DurationHuman::new(maximal_nanos))
    }

    /// A validator from three duration texts. Each is parsed in turn and the
    /// first failure is returned; the values are then checked as `try_new`
    /// does.
    pub fn try_from_texts(minimal: &str, default: &str, maximal: &str) -> (r: Result<
        Self,
        DurationError,
    >)
        ensures
            !parses_ok(minimal@) ==> (r matches Err(e) && parses_as(minimal@, Err(e))),
            parses_ok(minimal@) && !parses_ok(default@) ==> (r matches Err(e) && parses_as(
                default@,
                Err(e),
            )),
            parses_ok(minimal@) && parses_ok(default@) && !parses_ok(maximal@) ==> (r matches Err(e)
                && parses_as(maximal@, Err(e))),
            parses_ok(minimal@) && parses_ok(default@) && parses_ok(maximal@) ==> builds_as(
                parsed_value(minimal@),
                parsed_value(default@),
                parsed_value(maximal@),
                r,
            ),
    {
        let min = match DurationHuman::parse(minimal) {
            Ok(d) => d,
            Err(e) => {
                return Err(e);
            },
        };
        let dflt = match DurationHuman::parse(default) {
            Ok(d) => d,
            Err(e) => {
                return Err(e);
            },
        };
        let max = match DurationHuman::parse(maximal) {
            Ok(d) => d,
            Err(e) => {
                return Err(e);
            },
        };
        Self::try_from_durations(min, dflt, max)
    }

    /// A validator from a minimum and a maximum text, with the minimum as
    /// default. Each is parsed in turn and the first failure is returned.
    pub fn try_from_text_bounds(minimal: &str, maximal: &str) -> (r: Result<Self, DurationError>)
        ensures
            !parses_ok(minimal@) ==> (r matches Err(e) && parses_as(minimal@, Err(e))),
            parses_ok(minimal@) && !parses_ok(maximal@) ==> (r matches Err(e) && parses_as(
                maximal@,
                Err(e),
            )),
            parses_ok(minimal@) && parses_ok(maximal@) ==> builds_bounds_as(
                parsed_value(minimal@),
                parsed_value(maximal@),
                r,
            ),
    {
        let min = match DurationHuman::parse(minimal) {
            Ok(d) => d,
            Err(e) => {
                return Err(e);
            },
        };
        let max = match DurationHuman::parse(maximal) {
            Ok(d) => d,
            Err(e) => {
                return Err(e);
            },
        };
        Self::try_from_bounds(min, max)
    }

    /// A validator from a range declaration: the last entry of each kind
    /// counts; minimum and maximum must be declared, and where no default is,
    /// the minimum is the default.
    pub fn try_from_arguments(args: &Vec<ParsedDuration<DurationHuman>>) -> (r: Result<Self, DurationError>)
        ensures
            match (
                last_declared(args@, DurationRangeArgument::Min),
                last_declared(args@, DurationRangeArgument::Max),
                last_declared(args@, DurationRangeArgument::Default),
            ) {
                (None, _, _) => r matches Err(DurationError::DurationValidationMinMustBeSpecified),
                (Some(_), None, _) => r matches Err(
                    DurationError::DurationValidationMaxMustBeSpecified,
                ),
                (Some(a), Some(b), None) => builds_bounds_as(a@, b@, r),
                (Some(a), Some(b), Some(d)) => builds_as(a@, d@, b@, r),
            },
    {
        let min = find_last(args, DurationRangeArgument::Min);
        let max = find_last(args, DurationRangeArgument::Max);
        let default = find_last(args, DurationRangeArgument::Default);
        match (min, max) {
            (None, _) => Err(DurationError::DurationValidationMinMustBeSpecified),
            (Some(_), None) => Err(DurationError::DurationValidationMaxMustBeSpecified),
            (Some(a), Some(b)) => match default {
                None => Self::try_from_bounds(a, b),
                Some(d) => Self::try_from_durations(a, d, b),
            },
        }
    }

    /// `duration` lies between minimum and maximum, both included.
    pub fn contains(&self, duration: &DurationHuman) -> (r: bool)
        ensures
            r == (self.min@ <= duration@ <= self.max@),
    {
        self.min.as_nanos() <= duration.as_nanos() && duration.as_nanos() <= self.max.as_nanos()
    }

    /// The range as written in messages: `<min> and <max>`.
    pub fn range_text(&self) -> (r: String)
        ensures
            r@ == range_text(self.min@, self.max@),
    {
        let mut r = self.min.format_compact();
        r.append(" and ");
        r.append(self.max.format_compact().as_str());
        r
    }

    /// The validator as shown in help texts: `must be between <min> and <max>`.
    pub fn describe(&self) -> (r: String)
        ensures
            r@ == "must be between "@ + range_text(self.min@, self.max@),
    {
        let mut r = String::from_str("must be between ");
        r.append(self.range_text().as_str());
        r
    }

    /// Parses `duration` and checks that it lies in the range.
    pub fn parse_and_validate(&self, duration: &str) -> (r: Result<DurationHuman, DurationError>)
        ensures
            match r {
                Ok(d) => parses_as(duration@, Ok(d)) && self.min@ <= d@ <= self.max@,
                Err(DurationError::DurationMustLieBetween { range }) => parses_ok(duration@) && !(
                self.min@ <= parsed_value(duration@) <= self.max@) && range@ == "must be between "@
                    + range_text(self.min@, self.max@),
                Err(e) => parses_as(duration@, Err(e)),
            },
    {
        let d = DurationHuman::parse(duration)?;
        if self.contains(&d) {
            Ok(d)
        } else {
            Err(DurationError::DurationMustLieBetween { range: self.describe() })
        }
    }

    /// The bounds in nanoseconds: minimum, default, maximum.
    pub fn bounds(&self) -> (r: (u64, u64, u64))
        ensures
            r.0 == self.min@ && r.1 == self.default@ && r.2 == self.max@,
    {
        (self.min.as_nanos(), self.default.as_nanos(), self.max.as_nanos())
    }
}

impl DurationHuman {
    /// This duration lies in the validator's range.
    pub fn is_in(&self, range: &DurationHumanValidator) -> (r: bool)
        ensures
            r == (range.min@ <= self@ <= range.max@),
    {
        range.contains(self)
    }
}

} // verus!
