//! Durations with millisecond precision, read from a text that is exactly one
//! `<digits><white space><unit>` token. The units are those of the main
//! grammar without centuries and plural forms; microseconds and nanoseconds
//! are truncated to whole milliseconds.
use vstd::prelude::*;
use vstd::string::StringExecFns;
use crate::errors::{DurationError, InvalidDuration};
use crate::text::{
    chars_of, decimal, decimal_value, decimal_in, digit_run, space_run, digit_run_end,
    space_run_end, word_is, lemma_runs_bounded, push_decimal,
};
use crate::units::Unit;
use crate::validator::{DurationRangeArgument, ParsedDuration, last_declared, find_last};

verus! {

/// Milliseconds in one millisecond.
pub const MS_MILLI: u64 = 1;

/// Milliseconds in a second.
pub const MS_SEC: u64 = 1_000;

/// Milliseconds in a minute.
pub const MS_MINUTE: u64 = 60_000;

/// Milliseconds in a day.
pub const MS_DAY: u64 = 86_400_000;

/// Number of rows of the millisecond table: century down to millisecond.
pub const MS_ROWS: usize = 9;

/// Milliseconds in a unit of the millisecond table. Microseconds and
/// nanoseconds are not rows of it.
pub open spec fn ms_factor(u: Unit) -> nat {
    match u {
        Unit::Century => 3_153_600_000_000,
        Unit::Year => 31_536_000_000,
        Unit::Month => 2_592_000_000,
        Unit::Week => 604_800_000,
        Unit::Day => 86_400_000,
        Unit::Hour => 3_600_000,
        Unit::Minute => 60_000,
        Unit::Second => 1_000,
        _ => 1,
    }
}

/// Milliseconds in a unit of the millisecond table.
pub fn ms_factor_of(u: Unit) -> (r: u64)
    ensures
        r == ms_factor(u),
        r >= 1,
{
    match u {
        Unit::Century => 3_153_600_000_000,
        Unit::Year => 31_536_000_000,
        Unit::Month => 2_592_000_000,
        Unit::Week => 604_800_000,
        Unit::Day => 86_400_000,
        Unit::Hour => 3_600_000,
        Unit::Minute => 60_000,
        Unit::Second => 1_000,
        _ => 1,
    }
}

/// The keyword that `t` is, exactly.
pub open spec fn exact_keyword(t: Seq<char>) -> Option<Unit> {
    if t == seq!['y', 'e', 'a', 'r'] {
        Some(Unit::Year)
    } else if t == seq!['m', 'o', 'n', 't', 'h'] {
        Some(Unit::Month)
    } else if t == seq!['w', 'e', 'e', 'k'] {
        Some(Unit::Week)
    } else if t == seq!['d', 'a', 'y'] {
        Some(Unit::Day)
    } else if t == seq!['h'] {
        Some(Unit::Hour)
    } else if t == seq!['m', 'i', 'n'] {
        Some(Unit::Minute)
    } else if t == seq!['s'] {
        Some(Unit::Second)
    } else if t == seq!['m', 's'] {
        Some(Unit::Millisecond)
    } else if t == seq!['\u{3bc}', 's'] {
        Some(Unit::Microsecond)
    } else if t == seq!['n', 's'] {
        Some(Unit::Nanosecond)
    } else {
        None
    }
}

/// `t` is one token: digits, white space, a keyword and nothing else. Gives
/// the number of digits and the unit.
pub open spec fn single_token(t: Seq<char>) -> Option<(nat, Unit)> {
    let d = digit_run(t);
    let w = space_run(t.skip(d as int));
    if d == 0 {
        None
    } else {
        match exact_keyword(t.skip((d + w) as int)) {
            Some(u) => Some((d, u)),
            None => None,
        }
    }
}

/// Milliseconds that `v` of unit `u` stands for; finer units are truncated.
pub open spec fn millis_of(v: nat, u: Unit) -> nat {
    match u {
        Unit::Microsecond => v / 1_000,
        Unit::Nanosecond => v / 1_000_000,
        _ => v * ms_factor(u),
    }
}

/// `r` is what parsing the single token `s` yields.
pub open spec fn parses_ms_as(s: Seq<char>, r: Result<DurationInms, DurationError>) -> bool {
    match single_token(s) {
        None => r matches Err(DurationError::InvalidSyntax),
        Some((d, u)) => {
            let v = decimal_value(s.take(d as int));
            if v > u64::MAX {
                r matches Err(DurationError::InvalidValue)
            } else if millis_of(v, u) > u64::MAX {
                r matches Err(DurationError::IntegerOverflowAt { duration }) && duration@ == s
            } else {
                r matches Ok(x) && x@ == millis_of(v, u)
            }
        },
    }
}

/// The first row from `k` on whose unit divides `n` milliseconds at least
/// once, or the millisecond row where none does.
pub open spec fn ms_compact_row(n: nat, k: nat) -> nat
    decreases MS_ROWS - k,
{
    if k + 1 >= MS_ROWS {
        (MS_ROWS - 1) as nat
    } else if n >= ms_factor(Unit::row(k as int)) && n % ms_factor(Unit::row(k as int)) == 0 {
        k
    } else {
        ms_compact_row(n, k + 1)
    }
}

/// `q` of unit `u`, written with the singular keyword.
pub open spec fn ms_piece(q: nat, u: Unit) -> Seq<char> {
    decimal(q) + u.suffix(false)
}

/// The compact text of `n` milliseconds: `n` in the largest unit that
/// divides it exactly; zero is `"0ms"`.
pub open spec fn ms_compact(n: nat) -> Seq<char> {
    let u = Unit::row(ms_compact_row(n, 0) as int);
    ms_piece(n / ms_factor(u), u)
}

/// What is left of `n` milliseconds after the first `k` rows took their share.
pub open spec fn ms_remainder_after(n: nat, k: nat) -> nat
    decreases k,
{
    if k == 0 {
        n
    } else {
        ms_remainder_after(n, (k - 1) as nat) % ms_factor(Unit::row(k - 1))
    }
}

/// The non-zero shares of the first `k` rows of the millisecond table.
pub open spec fn ms_parts(n: nat, k: nat) -> Seq<(nat, Unit)>
    decreases k,
{
    if k == 0 {
        seq![]
    } else {
        let q = ms_remainder_after(n, (k - 1) as nat) / ms_factor(Unit::row(k - 1));
        if q > 0 {
            ms_parts(n, (k - 1) as nat).push((q, Unit::row(k - 1)))
        } else {
            ms_parts(n, (k - 1) as nat)
        }
    }
}

/// The pieces of `ps`, singular keywords, separated by single spaces.
pub open spec fn ms_joined(ps: Seq<(nat, Unit)>) -> Seq<char>
    decreases ps.len(),
{
    if ps.len() == 0 {
        seq![]
    } else if ps.len() == 1 {
        ms_piece(ps[0].0, ps[0].1)
    } else {
        ms_piece(ps[0].0, ps[0].1) + seq![' '] + ms_joined(ps.skip(1))
    }
}

/// The expanded text of `n` milliseconds.
pub open spec fn ms_expanded(n: nat) -> Seq<char> {
    ms_joined(ms_parts(n, MS_ROWS as nat))
}

pub proof fn lemma_ms_joined_push(ps: Seq<(nat, Unit)>, p: (nat, Unit))
    ensures
        ms_joined(ps.push(p)) == if ps.len() == 0 {
            ms_piece(p.0, p.1)
        } else {
            ms_joined(ps) + seq![' '] + ms_piece(p.0, p.1)
        },
    decreases ps.len(),
{
    let q = ps.push(p);
    assert(q[q.len() - 1] == p);
    if ps.len() == 0 {
        assert(q.len() == 1);
    } else if ps.len() == 1 {
        assert(q.skip(1) =~= seq![p]);
        assert(ms_joined(seq![p]) == ms_piece(p.0, p.1));
        assert(q[0] == ps[0]);
    } else {
        assert(q.skip(1) =~= ps.skip(1).push(p));
        lemma_ms_joined_push(ps.skip(1), p);
        assert(q[0] == ps[0]);
        assert(ms_joined(q) =~= ms_joined(ps) + seq![' '] + ms_piece(p.0, p.1));
    }
}

/// The keyword that the characters of `s` from `j` on are, exactly.
pub(crate) fn exact_keyword_at(s: &Vec<char>, j: usize) -> (r: Option<Unit>)
    requires
        j <= s@.len(),
    ensures
        r == exact_keyword(s@.skip(j as int)),
{
    proof {
        assert(['y', 'e', 'a', 'r']@ =~= seq!['y', 'e', 'a', 'r']);
        assert(['m', 'o', 'n', 't', 'h']@ =~= seq!['m', 'o', 'n', 't', 'h']);
        assert(['w', 'e', 'e', 'k']@ =~= seq!['w', 'e', 'e', 'k']);
        assert(['d', 'a', 'y']@ =~= seq!['d', 'a', 'y']);
        assert(['h']@ =~= seq!['h']);
        assert(['m', 'i', 'n']@ =~= seq!['m', 'i', 'n']);
        assert(['s']@ =~= seq!['s']);
        assert(['m', 's']@ =~= seq!['m', 's']);
        assert(['\u{3bc}', 's']@ =~= seq!['\u{3bc}', 's']);
        assert(['n', 's']@ =~= seq!['n', 's']);
    }
    if word_is(s, j, &['y', 'e', 'a', 'r']) {
        Some(Unit::Year)
    } else if word_is(s, j, &['m', 'o', 'n', 't', 'h']) {
        Some(Unit::Month)
    } else if word_is(s, j, &['w', 'e', 'e', 'k']) {
        Some(Unit::Week)
    } else if word_is(s, j, &['d', 'a', 'y']) {
        Some(Unit::Day)
    } else if word_is(s, j, &['h']) {
        Some(Unit::Hour)
    } else if word_is(s, j, &['m', 'i', 'n']) {
        Some(Unit::Minute)
    } else if word_is(s, j, &['s']) {
        Some(Unit::Second)
    } else if word_is(s, j, &['m', 's']) {
        Some(Unit::Millisecond)
    } else if word_is(s, j, &['\u{3bc}', 's']) {
        Some(Unit::Microsecond)
    } else if word_is(s, j, &['n', 's']) {
        Some(Unit::Nanosecond)
    } else {
        None
    }
}

/// A duration with millisecond precision.
#[derive(Clone, Copy, Debug, PartialEq, Eq, PartialOrd, Ord, Hash, Structural)]
pub struct DurationInms {
    millis: u64,
}

impl View for DurationInms {
    type V = nat;

    /// The number of milliseconds.
    closed spec fn view(&self) -> nat {
        self.millis as nat
    }
}

impl DurationInms {
    /// The duration of `ms` milliseconds.
    pub fn new(ms: u64) -> (r: Self)
        ensures
            r@ == ms,
    {
        DurationInms { millis: ms }
    }

    /// The number of milliseconds.
    pub fn as_millis(&self) -> (r: u64)
        ensures
            r == self@,
    {
        self.millis
    }

    /// Parses a text that is exactly one token, such as `"15min"` or
    /// `"2 day"`.
    pub fn parse(text: &str) -> (r: Result<Self, DurationError>)
        ensures
            parses_ms_as(text@, r),
    {
        let s = chars_of(text);
        proof {
            assert(s@.skip(0) =~= s@);
            lemma_runs_bounded(s@);
        }
        let d = digit_run_end(&s, 0);
        if d == 0 {
            return Err(DurationError::InvalidSyntax);
        }
        let w = space_run_end(&s, d);
        let u = match exact_keyword_at(&s, w) {
            Some(u) => u,
            None => {
                return Err(DurationError::InvalidSyntax);
            },
        };
        assert(s@.take(d as int) =~= s@.subrange(0, d as int));
        let v = match decimal_in(&s, 0, d) {
            Some(v) => v,
            None => {
                return Err(DurationError::InvalidValue);
            },
        };
        let ms = match u {
            Unit::Microsecond => v / 1_000,
            Unit::Nanosecond => v / 1_000_000,
            _ => match v.checked_mul(ms_factor_of(u)) {
                Some(m) => m,
                None => {
                    return Err(DurationError::IntegerOverflowAt { duration: String::from_str(text) });
                },
            },
        };
        Ok(DurationInms { millis: ms })
    }

    /// The compact text: the duration in the largest unit that divides it
    /// exactly, such as `"604800ms"`, `"1 week"` or `"1 month"`.
    pub fn format_compact(&self) -> (r: String)
        ensures
            r@ == ms_compact(self@),
    {
        let n = self.millis;
        let mut k: usize = 0;
        while k + 1 < MS_ROWS && !(n >= ms_factor_of(Unit::at(k)) && n % ms_factor_of(Unit::at(k))
            == 0)
            invariant
                k < MS_ROWS,
                ms_compact_row(n as nat, k as nat) == ms_compact_row(n as nat, 0),
            decreases MS_ROWS - k,
        {
            k = k + 1;
        }
        let u = Unit::at(k);
        let q = n / ms_factor_of(u);
        let mut out = String::new();
        push_decimal(&mut out, q);
        out.append(u.suffix_text(false));
        proof {
            assert(out@ =~= ms_compact(self@));
        }
        out
    }

    /// The compact text; see `format_compact`.
    pub fn to_string(&self) -> (r: String)
        ensures
            r@ == ms_compact(self@),
    {
        self.format_compact()
    }

    /// The expanded text: every non-zero share of a greedy breakdown from
    /// centuries down to milliseconds, singular keywords, separated by spaces.
    pub fn format_expanded(&self) -> (r: String)
        ensures
            r@ == ms_expanded(self@),
    {
        let ghost n = self@;
        let mut out = String::new();
        let mut rem = self.millis;
        let mut first = true;
        let mut k: usize = 0;
        while k < MS_ROWS
            invariant
                k <= MS_ROWS,
                rem == ms_remainder_after(n, k as nat),
                out@ == ms_joined(ms_parts(n, k as nat)),
                first <==> ms_parts(n, k as nat).len() == 0,
            decreases MS_ROWS - k,
        {
            let u = Unit::at(k);
            let f = ms_factor_of(u);
            let q = rem / f;
            if q > 0 {
                proof {
                    lemma_ms_joined_push(ms_parts(n, k as nat), (q as nat, u));
                }
                let ghost before = out@;
                if !first {
                    proof {
                        reveal_strlit(" ");
                    }
                    out.append(" ");
                    assert(out@ =~= before + seq![' ']);
                }
                push_decimal(&mut out, q);
                out.append(u.suffix_text(false));
                first = false;
                proof {
                    assert(ms_parts(n, (k + 1) as nat) == ms_parts(n, k as nat).push((q as nat, u)));
                    assert(out@ =~= ms_joined(ms_parts(n, (k + 1) as nat)));
                }
            }
            rem = rem % f;
            k = k + 1;
        }
        out
    }
}

impl Default for DurationInms {
    /// One minute.
    fn default() -> (r: Self)
        ensures
            r@ == MS_MINUTE,
    {
        DurationInms { millis: MS_MINUTE }
    }
}

/// The range as written in messages: `<min> and <max>`, both compact.
pub open spec fn ms_range_text(min: nat, max: nat) -> Seq<char> {
    ms_compact(min) + " and "@ + ms_compact(max)
}

/// Bounds that a millisecond validator may hold: ordered, with minimum and
/// default of one second or more.
pub open spec fn ms_valid_bounds(min: nat, default: nat, max: nat) -> bool {
    min <= default <= max && min >= MS_SEC && default >= MS_SEC
}

/// The outcome of building a millisecond validator from `min`, `default` and
/// `max` milliseconds: first the order is checked, then that minimum and
/// default are a second or more.
pub open spec fn ms_builds_as(
    min: nat,
    default: nat,
    max: nat,
    r: Result<DurationInmsValidator, DurationError>,
) -> bool {
    match r {
        Ok(v) => ms_valid_bounds(min, default, max) && v.min@ == min && v.default@ == default
            && v.max@ == max,
        Err(DurationError::DurationValidationMustBeOrdered { minimal, default: dflt, maximal }) => !(
        min <= default <= max) && minimal@ == ms_compact(min) && dflt@ == ms_compact(default)
            && maximal@ == ms_compact(max),
        Err(DurationError::DurationValidationMinMustBeMoreThanOneSecond) => min <= default <= max
            && min < MS_SEC,
        Err(DurationError::DurationValidationDefaultMustBeMoreThanOneSecond) => min <= default
            <= max && min >= MS_SEC && default < MS_SEC,
        Err(_) => false,
    }
}

/// The outcome of building a millisecond validator from a minimum and a
/// maximum, with the default taken as the minimum.
pub open spec fn ms_builds_bounds_as(
    min: nat,
    max: nat,
    r: Result<DurationInmsValidator, DurationError>,
) -> bool {
    match r {
        Err(DurationError::DurationValidationMinMustBeLessOrEqualMax { minimal, maximal }) => min
            > max && minimal@ == ms_compact(min) && maximal@ == ms_compact(max),
        _ => min <= max && ms_builds_as(min, min, max, r),
    }
}

/// The milliseconds that the single token `s` reads as, where it parses.
pub open spec fn ms_parsed(s: Seq<char>) -> Option<nat> {
    match single_token(s) {
        None => None,
        Some((d, u)) => {
            let v = decimal_value(s.take(d as int));
            if v > u64::MAX || millis_of(v, u) > u64::MAX {
                None
            } else {
                Some(millis_of(v, u))
            }
        },
    }
}

/// Bounds for millisecond durations: a minimum, a default and a maximum.
pub struct DurationInmsValidator {
    pub min: DurationInms,
    pub default: DurationInms,
    pub max: DurationInms,
}

impl DurationInmsValidator {
    /// The validator's bounds are valid.
    pub open spec fn wf(&self) -> bool {
        ms_valid_bounds(self.min@, self.default@, self.max@)
    }

    /// A validator from bounds known to be valid, such as literals.
    pub fn new(minimal_ms: u64, default_ms: u64, maximal_ms: u64) -> (r: Self)
        requires
            ms_valid_bounds(minimal_ms as nat, default_ms as nat, maximal_ms as nat),
        ensures
            r.wf(),
            r.min@ == minimal_ms,
            r.default@ == default_ms,
            r.max@ == maximal_ms,
    {
        DurationInmsValidator {
            min: DurationInms::new(minimal_ms),
            default: DurationInms::new(default_ms),
            max: DurationInms::new(maximal_ms),
        }
    }

    /// A validator from bounds in milliseconds, checked: they must be ordered,
    /// and minimum and default must be a second or more.
    pub fn try_new(minimal_ms: u64, default_ms: u64, maximal_ms: u64) -> (r: Result<
        Self,
        DurationError,
    >)
        ensures
            ms_builds_as(minimal_ms as nat, default_ms as nat, maximal_ms as nat, r),
    {
        if minimal_ms > default_ms || default_ms > maximal_ms {
            Err(
                DurationError::DurationValidationMustBeOrdered {
                    minimal: DurationInms::new(minimal_ms).format_compact(),
                    default: DurationInms::new(default_ms).format_compact(),
                    maximal: DurationInms::new(maximal_ms).format_compact(),
                },
            )
        } else if minimal_ms < MS_SEC {
            Err(DurationError::DurationValidationMinMustBeMoreThanOneSecond)
        } else if default_ms < MS_SEC {
            Err(DurationError::DurationValidationDefaultMustBeMoreThanOneSecond)
        } else {
            Ok(Self::new(minimal_ms, default_ms, maximal_ms))
        }
    }

    /// A validator from a minimum and a maximum, with the minimum as default.
    /// A minimum above the maximum is refused before anything else.
    pub fn try_from_bounds(minimal: DurationInms, maximal: DurationInms) -> (r: Result<
        Self,
        DurationError,
    >)
        ensures
            ms_builds_bounds_as(minimal@, maximal@, r),
    {
        if minimal.as_millis() > maximal.as_millis() {
            Err(
                DurationError::DurationValidationMinMustBeLessOrEqualMax {
                    minimal: minimal.format_compact(),
                    maximal: maximal.format_compact(),
                },
            )
        } else {
            Self::try_new(minimal.as_millis(), minimal.as_millis(), maximal.as_millis())
        }
    }

    /// A validator from a minimum and a maximum in milliseconds; see
    /// `try_from_bounds`.
    pub fn try_from_ms_bounds(minimal_ms: u64, maximal_ms: u64) -> (r: Result<Self, DurationError>)
        ensures
            ms_builds_bounds_as(minimal_ms as nat, maximal_ms as nat, r),
    {
        Self::try_from_bounds(DurationInms::new(minimal_ms), DurationInms::new(maximal_ms))
    }

    /// A validator from three single-token texts. Each is parsed in turn and
    /// the first failure is returned; the values are then checked as
    /// `try_new` does.
    pub fn try_from_texts(minimal: &str, default: &str, maximal: &str) -> (r: Result<
        Self,
        DurationError,
    >)
        ensures
            ms_parsed(minimal@) is None ==> (r matches Err(e) && parses_ms_as(minimal@, Err(e))),
            ms_parsed(minimal@) is Some && ms_parsed(default@) is None ==> (r matches Err(e)
                && parses_ms_as(default@, Err(e))),
            ms_parsed(minimal@) is Some && ms_parsed(default@) is Some && ms_parsed(maximal@) is None
                ==> (r matches Err(e) && parses_ms_as(maximal@, Err(e))),
            ms_parsed(minimal@) is Some && ms_parsed(default@) is Some && ms_parsed(maximal@) is Some
                ==> ms_builds_as(
                ms_parsed(minimal@)->0,
                ms_parsed(default@)->0,
                ms_parsed(maximal@)->0,
                r,
            ),
    {
        let min = match DurationInms::parse(minimal) {
            Ok(d) => d,
            Err(e) => {
                return Err(e);
            },
        };
        let dflt = match DurationInms::parse(default) {
            Ok(d) => d,
            Err(e) => {
                return Err(e);
            },
        };
        let max = match DurationInms::parse(maximal) {
            Ok(d) => d,
            Err(e) => {
                return Err(e);
            },
        };
        Self::try_new(min.as_millis(), dflt.as_millis(), max.as_millis())
    }

    /// A validator from a minimum and a maximum single-token text, with the
    /// minimum as default. Each is parsed in turn and the first failure is
    /// returned.
    pub fn try_from_text_bounds(minimal: &str, maximal: &str) -> (r: Result<Self, DurationError>)
        ensures
            ms_parsed(minimal@) is None ==> (r matches Err(e) && parses_ms_as(minimal@, Err(e))),
            ms_parsed(minimal@) is Some && ms_parsed(maximal@) is None ==> (r matches Err(e)
                && parses_ms_as(maximal@, Err(e))),
            ms_parsed(minimal@) is Some && ms_parsed(maximal@) is Some ==> ms_builds_bounds_as(
                ms_parsed(minimal@)->0,
                ms_parsed(maximal@)->0,
                r,
            ),
    {
        let min = match DurationInms::parse(minimal) {
            Ok(d) => d,
            Err(e) => {
                return Err(e);
            },
        };
        let max = match DurationInms::parse(maximal) {
            Ok(d) => d,
            Err(e) => {
                return Err(e);
            },
        };
        Self::try_from_bounds(min, max)
    }

    /// `duration` lies between minimum and maximum, both included.
    pub fn contains(&self, duration: &DurationInms) -> (r: bool)
        ensures
            r == (self.min@ <= duration@ <= self.max@),
    {
        self.min.as_millis() <= duration.as_millis() && duration.as_millis()
            <= self.max.as_millis()
    }

    /// The range as written in messages: `<min> and <max>`.
    pub fn range_text(&self) -> (r: String)
        ensures
            r@ == ms_range_text(self.min@, self.max@),
    {
        let mut r = self.min.format_compact();
        r.append(" and ");
        r.append(self.max.format_compact().as_str());
        r
    }

    /// The validator as shown in help texts: `must be between <min> and <max>`.
    pub fn describe(&self) -> (r: String)
        ensures
            r@ == "must be between "@ + ms_range_text(self.min@, self.max@),
    {
        let mut r = String::from_str("must be between ");
        r.append(self.range_text().as_str());
        r
    }

    /// Parses the single token `duration` and checks that it lies in the range.
    pub fn parse_and_validate(&self, duration: &str) -> (r: Result<DurationInms, DurationError>)
        ensures
            match r {
                Ok(d) => parses_ms_as(duration@, Ok(d)) && self.min@ <= d@ <= self.max@,
                Err(DurationError::DurationMustLieBetween { range }) => exists|d: DurationInms|
                    parses_ms_as(duration@, Ok(d)) && !(self.min@ <= d@ <= self.max@) && range@
                        == "must be between "@ + ms_range_text(self.min@, self.max@),
                Err(e) => parses_ms_as(duration@, Err(e)),
            },
    {
        let d = DurationInms::parse(duration)?;
        if self.contains(&d) {
            Ok(d)
        } else {
            Err(DurationError::DurationMustLieBetween { range: self.describe() })
        }
    }
}

impl DurationInmsValidator {
    /// A validator from a range declaration: the last entry of each kind
    /// counts; minimum and maximum must be declared, and where no default is,
    /// the minimum is the default.
    pub fn try_from_arguments(args: &Vec<ParsedDuration<DurationInms>>) -> (r: Result<
        Self,
        DurationError,
    >)
        ensures
            match (
                last_declared(args@, DurationRangeArgument::Min),
                last_declared(args@, DurationRangeArgument::Max),
                last_declared(args@, DurationRangeArgument::Default),
            ) {
                (None, _, _) => r matches Err(DurationError::DurationValidationMinMustBeSpecified),
                (Some(_), None, _) => r matches Err(
                    DurationError::DurationValidationMaxMustBeSpecified,
                ),
                (Some(a), Some(b), None) => ms_builds_bounds_as(a@, b@, r),
                (Some(a), Some(b), Some(d)) => ms_builds_as(a@, d@, b@, r),
            },
    {
        let min = find_last(args, DurationRangeArgument::Min);
        let max = find_last(args, DurationRangeArgument::Max);
        let default = find_last(args, DurationRangeArgument::Default);
        match (min, max) {
            (None, _) => Err(DurationError::DurationValidationMinMustBeSpecified),
            (Some(_), None) => Err(DurationError::DurationValidationMaxMustBeSpecified),
            (Some(a), Some(b)) => match default {
                None => Self::try_from_bounds(a, b),
                Some(d) => Self::try_new(a.as_millis(), d.as_millis(), b.as_millis()),
            },
        }
    }
}

/// A minimum, a default and a maximum millisecond duration, unchecked.
pub struct DurationInmsRangeAndDefault {
    pub min: DurationInms,
    pub default: DurationInms,
    pub max: DurationInms,
}

impl DurationInmsRangeAndDefault {
    /// The range from `minimal_ms` to `maximal_ms`, with `default_ms` as
    /// default; nothing is checked.
    pub fn new(minimal_ms: u64, default_ms: u64, maximal_ms: u64) -> (r: Self)
        ensures
            r.min@ == minimal_ms,
            r.default@ == default_ms,
            r.max@ == maximal_ms,
    {
        DurationInmsRangeAndDefault {
            min: DurationInms::new(minimal_ms),
            default: DurationInms::new(default_ms),
            max: DurationInms::new(maximal_ms),
        }
    }

    /// A range from a declaration in which minimum and maximum must stand;
    /// the last entry of each kind counts, and where no default is, the
    /// minimum is the default. Nothing else is checked.
    pub fn try_from_arguments(args: &Vec<ParsedDuration<DurationInms>>) -> (r: Result<
        Self,
        String,
    >)
        ensures
            match (
                last_declared(args@, DurationRangeArgument::Min),
                last_declared(args@, DurationRangeArgument::Max),
                last_declared(args@, DurationRangeArgument::Default),
            ) {
                (None, _, _) => r matches Err(e) && e@ == "could not find min duration"@,
                (Some(_), None, _) => r matches Err(e) && e@ == "could not find max duration"@,
                (Some(a), Some(b), None) => r matches Ok(v) && v.min == a && v.max == b
                    && v.default == a,
                (Some(a), Some(b), Some(d)) => r matches Ok(v) && v.min == a && v.max == b
                    && v.default == d,
            },
    {
        let min = find_last(args, DurationRangeArgument::Min);
        let max = find_last(args, DurationRangeArgument::Max);
        let default = find_last(args, DurationRangeArgument::Default);
        match (min, max, default) {
            (None, _, _) => Err(String::from_str("could not find min duration")),
            (Some(_), None, _) => Err(String::from_str("could not find max duration")),
            (Some(a), Some(b), None) => Ok(DurationInmsRangeAndDefault { min: a, default: a, max: b }),
            (Some(a), Some(b), Some(d)) => Ok(DurationInmsRangeAndDefault { min: a, default: d, max: b }),
        }
    }

    /// `duration` lies between minimum and maximum, both included.
    pub fn contains(&self, duration: &DurationInms) -> (r: bool)
        ensures
            r == (self.min@ <= duration@ <= self.max@),
    {
        self.min.as_millis() <= duration.as_millis() && duration.as_millis()
            <= self.max.as_millis()
    }
}

impl DurationInms {
    /// This duration lies in the validator's range.
    pub fn is_in(&self, range: &DurationInmsValidator) -> (r: bool)
        ensures
            r == (range.min@ <= self@ <= range.max@),
    {
        range.contains(self)
    }

    /// This duration, where it lies in `range`; else the bounds, compact.
    pub fn must_be_in(self, range: &DurationInmsRangeAndDefault) -> (r: Result<
        Self,
        InvalidDuration,
    >)
        ensures
            match r {
                Ok(d) => d == self && range.min@ <= self@ <= range.max@,
                Err(InvalidDuration::DurationMustLieBetween { min, max }) => !(range.min@ <= self@
                    <= range.max@) && min@ == ms_compact(range.min@) && max@ == ms_compact(
                    range.max@,
                ),
                Err(_) => false,
            },
    {
        if range.contains(&self) {
            Ok(self)
        } else {
            Err(
                InvalidDuration::DurationMustLieBetween {
                    min: range.min.format_compact(),
                    max: range.max.format_compact(),
                },
            )
        }
    }
}

} // verus!
