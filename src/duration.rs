use vstd::prelude::*;
use vstd::string::{StrSliceExecFns, StringExecFns};
use crate::errors::DurationError;
use crate::grammar::{Lexeme, lex, total, contribution, scan};
use crate::text::{chars_of, is_digit, decimal_in, push_decimal};
use crate::render::{compact, compact_row, expanded, parts, joined, remainder_after, quotient_at, lemma_joined_push};
use crate::units::{Unit, MINUTE, UNIT_COUNT};

verus! {

/// Index of the first occurrence at which the running sum passes 2^64 - 1.
/// Meaningful where `total(ls)` does.
pub open spec fn overflow_index(ls: Seq<Lexeme>) -> int
    decreases ls.len(),
{
    if ls.len() == 0 {
        0
    } else if total(ls.drop_last()) > u64::MAX {
        overflow_index(ls.drop_last())
    } else {
        ls.len() - 1
    }
}

/// A duration with nanosecond precision, up to 2^64 - 1 nanoseconds
/// (about 584 years).
#[derive(Clone, Copy, Debug, PartialEq, Eq, PartialOrd, Ord, Hash, Structural)]
pub struct DurationHuman {
    nanos: u64,
}

impl View for DurationHuman {
    type V = nat;

    /// The number of nanoseconds.
    closed spec fn view(&self) -> nat {
        self.nanos as nat
    }
}

/// A duration never exceeds 2^64 - 1 nanoseconds.
pub proof fn lemma_nanos_bound(d: DurationHuman)
    ensures
        d@ <= u64::MAX,
{
}

/// Durations with the same number of nanoseconds are equal.
pub proof fn lemma_view_injective(a: DurationHuman, b: DurationHuman)
    ensures
        a@ == b@ ==> a == b,
{
}

/// Parsing has one outcome for each text: a successful parse is equal to
/// every duration with the nanoseconds it stands for.
pub proof fn lemma_parse_ok_unique(s: Seq<char>, d: DurationHuman)
    requires
        parses_as(s, Ok(d)),
    ensures
        forall|r: Result<DurationHuman, DurationError>| parses_as(s, r) ==> r == Ok::<
            DurationHuman,
            DurationError,
        >(d),
{
    assert forall|r: Result<DurationHuman, DurationError>| parses_as(s, r) implies r == Ok::<
        DurationHuman,
        DurationError,
    >(d) by {
        if let Ok(x) = r {
            lemma_view_injective(x, d);
        }
    }
}

/// `r` is what parsing `s` yields: the sum of all occurrences of
/// `<digits><unit>` in `s`; `InvalidSyntax` where there is none; else, at the
/// first occurrence that takes the sum past 2^64 - 1, `InvalidValue` where its
/// digits alone do not fit, and `IntegerOverflowAt` with its text otherwise.
pub open spec fn parses_as(s: Seq<char>, r: Result<DurationHuman, DurationError>) -> bool {
    let ls = lex(s);
    match r {
        Ok(d) => ls.len() > 0 && total(ls) <= u64::MAX && d@ == total(ls),
        Err(DurationError::InvalidSyntax) => ls.len() == 0,
        Err(DurationError::InvalidValue) => ls.len() > 0 && total(ls) > u64::MAX
            && ls[overflow_index(ls)].value > u64::MAX,
        Err(DurationError::IntegerOverflowAt { duration }) => ls.len() > 0 && total(ls)
            > u64::MAX && ls[overflow_index(ls)].value <= u64::MAX && duration@
            == ls[overflow_index(ls)].text,
        Err(_) => false,
    }
}

pub proof fn lemma_total_step(ls: Seq<Lexeme>, k: int)
    requires
        0 <= k < ls.len(),
    ensures
        total(ls.take(k + 1)) == total(ls.take(k)) + contribution(ls[k]),
{
    assert(ls.take(k + 1).drop_last() =~= ls.take(k));
}

/// Where the running sum first passes the bound at `k`, `k` is the overflow
/// index and the whole sum is past the bound too.
pub proof fn lemma_overflow_index(ls: Seq<Lexeme>, k: int)
    requires
        0 <= k < ls.len(),
        total(ls.take(k)) <= u64::MAX,
        total(ls.take(k + 1)) > u64::MAX,
    ensures
        overflow_index(ls) == k,
        total(ls) > u64::MAX,
    decreases ls.len(),
{
    if ls.len() == k + 1 {
        assert(ls.take(k + 1) =~= ls);
        assert(ls.drop_last() =~= ls.take(k));
    } else {
        let p = ls.drop_last();
        assert(p.take(k) =~= ls.take(k));
        assert(p.take(k + 1) =~= ls.take(k + 1));
        lemma_overflow_index(p, k);
    }
}

impl DurationHuman {
    /// The duration of `nanos` nanoseconds.
    pub fn new(nanos: u64) -> (r: Self)
        ensures
            r@ == nanos,
    {
        DurationHuman { nanos }
    }

    /// The number of nanoseconds.
    pub fn as_nanos(&self) -> (r: u64)
        ensures
            r == self@,
    {
        self.nanos
    }

    /// Parses free text for `<digits><white space><unit>` occurrences and adds
    /// them up. Text around the occurrences is ignored.
    pub fn parse(human_readable: &str) -> (r: Result<Self, DurationError>)
        ensures
            parses_as(human_readable@, r),
    {
        let chars = chars_of(human_readable);
        let spans = scan(&chars);
        let ghost ls = lex(chars@);
        if spans.len() == 0 {
            return Err(DurationError::InvalidSyntax);
        }
        let mut sum: u64 = 0;
        let mut k: usize = 0;
        assert(ls.take(0) =~= Seq::<Lexeme>::empty());
        while k < spans.len()
            invariant
                chars@ == human_readable@,
                ls == lex(chars@),
                spans@.len() == ls.len(),
                forall|i: int| 0 <= i < spans@.len() ==> (#[trigger] spans@[i]).lexeme(chars@) == ls[i],
                forall|i: int|
                    0 <= i < spans@.len() ==> (#[trigger] spans@[i]).start <= spans@[i].digits_end
                        <= spans@[i].end <= chars@.len(),
                forall|i: int, j: int|
                    #![trigger spans@[i], chars@[j]]
                    0 <= i < spans@.len() && spans@[i].start <= j < spans@[i].digits_end
                        ==> is_digit(chars@[j]),
                k <= spans@.len(),
                sum == total(ls.take(k as int)),
            decreases spans@.len() - k,
        {
            let sp = spans[k];
            let ghost l = ls[k as int];
            proof {
                lemma_total_step(ls, k as int);
            }
            let f = sp.unit.nanos();
            let over = match decimal_in(&chars, sp.start, sp.digits_end) {
                None => {
                    proof {
                        assert(l.value > u64::MAX);
                        assert(contribution(l) >= l.value) by (nonlinear_arith)
                            requires contribution(l) == l.value * l.unit.factor(), l.unit.factor() >= 1;
                        lemma_overflow_index(ls, k as int);
                    }
                    return Err(DurationError::InvalidValue);
                },
                Some(v) => match v.checked_mul(f) {
                    None => true,
                    Some(p) => match sum.checked_add(p) {
                        None => true,
                        Some(x) => {
                            sum = x;
                            false
                        },
                    },
                },
            };
            if over {
                proof {
                    lemma_overflow_index(ls, k as int);
                }
                let text = human_readable.substring_char(sp.start, sp.end);
                return Err(DurationError::IntegerOverflowAt { duration: String::from_str(text) });
            }
            k = k + 1;
        }
        assert(ls.take(k as int) =~= ls);
        Ok(DurationHuman { nanos: sum })
    }

    /// The compact text: the duration in the largest unit that divides it
    /// exactly, such as `"666s"` or `"3 days"`; zero is `"0ns"`.
    pub fn format_compact(&self) -> (r: String)
        ensures
            r@ == compact(self@),
    {
        let n = self.nanos;
        let mut k: usize = 0;
        while k + 1 < UNIT_COUNT && !(n >= Unit::at(k).nanos() && n % Unit::at(k).nanos() == 0)
            invariant
                k < UNIT_COUNT,
                compact_row(n as nat, k as nat) == compact_row(n as nat, 0),
            decreases UNIT_COUNT - k,
        {
            k = k + 1;
        }
        let u = Unit::at(k);
        let q = n / u.nanos();
        let mut out = String::new();
        push_decimal(&mut out, q);
        out.append(u.suffix_text(q > 1));
        proof {
            assert(out@ =~= compact(self@));
        }
        out
    }

    /// The compact text; see `format_compact`.
    pub fn to_string(&self) -> (r: String)
        ensures
            r@ == compact(self@),
    {
        self.format_compact()
    }

    /// The expanded text: every non-zero share of a greedy breakdown from
    /// centuries down to nanoseconds, separated by spaces, such as
    /// `"11min 6s"`. Zero gives the empty text.
    pub fn format_expanded(&self) -> (r: String)
        ensures
            r@ == expanded(self@),
    {
        let ghost n = self@;
        let mut out = String::new();
        let mut rem = self.nanos;
        let mut first = true;
        let mut k: usize = 0;
        while k < UNIT_COUNT
            invariant
                k <= UNIT_COUNT,
                rem == remainder_after(n, k as nat),
                out@ == joined(parts(n, k as nat)),
                first <==> parts(n, k as nat).len() == 0,
            decreases UNIT_COUNT - k,
        {
            let u = Unit::at(k);
            let f = u.nanos();
            let q = rem / f;
            proof {
                assert(quotient_at(n, k as nat) == q);
                assert(remainder_after(n, (k + 1) as nat) == rem % f);
            }
            if q > 0 {
                proof {
                    lemma_joined_push(parts(n, k as nat), (q as nat, u));
                }
                let ghost before = out@;
                if !first {
                    proof {
                        reveal_strlit(" ");
                    }
                    out.append(" ");
                    assert(out@ =~= before + seq![' ']);
                }
                push_decimal(&mut out, q);
                out.append(u.suffix_text(q > 1));
                first = false;
                proof {
                    assert(parts(n, (k + 1) as nat) == parts(n, k as nat).push((q as nat, u)));
                    assert(out@ =~= joined(parts(n, (k + 1) as nat)));
                }
            }
            rem = rem % f;
            k = k + 1;
        }
        out
    }
}

impl Default for DurationHuman {
    /// One minute.
    fn default() -> (r: Self)
        ensures
            r@ == MINUTE,
    {
        DurationHuman { nanos: MINUTE }
    }
}

impl From<u64> for DurationHuman {
    /// The duration of `nanos` nanoseconds.
    fn from(nanos: u64) -> (r: Self) {
        DurationHuman { nanos }
    }
}

impl vstd::std_specs::convert::FromSpecImpl<u64> for DurationHuman {
    open spec fn obeys_from_spec() -> bool {
        true
    }

    closed spec fn from_spec(nanos: u64) -> Self {
        DurationHuman { nanos }
    }
}

} // verus!
