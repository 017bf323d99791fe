//! Laws that relate parsing and rendering.
use vstd::prelude::*;
use crate::text::{
    starts_with, is_digit, is_space, decimal, digit_run, space_run, lemma_runs_bounded, decimal_value, digit_char,
    digit_value, lemma_digit_run, lemma_space_run,
};
use crate::grammar::{Lexeme, unit_match, match_at, lex, total, contribution};
use crate::render::{piece, joined, parts, remainder_after, quotient_at, expanded, compact, compact_row};
use crate::duration::{DurationHuman, parses_as, lemma_nanos_bound, lemma_parse_ok_unique};
use crate::errors::DurationError;
use crate::units::UNIT_COUNT;
use vstd::arithmetic::div_mod::lemma_fundamental_div_mod;
use crate::units::Unit;

verus! {

/// The occurrence that a piece stands for.
pub open spec fn lexeme_of(p: (nat, Unit)) -> Lexeme {
    Lexeme { text: piece(p.0, p.1), value: p.0, unit: p.1 }
}

/// The occurrences that a sequence of pieces stands for.
pub open spec fn lexemes_of(ps: Seq<(nat, Unit)>) -> Seq<Lexeme> {
    ps.map_values(|p: (nat, Unit)| lexeme_of(p))
}

/// Decimal notation is a non-empty run of digits that reads back as `n`.
pub proof fn lemma_decimal(n: nat)
    ensures
        decimal(n).len() >= 1,
        forall|j: int| 0 <= j < decimal(n).len() ==> is_digit(#[trigger] decimal(n)[j]),
        decimal_value(decimal(n)) == n,
    decreases n,
{
    if n < 10 {
        let c = digit_char(n);
        assert(c as int == n + 48);
        assert(decimal(n) == seq![c]);
        assert(seq![c].drop_last() =~= Seq::<char>::empty());
        assert(decimal_value(Seq::<char>::empty()) == 0);
        assert(decimal_value(seq![c]) == decimal_value(Seq::<char>::empty()) * 10 + digit_value(c));
    } else {
        lemma_decimal(n / 10);
        let c = digit_char(n % 10);
        assert(c as int == n % 10 + 48);
        let d = decimal(n);
        assert(d.drop_last() =~= decimal(n / 10));
        assert(d.last() == c);
        assert(digit_value(c) == n % 10);
        assert(decimal_value(d) == (n / 10) * 10 + n % 10);
        assert forall|j: int| 0 <= j < d.len() implies is_digit(#[trigger] d[j]) by {
            if j < d.len() - 1 {
                assert(d[j] == decimal(n / 10)[j]);
            }
        }
    }
}

/// A unit suffix is a keyword, with a space before it for calendar units.
pub proof fn lemma_suffix_shape(u: Unit, plural: bool)
    ensures
        u.suffix(plural).len() >= 1,
        u.spaced() ==> u.suffix(plural)[0] == ' ' && u.suffix(plural) =~= seq![' '] + u.keyword(plural),
        !u.spaced() ==> u.suffix(plural) == u.keyword(plural),
        u.keyword(plural).len() >= 1,
        !is_space(u.keyword(plural)[0]),
        !is_digit(u.keyword(plural)[0]),
        !is_digit(u.suffix(plural)[0]),
{
}

/// The keyword of a unit, followed by nothing or by a space, is read as that
/// unit and nothing more.
pub proof fn lemma_keyword_match(u: Unit, plural: bool, rest: Seq<char>)
    requires
        rest.len() == 0 || rest[0] == ' ',
    ensures
        unit_match(u.keyword(plural) + rest) == Some((u, u.keyword(plural).len())),
{
    reveal(unit_match);
    let w = u.keyword(plural);
    let t = w + rest;
    assert forall|j: int| 0 <= j < w.len() implies #[trigger] t[j] == w[j] by {}
    assert(t.take(w.len() as int) =~= w);
    if w.len() < t.len() {
        assert(t[w.len() as int] == ' ');
    }
    match u {
        Unit::Century => {
            if plural {
                assert(t[0] == 'c');
                assert(t[1] == 'e');
                assert(t[2] == 'n');
                assert(t[3] == 't');
                assert(t[4] == 'u');
                assert(t[5] == 'r');
                assert(t[6] == 'i');
                assert(t[7] == 'e');
                assert(t[8] == 's');
                let century = seq!['c', 'e', 'n', 't', 'u', 'r', 'y'];
                assert(!starts_with(t, century)) by {
                    if starts_with(t, century) {
                        assert(t.take(7)[6] == century[6]);
                    }
                }
            } else {
                assert(t[0] == 'c');
                assert(t[1] == 'e');
                assert(t[2] == 'n');
                assert(t[3] == 't');
                assert(t[4] == 'u');
                assert(t[5] == 'r');
                assert(t[6] == 'y');
            }
        },
        Unit::Year => {
            if plural {
                assert(t[0] == 'y');
                assert(t[1] == 'e');
                assert(t[2] == 'a');
                assert(t[3] == 'r');
                assert(t[4] == 's');
                assert(t.take(4) =~= seq!['y', 'e', 'a', 'r']);
            } else {
                assert(t[0] == 'y');
                assert(t[1] == 'e');
                assert(t[2] == 'a');
                assert(t[3] == 'r');
            }
        },
        Unit::Month => {
            if plural {
                assert(t[0] == 'm');
                assert(t[1] == 'o');
                assert(t[2] == 'n');
                assert(t[3] == 't');
                assert(t[4] == 'h');
                assert(t[5] == 's');
                assert(t.take(5) =~= seq!['m', 'o', 'n', 't', 'h']);
            } else {
                assert(t[0] == 'm');
                assert(t[1] == 'o');
                assert(t[2] == 'n');
                assert(t[3] == 't');
                assert(t[4] == 'h');
            }
        },
        Unit::Week => {
            if plural {
                assert(t[0] == 'w');
                assert(t[1] == 'e');
                assert(t[2] == 'e');
                assert(t[3] == 'k');
                assert(t[4] == 's');
                assert(t.take(4) =~= seq!['w', 'e', 'e', 'k']);
            } else {
                assert(t[0] == 'w');
                assert(t[1] == 'e');
                assert(t[2] == 'e');
                assert(t[3] == 'k');
            }
        },
        Unit::Day => {
            if plural {
                assert(t[0] == 'd');
                assert(t[1] == 'a');
                assert(t[2] == 'y');
                assert(t[3] == 's');
                assert(t.take(3) =~= seq!['d', 'a', 'y']);
            } else {
                assert(t[0] == 'd');
                assert(t[1] == 'a');
                assert(t[2] == 'y');
            }
        },
        Unit::Hour => {
            assert(t[0] == 'h');
        },
        Unit::Minute => {
            assert(t[0] == 'm');
            assert(t[1] == 'i');
            assert(t[2] == 'n');
        },
        Unit::Second => {
            assert(t[0] == 's');
        },
        Unit::Millisecond => {
            assert(t[0] == 'm');
            assert(t[1] == 's');
        },
        Unit::Microsecond => {
            assert(t[0] == '\u{3bc}');
            assert(t[1] == 's');
        },
        Unit::Nanosecond => {
            assert(t[0] == 'n');
            assert(t[1] == 's');
        },
    }
}

/// A piece followed by nothing or by a space is one occurrence that spans
/// exactly the piece.
pub proof fn lemma_match_piece(q: nat, u: Unit, rest: Seq<char>)
    requires
        rest.len() == 0 || rest[0] == ' ',
    ensures
        match_at(piece(q, u) + rest) == Some(
            (piece(q, u).len(), decimal(q).len(), u),
        ),
{
    let ds = decimal(q);
    let sfx = u.suffix(q > 1);
    let w = u.keyword(q > 1);
    let t = piece(q, u) + rest;
    lemma_decimal(q);
    lemma_suffix_shape(u, q > 1);
    assert(t =~= ds + (sfx + rest));
    assert forall|j: int| 0 <= j < ds.len() implies is_digit(#[trigger] t[j]) by {
        assert(t[j] == ds[j]);
    }
    assert(t[ds.len() as int] == sfx[0]);
    lemma_digit_run(t, ds.len() as int);
    let a = t.skip(ds.len() as int);
    assert(a =~= sfx + rest);
    lemma_keyword_match(u, q > 1, rest);
    if u.spaced() {
        assert(a[0] == ' ');
        assert(a[1] == w[0]);
        lemma_space_run(a, 1);
        assert(t.skip(ds.len() + 1 as int) =~= w + rest);
    } else {
        assert(a[0] == w[0]);
        lemma_space_run(a, 0);
        assert(t.skip(ds.len() as int) =~= w + rest);
    }
}

/// Reading a piece followed by nothing or by a space yields its occurrence,
/// then whatever the rest holds.
pub proof fn lemma_lex_piece(q: nat, u: Unit, rest: Seq<char>)
    requires
        rest.len() == 0 || rest[0] == ' ',
    ensures
        lex(piece(q, u) + rest) == seq![lexeme_of((q, u))] + lex(rest),
{
    let t = piece(q, u) + rest;
    lemma_match_piece(q, u, rest);
    lemma_decimal(q);
    lemma_suffix_shape(u, q > 1);
    let n = piece(q, u).len();
    assert(t.take(n as int) =~= piece(q, u));
    assert(t.take(decimal(q).len() as int) =~= decimal(q));
    assert(t.skip(n as int) =~= rest);
}

/// A leading space starts no occurrence.
pub proof fn lemma_lex_space(rest: Seq<char>)
    ensures
        lex(seq![' '] + rest) == lex(rest),
{
    let t = seq![' '] + rest;
    lemma_digit_run(t, 0);
    assert(t.skip(1) =~= rest);
}

/// Reading joined pieces yields one occurrence per piece, in order.
pub proof fn lemma_lex_joined(ps: Seq<(nat, Unit)>)
    ensures
        lex(joined(ps)) == lexemes_of(ps),
    decreases ps.len(),
{
    if ps.len() == 0 {
        assert(lexemes_of(ps) =~= Seq::<Lexeme>::empty());
    } else if ps.len() == 1 {
        lemma_lex_piece(ps[0].0, ps[0].1, seq![]);
        assert(piece(ps[0].0, ps[0].1) + seq![] =~= piece(ps[0].0, ps[0].1));
        assert(lexemes_of(ps) =~= seq![lexeme_of(ps[0])]);
    } else {
        let r = seq![' '] + joined(ps.skip(1));
        assert(joined(ps) =~= piece(ps[0].0, ps[0].1) + r);
        lemma_lex_piece(ps[0].0, ps[0].1, r);
        lemma_lex_space(joined(ps.skip(1)));
        lemma_lex_joined(ps.skip(1));
        assert(lexemes_of(ps) =~= seq![lexeme_of(ps[0])] + lexemes_of(ps.skip(1)));
    }
}

/// The shares of the greedy breakdown and what is left add up to `n`.
pub proof fn lemma_parts_total(n: nat, k: nat)
    ensures
        total(lexemes_of(parts(n, k))) + remainder_after(n, k) == n,
    decreases k,
{
    if k == 0 {
        assert(lexemes_of(parts(n, 0)) =~= Seq::<Lexeme>::empty());
    } else {
        let j = (k - 1) as nat;
        lemma_parts_total(n, j);
        let u = Unit::row(j as int);
        let r = remainder_after(n, j);
        let q = quotient_at(n, j);
        assert(u.factor() >= 1);
        lemma_fundamental_div_mod(r as int, u.factor() as int);
        assert(r == u.factor() * q + remainder_after(n, k));
        if q > 0 {
            let ls = lexemes_of(parts(n, j));
            assert(lexemes_of(parts(n, k)) =~= ls.push(lexeme_of((q, u))));
            assert(ls.push(lexeme_of((q, u))).drop_last() =~= ls);
            assert(contribution(lexeme_of((q, u))) == u.factor() * q) by (nonlinear_arith)
                requires
                    contribution(lexeme_of((q, u))) == q * u.factor(),
            ;
        } else {
            assert(u.factor() * q == 0) by (nonlinear_arith)
                requires
                    q == 0,
            ;
        }
    }
}

/// Parsing the expanded text of a non-zero duration gives the duration back.
/// (Zero is written as the empty text, which holds no occurrence.)
pub proof fn law_expanded_round_trip(d: DurationHuman)
    requires
        d@ > 0,
    ensures
        parses_as(expanded(d@), Ok(d)),
        forall|r: Result<DurationHuman, DurationError>| parses_as(expanded(d@), r) ==> r == Ok::<
            DurationHuman,
            DurationError,
        >(d),
{
    let n = d@;
    let ps = parts(n, UNIT_COUNT as nat);
    lemma_nanos_bound(d);
    lemma_lex_joined(ps);
    lemma_parts_total(n, UNIT_COUNT as nat);
    assert(Unit::row(10).factor() == 1);
    assert(remainder_after(n, UNIT_COUNT as nat) == 0);
    let ls = lex(expanded(n));
    if ls.len() == 0 {
        assert(ls =~= Seq::<Lexeme>::empty());
    }
    lemma_parse_ok_unique(expanded(n), d);
}

/// The row that the compact text picks divides `n` exactly, or is the
/// nanosecond row.
pub proof fn lemma_compact_row(n: nat, k: nat)
    requires
        k < UNIT_COUNT,
    ensures
        k <= compact_row(n, k) < UNIT_COUNT,
        compact_row(n, k) + 1 == UNIT_COUNT || n % Unit::row(compact_row(n, k) as int).factor() == 0,
    decreases UNIT_COUNT - k,
{
    if k + 1 < UNIT_COUNT && !(n >= Unit::row(k as int).factor() && n % Unit::row(k as int).factor() == 0) {
        lemma_compact_row(n, k + 1);
    }
}

/// Parsing the compact text of any duration gives the duration back.
pub proof fn law_compact_round_trip(d: DurationHuman)
    ensures
        parses_as(compact(d@), Ok(d)),
        forall|r: Result<DurationHuman, DurationError>| parses_as(compact(d@), r) ==> r == Ok::<
            DurationHuman,
            DurationError,
        >(d),
{
    let n = d@;
    lemma_nanos_bound(d);
    lemma_compact_row(n, 0);
    let u = Unit::row(compact_row(n, 0) as int);
    let q = n / u.factor();
    assert(u.factor() >= 1);
    lemma_fundamental_div_mod(n as int, u.factor() as int);
    assert(q * u.factor() == n);
    lemma_lex_piece(q, u, seq![]);
    assert(piece(q, u) + seq![] =~= piece(q, u));
    assert(lex(Seq::<char>::empty()) =~= Seq::<Lexeme>::empty());
    let ls = lex(compact(n));
    assert(ls =~= seq![lexeme_of((q, u))]);
    assert(ls.drop_last() =~= Seq::<Lexeme>::empty());
    lemma_parse_ok_unique(compact(n), d);
}

/// Text without digits in front of a text starts no occurrence: it is
/// skipped, and the text parses as it would alone.
pub proof fn law_prose_prefix_skipped(prose: Seq<char>, t: Seq<char>)
    requires
        forall|i: int| 0 <= i < prose.len() ==> !is_digit(#[trigger] prose[i]),
    ensures
        lex(prose + t) == lex(t),
        forall|r: Result<DurationHuman, DurationError>| parses_as(prose + t, r) == parses_as(t, r),
    decreases prose.len(),
{
    if prose.len() > 0 {
        let s = prose + t;
        assert(s[0] == prose[0]);
        lemma_digit_run(s, 0);
        let rest = prose.skip(1);
        assert(s.skip(1) =~= rest + t);
        assert forall|i: int| 0 <= i < rest.len() implies !is_digit(#[trigger] rest[i]) by {
            assert(rest[i] == prose[i + 1]);
        }
        law_prose_prefix_skipped(rest, t);
    } else {
        assert(prose + t =~= t);
    }
}

/// A run of digits stops at a character that is no digit.
pub proof fn lemma_digit_run_stops(t: Seq<char>)
    ensures
        digit_run(t) < t.len() ==> !is_digit(t[digit_run(t) as int]),
    decreases t.len(),
{
    if t.len() > 0 && is_digit(t[0]) {
        lemma_digit_run_stops(t.skip(1));
        if digit_run(t) < t.len() {
            assert(t.skip(1)[digit_run(t.skip(1)) as int] == t[digit_run(t) as int]);
        }
    }
}

/// From any position inside a run of digits that no unit follows, reading
/// goes on as from the end of the run.
proof fn lemma_skip_unmatched_digits(t: Seq<char>, i: int)
    requires
        0 <= i <= digit_run(t),
        unit_match(t.skip((digit_run(t) + space_run(t.skip(digit_run(t) as int))) as int)) is None,
    ensures
        lex(t.skip(i)) == lex(t.skip(digit_run(t) as int)),
    decreases digit_run(t) - i,
{
    let d = digit_run(t) as int;
    if i < d {
        lemma_runs_bounded(t);
        lemma_digit_run_stops(t);
        let u = t.skip(i);
        assert forall|j: int| 0 <= j < d - i implies is_digit(#[trigger] u[j]) by {
            assert(u[j] == t[i + j]);
        }
        if d < t.len() {
            assert(u[d - i] == t[d]);
        }
        lemma_digit_run(u, d - i);
        assert(u.skip(d - i) =~= t.skip(d));
        let w = space_run(t.skip(d));
        lemma_runs_bounded(t.skip(d));
        assert(u.skip(d - i + w) =~= t.skip(d + w));
        assert(match_at(u) is None);
        assert(u.skip(1) =~= t.skip(i + 1));
        lemma_skip_unmatched_digits(t, i + 1);
    }
}

/// Digits that no unit follows, such as those of a misspelt unit like `3dya`,
/// start no occurrence: the text parses as it would without them.
pub proof fn law_number_without_unit_skipped(t: Seq<char>)
    requires
        digit_run(t) > 0,
        unit_match(t.skip((digit_run(t) + space_run(t.skip(digit_run(t) as int))) as int)) is None,
    ensures
        lex(t) == lex(t.skip(digit_run(t) as int)),
        forall|r: Result<DurationHuman, DurationError>|
            parses_as(t, r) == parses_as(t.skip(digit_run(t) as int), r),
{
    lemma_skip_unmatched_digits(t, 0);
    assert(t.skip(0) =~= t);
}

} // verus!
