//! How durations are written: a count followed by a unit suffix, either once
//! in the largest unit that divides the duration (compact), or for every unit
//! of a greedy breakdown from centuries down to nanoseconds (expanded).
use vstd::prelude::*;
use crate::text::decimal;
use crate::units::{Unit, UNIT_COUNT};

verus! {

/// `q` of unit `u`, as written: `"3 days"`, `"1 week"`, `"6min"`.
pub open spec fn piece(q: nat, u: Unit) -> Seq<char> {
    decimal(q) + u.suffix(q > 1)
}

/// What is left of `n` after the first `k` rows of the unit table took their
/// share.
pub open spec fn remainder_after(n: nat, k: nat) -> nat
    decreases k,
{
    if k == 0 {
        n
    } else {
        remainder_after(n, (k - 1) as nat) % Unit::row(k - 1).factor()
    }
}

/// The share of row `k` in the greedy breakdown of `n`.
pub open spec fn quotient_at(n: nat, k: nat) -> nat {
    remainder_after(n, k) / Unit::row(k as int).factor()
}

/// The non-zero shares of the first `k` rows, largest unit first.
pub open spec fn parts(n: nat, k: nat) -> Seq<(nat, Unit)>
    decreases k,
{
    if k == 0 {
        seq![]
    } else if quotient_at(n, (k - 1) as nat) > 0 {
        parts(n, (k - 1) as nat).push((quotient_at(n, (k - 1) as nat), Unit::row(k - 1)))
    } else {
        parts(n, (k - 1) as nat)
    }
}

/// The pieces of `ps`, separated by single spaces.
pub open spec fn joined(ps: Seq<(nat, Unit)>) -> Seq<char>
    decreases ps.len(),
{
    if ps.len() == 0 {
        seq![]
    } else if ps.len() == 1 {
        piece(ps[0].0, ps[0].1)
    } else {
        piece(ps[0].0, ps[0].1) + seq![' '] + joined(ps.skip(1))
    }
}

/// The expanded text of `n` nanoseconds: every non-zero share of the greedy
/// breakdown, largest unit first. Zero gives the empty text.
pub open spec fn expanded(n: nat) -> Seq<char> {
    joined(parts(n, UNIT_COUNT as nat))
}

/// The first row from `k` on whose unit divides `n` at least once, or the
/// nanosecond row where none does.
pub open spec fn compact_row(n: nat, k: nat) -> nat
    decreases UNIT_COUNT - k,
{
    if k + 1 >= UNIT_COUNT {
        (UNIT_COUNT - 1) as nat
    } else if n >= Unit::row(k as int).factor() && n % Unit::row(k as int).factor() == 0 {
        k
    } else {
        compact_row(n, k + 1)
    }
}

/// The compact text of `n` nanoseconds: `n` in the largest unit that divides
/// it exactly; zero is `"0ns"`.
pub open spec fn compact(n: nat) -> Seq<char> {
    let u = Unit::row(compact_row(n, 0) as int);
    piece(n / u.factor(), u)
}

pub proof fn lemma_joined_push(ps: Seq<(nat, Unit)>, p: (nat, Unit))
    ensures
        joined(ps.push(p)) == if ps.len() == 0 {
            piece(p.0, p.1)
        } else {
            joined(ps) + seq![' '] + piece(p.0, p.1)
        },
    decreases ps.len(),
{
    let q = ps.push(p);
    assert(q[q.len() - 1] == p);
    if ps.len() == 0 {
        assert(q.len() == 1);
    } else if ps.len() == 1 {
        assert(q.skip(1) =~= seq![p]);
        assert(joined(seq![p]) == piece(p.0, p.1));
        assert(q[0] == ps[0]);
    } else {
        assert(q.skip(1) =~= ps.skip(1).push(p));
        lemma_joined_push(ps.skip(1), p);
        assert(q[0] == ps[0]);
        assert(joined(q) =~= joined(ps) + seq![' '] + piece(p.0, p.1));
    }
}

} // verus!
