//! The duration grammar: a text is scanned left to right for occurrences of
//! `<digits><white space><unit>`; everything between them is ignored.
use vstd::prelude::*;
use crate::text::{
    is_digit, starts_with, digit_run, space_run, decimal_value, lemma_runs_bounded, digit_run_end,
    space_run_end, word_at,
};
use crate::units::Unit;

verus! {

/// Length of an `s` that follows the word at `n`, if one does.
pub open spec fn plural_s(t: Seq<char>, n: nat) -> nat {
    if n < t.len() && t[n as int] == 's' {
        1
    } else {
        0
    }
}

/// The unit keyword that `t` starts with, and its length. The alternatives
/// are tried in this order and the first that fits is taken.
#[verifier::opaque]
pub open spec fn unit_match(t: Seq<char>) -> Option<(Unit, nat)> {
    if starts_with(t, seq!['c', 'e', 'n', 't', 'u', 'r', 'y']) {
        Some((Unit::Century, 7))
    } else if starts_with(t, seq!['c', 'e', 'n', 't', 'u', 'r', 'i', 'e', 's']) {
        Some((Unit::Century, 9))
    } else if starts_with(t, seq!['y', 'e', 'a', 'r']) {
        Some((Unit::Year, 4 + plural_s(t, 4)))
    } else if starts_with(t, seq!['m', 'o', 'n', 't', 'h']) {
        Some((Unit::Month, 5 + plural_s(t, 5)))
    } else if starts_with(t, seq!['w', 'e', 'e', 'k']) {
        Some((Unit::Week, 4 + plural_s(t, 4)))
    } else if starts_with(t, seq!['d', 'a', 'y']) {
        Some((Unit::Day, 3 + plural_s(t, 3)))
    } else if starts_with(t, seq!['h']) {
        Some((Unit::Hour, 1))
    } else if starts_with(t, seq!['m', 'i', 'n']) {
        Some((Unit::Minute, 3))
    } else if starts_with(t, seq!['s']) {
        Some((Unit::Second, 1))
    } else if starts_with(t, seq!['m', 's']) {
        Some((Unit::Millisecond, 2))
    } else if starts_with(t, seq!['\u{3bc}', 's']) {
        Some((Unit::Microsecond, 2))
    } else if starts_with(t, seq!['n', 's']) {
        Some((Unit::Nanosecond, 2))
    } else {
        None
    }
}

/// The occurrence that `t` starts with, if any: its length, the length of its
/// digits, and its unit.
pub open spec fn match_at(t: Seq<char>) -> Option<(nat, nat, Unit)> {
    let d = digit_run(t);
    let w = space_run(t.skip(d as int));
    if d == 0 {
        None
    } else {
        match unit_match(t.skip((d + w) as int)) {
            Some((u, n)) => Some((d + w + n, d, u)),
            None => None,
        }
    }
}

/// One occurrence found in a text: what it reads, the value of its digits,
/// and its unit.
pub struct Lexeme {
    pub text: Seq<char>,
    pub value: nat,
    pub unit: Unit,
}

/// Nanoseconds that an occurrence stands for.
pub open spec fn contribution(l: Lexeme) -> nat {
    l.value * l.unit.factor()
}

pub proof fn lemma_unit_match_bounded(t: Seq<char>)
    ensures
        unit_match(t) matches Some((u, n)) ==> 1 <= n <= t.len(),
{
    reveal(unit_match);
}

pub proof fn lemma_match_at_bounded(t: Seq<char>)
    ensures
        match_at(t) matches Some((n, d, u)) ==> 1 <= d <= n <= t.len() && d == digit_run(t),
        forall|j: int| 0 <= j < digit_run(t) ==> is_digit(#[trigger] t[j]),
{
    lemma_runs_bounded(t);
    let d = digit_run(t);
    lemma_runs_bounded(t.skip(d as int));
    let w = space_run(t.skip(d as int));
    lemma_unit_match_bounded(t.skip((d + w) as int));
}

/// All occurrences in `t`, left to right.
pub open spec fn lex(t: Seq<char>) -> Seq<Lexeme>
    decreases t.len(),
{
    if t.len() == 0 {
        seq![]
    } else {
        proof {
            lemma_match_at_bounded(t);
        }
        match match_at(t) {
            Some((n, d, u)) => seq![
                Lexeme { text: t.take(n as int), value: decimal_value(t.take(d as int)), unit: u },
            ] + lex(t.skip(n as int)),
            None => lex(t.skip(1)),
        }
    }
}

/// Sum of what the occurrences stand for.
pub open spec fn total(ls: Seq<Lexeme>) -> nat
    decreases ls.len(),
{
    if ls.len() == 0 {
        0
    } else {
        total(ls.drop_last()) + contribution(ls.last())
    }
}

/// Where an occurrence was found: its first character, the end of its digits,
/// its end, and its unit.
#[derive(Clone, Copy, Debug)]
pub struct Span {
    pub start: usize,
    pub digits_end: usize,
    pub end: usize,
    pub unit: Unit,
}

impl Span {
    /// The occurrence that this span marks in `s`.
    pub open spec fn lexeme(self, s: Seq<char>) -> Lexeme {
        Lexeme {
            text: s.subrange(self.start as int, self.end as int),
            value: decimal_value(s.subrange(self.start as int, self.digits_end as int)),
            unit: self.unit,
        }
    }
}

/// The unit keyword at `i`, and where it ends.
fn unit_at(s: &Vec<char>, i: usize) -> (r: Option<(Unit, usize)>)
    requires
        i <= s@.len(),
    ensures
        match unit_match(s@.skip(i as int)) {
            Some((u, n)) => r == Some((u, (i + n) as usize)),
            None => r is None,
        },
{
    proof {
        lemma_unit_match_bounded(s@.skip(i as int));
        reveal(unit_match);
    }
    proof {
        assert(['c', 'e', 'n', 't', 'u', 'r', 'y']@ =~= seq!['c', 'e', 'n', 't', 'u', 'r', 'y']);
        assert(['c', 'e', 'n', 't', 'u', 'r', 'i', 'e', 's']@ =~= seq!['c', 'e', 'n', 't', 'u', 'r', 'i', 'e', 's']);
        assert(['y', 'e', 'a', 'r']@ =~= seq!['y', 'e', 'a', 'r']);
        assert(['m', 'o', 'n', 't', 'h']@ =~= seq!['m', 'o', 'n', 't', 'h']);
        assert(['w', 'e', 'e', 'k']@ =~= seq!['w', 'e', 'e', 'k']);
        assert(['d', 'a', 'y']@ =~= seq!['d', 'a', 'y']);
        assert(['h']@ =~= seq!['h']);
        assert(['m', 'i', 'n']@ =~= seq!['m', 'i', 'n']);
        assert(['s']@ =~= seq!['s']);
        assert(['m', 's']@ =~= seq!['m', 's']);
        assert(['\u{3bc}', 's']@ =~= seq!['\u{3bc}', 's']);
        assert(['n', 's']@ =~= seq!['n', 's']);
    }
    if word_at(s, i, &['c', 'e', 'n', 't', 'u', 'r', 'y']) {
        Some((Unit::Century, i + 7))
    } else if word_at(s, i, &['c', 'e', 'n', 't', 'u', 'r', 'i', 'e', 's']) {
        Some((Unit::Century, i + 9))
    } else if word_at(s, i, &['y', 'e', 'a', 'r']) {
        Some((Unit::Year, i + 4 + plural_at(s, i + 4)))
    } else if word_at(s, i, &['m', 'o', 'n', 't', 'h']) {
        Some((Unit::Month, i + 5 + plural_at(s, i + 5)))
    } else if word_at(s, i, &['w', 'e', 'e', 'k']) {
        Some((Unit::Week, i + 4 + plural_at(s, i + 4)))
    } else if word_at(s, i, &['d', 'a', 'y']) {
        Some((Unit::Day, i + 3 + plural_at(s, i + 3)))
    } else if word_at(s, i, &['h']) {
        Some((Unit::Hour, i + 1))
    } else if word_at(s, i, &['m', 'i', 'n']) {
        Some((Unit::Minute, i + 3))
    } else if word_at(s, i, &['s']) {
        Some((Unit::Second, i + 1))
    } else if word_at(s, i, &['m', 's']) {
        Some((Unit::Millisecond, i + 2))
    } else if word_at(s, i, &['\u{3bc}', 's']) {
        Some((Unit::Microsecond, i + 2))
    } else if word_at(s, i, &['n', 's']) {
        Some((Unit::Nanosecond, i + 2))
    } else {
        None
    }
}

/// One if an `s` stands at `j`, else zero.
fn plural_at(s: &Vec<char>, j: usize) -> (r: usize)
    requires
        j <= s@.len(),
    ensures
        forall|i: int| 0 <= i <= j ==> r == plural_s(#[trigger] s@.skip(i), (j - i) as nat),
        r <= 1,
{
    if j < s.len() && s[j] == 's' {
        1
    } else {
        0
    }
}

/// The occurrence that starts at `i`, if any.
pub fn span_at(s: &Vec<char>, i: usize) -> (r: Option<Span>)
    requires
        i <= s@.len(),
    ensures
        match match_at(s@.skip(i as int)) {
            Some((n, d, u)) => r == Some(
                Span { start: i, digits_end: (i + d) as usize, end: (i + n) as usize, unit: u },
            ),
            None => r is None,
        },
{
    let t = Ghost(s@.skip(i as int));
    proof {
        lemma_match_at_bounded(t@);
    }
    let d = digit_run_end(s, i);
    if d == i {
        return None;
    }
    let w = space_run_end(s, d);
    assert(s@.skip(d as int) =~= t@.skip(d - i));
    assert(s@.skip(w as int) =~= t@.skip(w - i));
    match unit_at(s, w) {
        Some((u, e)) => Some(Span { start: i, digits_end: d, end: e, unit: u }),
        None => None,
    }
}

/// All occurrences in `s`, left to right.
pub fn scan(s: &Vec<char>) -> (r: Vec<Span>)
    ensures
        r@.len() == lex(s@).len(),
        forall|k: int| 0 <= k < r@.len() ==> (#[trigger] r@[k]).lexeme(s@) == lex(s@)[k],
        forall|k: int|
            0 <= k < r@.len() ==> (#[trigger] r@[k]).start <= r@[k].digits_end <= r@[k].end
                <= s@.len(),
        forall|k: int, j: int|
            #![trigger r@[k], s@[j]]
            0 <= k < r@.len() && r@[k].start <= j < r@[k].digits_end ==> is_digit(s@[j]),
{
    let mut r: Vec<Span> = Vec::new();
    let mut i: usize = 0;
    let ghost found: Seq<Lexeme> = seq![];
    assert(found + lex(s@.skip(0)) =~= lex(s@)) by {
        assert(s@.skip(0) =~= s@);
    }
    while i < s.len()
        invariant
            i <= s@.len(),
            r@.len() == found.len(),
            found + lex(s@.skip(i as int)) == lex(s@),
            forall|k: int| 0 <= k < r@.len() ==> (#[trigger] r@[k]).lexeme(s@) == found[k],
            forall|k: int|
                0 <= k < r@.len() ==> (#[trigger] r@[k]).start <= r@[k].digits_end <= r@[k].end
                    <= s@.len(),
            forall|k: int, j: int|
                #![trigger r@[k], s@[j]]
                0 <= k < r@.len() && r@[k].start <= j < r@[k].digits_end ==> is_digit(s@[j]),
        decreases s@.len() - i,
    {
        let ghost t = s@.skip(i as int);
        proof {
            lemma_match_at_bounded(t);
        }
        match span_at(s, i) {
            Some(sp) => {
                proof {
                    let l = sp.lexeme(s@);
                    assert(t.take(sp.end - i) =~= s@.subrange(i as int, sp.end as int));
                    assert(t.take(sp.digits_end - i) =~= s@.subrange(i as int, sp.digits_end as int));
                    assert(t.skip(sp.end - i) =~= s@.skip(sp.end as int));
                    assert(lex(t) == seq![l] + lex(s@.skip(sp.end as int)));
                    assert forall|j: int| sp.start <= j < sp.digits_end implies is_digit(
                        #[trigger] s@[j],
                    ) by {
                        assert(t[j - i] == s@[j]);
                    }
                    found = found.push(l);
                    assert(found + lex(s@.skip(sp.end as int)) =~= lex(s@));
                }
                r.push(sp);
                i = sp.end;
            },
            None => {
                proof {
                    assert(t.skip(1) =~= s@.skip(i + 1));
                }
                i = i + 1;
            },
        }
    }
    proof {
        assert(s@.skip(i as int) =~= Seq::<char>::empty());
        assert(found =~= lex(s@));
    }
    r
}

} // verus!
