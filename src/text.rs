use vstd::prelude::*;

verus! {

use vstd::string::StrSliceExecFns;

/// `w` is a prefix of `t`.
pub open spec fn starts_with(t: Seq<char>, w: Seq<char>) -> bool {
    w.len() <= t.len() && t.take(w.len() as int) == w
}

/// An ASCII decimal digit.
pub open spec fn is_digit(c: char) -> bool {
    '0' <= c <= '9'
}

/// A character of Unicode's White_Space property.
pub open spec fn is_space(c: char) -> bool {
    ('\u{9}' <= c <= '\u{d}') || c == ' ' || c == '\u{85}' || c == '\u{a0}' || c == '\u{1680}'
        || ('\u{2000}' <= c <= '\u{200a}') || c == '\u{2028}' || c == '\u{2029}' || c
        == '\u{202f}' || c == '\u{205f}' || c == '\u{3000}'
}

/// Value of a decimal digit.
pub open spec fn digit_value(c: char) -> nat {
    (c as int - '0' as int) as nat
}

/// The digit that stands for `d`.
pub open spec fn digit_char(d: nat) -> char {
    (d + '0' as nat) as char
}

/// Value of a run of decimal digits, most significant first.
pub open spec fn decimal_value(d: Seq<char>) -> nat
    decreases d.len(),
{
    if d.len() == 0 {
        0
    } else {
        decimal_value(d.drop_last()) * 10 + digit_value(d.last())
    }
}

/// Decimal notation of `n`, without leading zeros.
pub open spec fn decimal(n: nat) -> Seq<char>
    decreases n,
{
    if n < 10 {
        seq![digit_char(n)]
    } else {
        decimal(n / 10).push(digit_char(n % 10))
    }
}

/// Length of the run of digits that `t` starts with.
pub open spec fn digit_run(t: Seq<char>) -> nat
    decreases t.len(),
{
    if t.len() > 0 && is_digit(t[0]) {
        1 + digit_run(t.skip(1))
    } else {
        0
    }
}

/// Length of the run of white space that `t` starts with.
pub open spec fn space_run(t: Seq<char>) -> nat
    decreases t.len(),
{
    if t.len() > 0 && is_space(t[0]) {
        1 + space_run(t.skip(1))
    } else {
        0
    }
}

pub proof fn lemma_digit_run(t: Seq<char>, k: int)
    requires
        0 <= k <= t.len(),
        forall|j: int| 0 <= j < k ==> is_digit(#[trigger] t[j]),
        k == t.len() || !is_digit(t[k]),
    ensures
        digit_run(t) == k,
    decreases k,
{
    if k > 0 {
        let r = t.skip(1);
        assert forall|j: int| 0 <= j < k - 1 implies is_digit(#[trigger] r[j]) by {
            assert(r[j] == t[j + 1]);
        }
        lemma_digit_run(r, k - 1);
    }
}

pub proof fn lemma_space_run(t: Seq<char>, k: int)
    requires
        0 <= k <= t.len(),
        forall|j: int| 0 <= j < k ==> is_space(#[trigger] t[j]),
        k == t.len() || !is_space(t[k]),
    ensures
        space_run(t) == k,
    decreases k,
{
    if k > 0 {
        let r = t.skip(1);
        assert forall|j: int| 0 <= j < k - 1 implies is_space(#[trigger] r[j]) by {
            assert(r[j] == t[j + 1]);
        }
        lemma_space_run(r, k - 1);
    }
}

/// A run is no longer than the text it starts.
pub proof fn lemma_runs_bounded(t: Seq<char>)
    ensures
        digit_run(t) <= t.len(),
        space_run(t) <= t.len(),
        forall|j: int| 0 <= j < digit_run(t) ==> is_digit(#[trigger] t[j]),
    decreases t.len(),
{
    if t.len() > 0 {
        lemma_runs_bounded(t.skip(1));
        assert forall|j: int| 0 <= j < digit_run(t) implies is_digit(#[trigger] t[j]) by {
            if j > 0 {
                assert(t.skip(1)[j - 1] == t[j]);
            }
        }
    }
}

pub fn is_digit_char(c: char) -> (r: bool)
    ensures
        r == is_digit(c),
{
    '0' <= c && c <= '9'
}

pub fn is_space_char(c: char) -> (r: bool)
    ensures
        r == is_space(c),
{
    ('\u{9}' <= c && c <= '\u{d}') || c == ' ' || c == '\u{85}' || c == '\u{a0}' || c
        == '\u{1680}' || ('\u{2000}' <= c && c <= '\u{200a}') || c == '\u{2028}' || c
        == '\u{2029}' || c == '\u{202f}' || c == '\u{205f}' || c == '\u{3000}'
}

/// End of the run of digits that starts at `i`.
pub fn digit_run_end(s: &Vec<char>, i: usize) -> (e: usize)
    requires
        i <= s@.len(),
    ensures
        i <= e <= s@.len(),
        e - i == digit_run(s@.skip(i as int)),
{
    let mut e = i;
    while e < s.len() && is_digit_char(s[e])
        invariant
            i <= e <= s@.len(),
            forall|j: int| i <= j < e ==> is_digit(#[trigger] s@[j]),
        decreases s@.len() - e,
    {
        e = e + 1;
    }
    proof {
        let t = s@.skip(i as int);
        assert forall|j: int| 0 <= j < e - i implies is_digit(#[trigger] t[j]) by {
            assert(t[j] == s@[i + j]);
        }
        lemma_digit_run(t, e - i);
    }
    e
}

/// End of the run of white space that starts at `i`.
pub fn space_run_end(s: &Vec<char>, i: usize) -> (e: usize)
    requires
        i <= s@.len(),
    ensures
        i <= e <= s@.len(),
        e - i == space_run(s@.skip(i as int)),
{
    let mut e = i;
    while e < s.len() && is_space_char(s[e])
        invariant
            i <= e <= s@.len(),
            forall|j: int| i <= j < e ==> is_space(#[trigger] s@[j]),
        decreases s@.len() - e,
    {
        e = e + 1;
    }
    proof {
        let t = s@.skip(i as int);
        assert forall|j: int| 0 <= j < e - i implies is_space(#[trigger] t[j]) by {
            assert(t[j] == s@[i + j]);
        }
        lemma_space_run(t, e - i);
    }
    e
}

/// The characters of `s` from `i` on start with the word `w`.
pub fn word_at(s: &Vec<char>, i: usize, w: &[char]) -> (r: bool)
    requires
        i <= s@.len(),
    ensures
        r == starts_with(s@.skip(i as int), w@),
        r ==> i + w@.len() <= s.len(),
{
    if w.len() > s.len() - i {
        return false;
    }
    let mut k: usize = 0;
    while k < w.len()
        invariant
            i + w@.len() <= s.len(),
            k <= w@.len(),
            forall|j: int| 0 <= j < k ==> s@[i + j] == w@[j],
        decreases w@.len() - k,
    {
        if s[i + k] != w[k] {
            assert(s@.skip(i as int).take(w@.len() as int)[k as int] != w@[k as int]);
            return false;
        }
        k = k + 1;
    }
    assert(s@.skip(i as int).take(w@.len() as int) =~= w@);
    true
}

/// The characters of `s`, in order.
pub fn chars_of(s: &str) -> (r: Vec<char>)
    ensures
        r@ == s@,
{
    let n = s.unicode_len();
    let mut r: Vec<char> = Vec::new();
    let mut i: usize = 0;
    while i < n
        invariant
            n == s@.len(),
            i <= n,
            r@ == s@.take(i as int),
        decreases n - i,
    {
        r.push(s.get_char(i));
        i = i + 1;
        assert(r@ =~= s@.take(i as int));
    }
    assert(r@ =~= s@);
    r
}

} // verus!

verus! {

/// The one-character text of the digit `d`.
fn digit_text(d: u64) -> (r: &'static str)
    requires
        d < 10,
    ensures
        r@ == seq![digit_char(d as nat)],
{
    let r = match d {
        0 => {
            proof { reveal_strlit("0"); }
            "0"
        },
        1 => {
            proof { reveal_strlit("1"); }
            "1"
        },
        2 => {
            proof { reveal_strlit("2"); }
            "2"
        },
        3 => {
            proof { reveal_strlit("3"); }
            "3"
        },
        4 => {
            proof { reveal_strlit("4"); }
            "4"
        },
        5 => {
            proof { reveal_strlit("5"); }
            "5"
        },
        6 => {
            proof { reveal_strlit("6"); }
            "6"
        },
        7 => {
            proof { reveal_strlit("7"); }
            "7"
        },
        8 => {
            proof { reveal_strlit("8"); }
            "8"
        },
        _ => {
            proof { reveal_strlit("9"); }
            "9"
        },
    };
    assert(r@ =~= seq![digit_char(d as nat)]);
    r
}

/// Appends the decimal notation of `n`.
pub fn push_decimal(out: &mut String, n: u64)
    ensures
        final(out)@ == old(out)@ + decimal(n as nat),
    decreases n,
{
    if n >= 10 {
        push_decimal(out, n / 10);
    }
    out.append(digit_text(n % 10));
    proof {
        if n >= 10 {
            assert(final(out)@ =~= old(out)@ + decimal(n as nat));
        } else {
            assert(final(out)@ =~= old(out)@ + decimal(n as nat));
        }
    }
}

pub proof fn lemma_decimal_prefix(d: Seq<char>, k: int)
    requires
        0 <= k <= d.len(),
    ensures
        decimal_value(d.take(k)) <= decimal_value(d),
    decreases d.len(),
{
    if k == d.len() {
        assert(d.take(k) =~= d);
    } else {
        assert(d.drop_last().take(k) =~= d.take(k));
        lemma_decimal_prefix(d.drop_last(), k);
    }
}

/// Value of the digits of `s` in `[a, b)`, where it fits an unsigned 64-bit
/// integer.
pub fn decimal_in(s: &Vec<char>, a: usize, b: usize) -> (r: Option<u64>)
    requires
        a <= b <= s@.len(),
        forall|j: int| a <= j < b ==> is_digit(#[trigger] s@[j]),
    ensures
        r is Some <==> decimal_value(s@.subrange(a as int, b as int)) <= u64::MAX,
        r matches Some(v) ==> v == decimal_value(s@.subrange(a as int, b as int)),
{
    let mut v: u64 = 0;
    let mut j: usize = a;
    while j < b
        invariant
            a <= j <= b <= s@.len(),
            forall|i: int| a <= i < b ==> is_digit(#[trigger] s@[i]),
            v == decimal_value(s@.subrange(a as int, j as int)),
        decreases b - j,
    {
        let c = s[j];
        let digit = (c as u32 - '0' as u32) as u64;
        proof {
            let d = s@.subrange(a as int, (j + 1) as int);
            assert(d.drop_last() =~= s@.subrange(a as int, j as int));
            assert(digit == digit_value(d.last()));
            assert(d =~= s@.subrange(a as int, b as int).take(j + 1 - a));
            lemma_decimal_prefix(s@.subrange(a as int, b as int), j + 1 - a);
        }
        match v.checked_mul(10) {
            Some(t) => match t.checked_add(digit) {
                Some(w) => {
                    v = w;
                },
                None => {
                    return None;
                },
            },
            None => {
                return None;
            },
        }
        j = j + 1;
    }
    Some(v)
}

/// The characters of `s` from `i` on are exactly the word `w`.
pub fn word_is(s: &Vec<char>, i: usize, w: &[char]) -> (r: bool)
    requires
        i <= s@.len(),
    ensures
        r == (s@.skip(i as int) == w@),
{
    let t = Ghost(s@.skip(i as int));
    if word_at(s, i, w) && s.len() - i == w.len() {
        assert(t@.take(w@.len() as int) =~= t@);
        true
    } else {
        proof {
            if t@ == w@ {
                assert(t@.take(w@.len() as int) =~= t@);
            }
        }
        false
    }
}

} // verus!
