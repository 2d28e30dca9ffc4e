//! Numeric token grammars.
//!
//! Face indices are unsigned decimal numerals (an optional `+` sign, then
//! digits); a value that does not fit the machine word is rejected like a
//! malformed one. Attribute components are decimal floating-point
//! literals: sign, digits with at most one dot, an optional exponent, or
//! the special words `inf`, `infinity` and `nan` in any letter case.

use vstd::arithmetic::div_mod::lemma_fundamental_div_mod;
use vstd::prelude::*;

use crate::text::{first_sep, lemma_first_sep_is, sep_matches, SepKind};

verus! {

/// Whether `c` is a decimal digit.
pub open spec fn is_digit(c: char) -> bool {
    48 <= c as u32 <= 57
}

/// Whether every character of `s` is a decimal digit; an empty `s` passes.
pub open spec fn only_digits(s: Seq<char>) -> bool {
    forall|j: int| 0 <= j < s.len() ==> is_digit(s[j])
}

/// `s` without one leading `+` or `-` sign.
pub open spec fn strip_sign(s: Seq<char>) -> Seq<char> {
    if s.len() > 0 && (s[0] == '+' || s[0] == '-') {
        s.skip(1)
    } else {
        s
    }
}

/// `s` without one leading `+` sign, the body of an unsigned numeral.
pub open spec fn uint_body(s: Seq<char>) -> Seq<char> {
    if s.len() > 0 && s[0] == '+' {
        s.skip(1)
    } else {
        s
    }
}

/// Whether `s` is an unsigned decimal numeral.
pub open spec fn is_uint_token(s: Seq<char>) -> bool {
    uint_body(s).len() > 0 && only_digits(uint_body(s))
}

/// The value of a digit string read in base ten.
pub open spec fn uint_value(s: Seq<char>) -> int
    decreases s.len(),
{
    if s.len() == 0 {
        0
    } else {
        uint_value(s.drop_last()) * 10 + (s.last() as u32 - 48)
    }
}

/// The parsed value of an unsigned numeral token, if it is one and fits.
pub open spec fn parse_uint(s: Seq<char>) -> Option<usize> {
    if is_uint_token(s) && uint_value(uint_body(s)) <= usize::MAX {
        Some(uint_value(uint_body(s)) as usize)
    } else {
        None
    }
}

proof fn lemma_uint_value_nonneg(s: Seq<char>)
    requires
        only_digits(s),
    ensures
        uint_value(s) >= 0,
    decreases s.len(),
{
    if s.len() > 0 {
        assert(forall|j: int| 0 <= j < s.len() - 1 ==> s.drop_last()[j] == s[j]);
        lemma_uint_value_nonneg(s.drop_last());
    }
}

proof fn lemma_uint_value_prefix(s: Seq<char>, m: int)
    requires
        only_digits(s),
        0 <= m <= s.len(),
    ensures
        uint_value(s.take(m)) <= uint_value(s),
    decreases s.len() - m,
{
    if m == s.len() {
        assert(s.take(m) =~= s);
    } else {
        lemma_uint_value_prefix(s, m + 1);
        assert(s.take(m + 1).drop_last() =~= s.take(m));
        assert(only_digits(s.take(m)));
        lemma_uint_value_nonneg(s.take(m));
        assert(uint_value(s.take(m + 1)) == uint_value(s.take(m)) * 10 + (s[m] as u32 - 48));
    }
}

/// Parses an unsigned numeral token, rejecting malformed tokens and
/// values that overflow the machine word — exactly the tokens on which
/// the standard unsigned parse fails.
pub fn parse_usize_token(s: &str) -> (r: Option<usize>)
    ensures
        r == parse_uint(s@),
{
    let n = s.unicode_len();
    let mut start: usize = 0;
    if n > 0 && s.get_char(0) == '+' {
        start = 1;
    }
    proof {
        assert(uint_body(s@) =~= s@.subrange(start as int, n as int));
    }
    if start >= n {
        return None;
    }
    let mut acc: usize = 0;
    let mut i: usize = start;
    while i < n
        invariant
            n == s@.len(),
            start <= i <= n,
            uint_body(s@) =~= s@.subrange(start as int, n as int),
            forall|j: int| start <= j < i ==> is_digit(s@[j]),
            acc == uint_value(s@.subrange(start as int, i as int)),
        decreases n - i,
    {
        let c = s.get_char(i);
        let v = c as u32;
        if v < 48 || v > 57 {
            proof {
                assert(uint_body(s@)[i - start] == s@[i as int]);
                assert(!only_digits(uint_body(s@)));
            }
            return None;
        }
        let d = (v - 48) as usize;
        proof {
            assert(s@.subrange(start as int, i + 1).drop_last() =~= s@.subrange(
                start as int,
                i as int,
            ));
            assert(uint_value(s@.subrange(start as int, i + 1)) == acc * 10 + d);
        }
        if acc > (usize::MAX - d) / 10 {
            proof {
                lemma_fundamental_div_mod((usize::MAX - d) as int, 10);
                assert(acc * 10 + d > usize::MAX);
                if only_digits(uint_body(s@)) {
                    lemma_uint_value_prefix(uint_body(s@), i + 1 - start);
                    assert(uint_body(s@).take(i + 1 - start) =~= s@.subrange(start as int, i + 1));
                    assert(uint_value(uint_body(s@)) > usize::MAX);
                }
            }
            return None;
        }
        acc = acc * 10 + d;
        i = i + 1;
    }
    proof {
        assert(s@.subrange(start as int, n as int) =~= uint_body(s@));
        lemma_uint_value_nonneg(uint_body(s@));
    }
    Some(acc)
}

/// The letter-case-folded code point of `c`.
pub open spec fn lower_u32(c: char) -> int {
    if 65 <= c as u32 <= 90 {
        c as u32 + 32
    } else {
        c as u32 as int
    }
}

/// Whether `s` and `t` are equal up to letter case.
pub open spec fn lower_eq(s: Seq<char>, t: Seq<char>) -> bool {
    s.len() == t.len() && forall|j: int| 0 <= j < s.len() ==> lower_u32(s[j]) == lower_u32(t[j])
}

/// Folds the letter case of a concrete character.
fn lower_of(c: char) -> (r: u32)
    ensures
        r == lower_u32(c),
{
    let v = c as u32;
    if v >= 65 && v <= 90 {
        v + 32
    } else {
        v
    }
}

/// Decides `lower_eq` between `s@.subrange(a, b)` and `t@`.
fn lower_eq_range(s: &str, a: usize, b: usize, t: &str) -> (r: bool)
    requires
        a <= b <= s@.len(),
    ensures
        r == lower_eq(s@.subrange(a as int, b as int), t@),
{
    let tl = t.unicode_len();
    if b - a != tl {
        return false;
    }
    let mut j: usize = 0;
    while j < tl
        invariant
            a <= b <= s@.len(),
            tl == t@.len(),
            b - a == tl,
            j <= tl,
            forall|x: int| 0 <= x < j ==> lower_u32(s@[a + x]) == lower_u32(t@[x]),
        decreases tl - j,
    {
        if lower_of(s.get_char(a + j)) != lower_of(t.get_char(j)) {
            proof {
                assert(s@.subrange(a as int, b as int)[j as int] == s@[a + j]);
            }
            return false;
        }
        j = j + 1;
    }
    proof {
        assert(forall|x: int|
            0 <= x < tl ==> s@.subrange(a as int, b as int)[x] == s@[a + x]);
    }
    true
}

/// Whether `s` spells one of the special floating-point words.
pub open spec fn is_special_float(s: Seq<char>) -> bool {
    lower_eq(s, "inf"@) || lower_eq(s, "infinity"@) || lower_eq(s, "nan"@)
}

/// Whether `m` is a decimal significand: digits with at most one dot and
/// at least one digit.
pub open spec fn is_mantissa(m: Seq<char>) -> bool {
    let d = first_sep(m, SepKind::Dot);
    if d >= m.len() {
        m.len() > 0 && only_digits(m)
    } else {
        only_digits(m.take(d as int)) && only_digits(m.skip(d as int + 1)) && m.len() >= 2
    }
}

/// Whether `t` is a decimal floating-point literal — the tokens the
/// standard floating-point parse accepts.
pub open spec fn is_float_token(t: Seq<char>) -> bool {
    let s = strip_sign(t);
    is_special_float(s) || {
        let e = first_sep(s, SepKind::Exp);
        if e >= s.len() {
            is_mantissa(s)
        } else {
            is_mantissa(s.take(e as int)) && {
                let x = strip_sign(s.skip(e as int + 1));
                x.len() > 0 && only_digits(x)
            }
        }
    }
}

/// Finds the first separator of class `k` in `s@.subrange(a, b)`.
fn find_sep_in(s: &str, a: usize, b: usize, k: SepKind) -> (r: usize)
    requires
        a <= b <= s@.len(),
    ensures
        a <= r <= b,
        r - a == first_sep(s@.subrange(a as int, b as int), k),
{
    let mut i: usize = a;
    while i < b && !sep_matches(k, s.get_char(i))
        invariant
            a <= i <= b <= s@.len(),
            forall|j: int| a <= j < i ==> !crate::text::is_sep(k, s@[j]),
        decreases b - i,
    {
        i = i + 1;
    }
    proof {
        let sub = s@.subrange(a as int, b as int);
        assert(forall|j: int| 0 <= j < sub.len() ==> sub[j] == s@[a + j]);
        lemma_first_sep_is(sub, k, i - a);
    }
    i
}

/// Decides whether `s@.subrange(a, b)` holds only digits.
fn all_digits_in(s: &str, a: usize, b: usize) -> (r: bool)
    requires
        a <= b <= s@.len(),
    ensures
        r == only_digits(s@.subrange(a as int, b as int)),
{
    let mut i: usize = a;
    while i < b
        invariant
            a <= i <= b <= s@.len(),
            forall|j: int| a <= j < i ==> is_digit(s@[j]),
        decreases b - i,
    {
        let v = s.get_char(i) as u32;
        if v < 48 || v > 57 {
            proof {
                assert(s@.subrange(a as int, b as int)[i - a] == s@[i as int]);
            }
            return false;
        }
        i = i + 1;
    }
    proof {
        assert(forall|j: int|
            0 <= j < b - a ==> s@.subrange(a as int, b as int)[j] == s@[a + j]);
    }
    true
}

/// Decides `is_mantissa` on `s@.subrange(a, b)`.
fn mantissa_in(s: &str, a: usize, b: usize) -> (r: bool)
    requires
        a <= b <= s@.len(),
    ensures
        r == is_mantissa(s@.subrange(a as int, b as int)),
{
    let d = find_sep_in(s, a, b, SepKind::Dot);
    proof {
        let sub = s@.subrange(a as int, b as int);
        assert(sub.take(d - a) =~= s@.subrange(a as int, d as int));
        if d < b {
            assert(sub.skip(d - a + 1) =~= s@.subrange(d + 1, b as int));
        }
    }
    if d >= b {
        b > a && all_digits_in(s, a, b)
    } else {
        all_digits_in(s, a, d) && all_digits_in(s, d + 1, b) && b - a >= 2
    }
}

/// Decides whether `s` is a decimal floating-point literal.
pub fn is_float_literal(s: &str) -> (r: bool)
    ensures
        r == is_float_token(s@),
{
    let n = s.unicode_len();
    let mut a: usize = 0;
    if n > 0 {
        let c = s.get_char(0);
        if c == '+' || c == '-' {
            a = 1;
        }
    }
    proof {
        assert(strip_sign(s@) =~= s@.subrange(a as int, n as int));
    }
    if lower_eq_range(s, a, n, "inf") || lower_eq_range(s, a, n, "infinity") || lower_eq_range(
        s,
        a,
        n,
        "nan",
    ) {
        return true;
    }
    let e = find_sep_in(s, a, n, SepKind::Exp);
    proof {
        let body = s@.subrange(a as int, n as int);
        assert(body.take(e - a) =~= s@.subrange(a as int, e as int));
        if e < n {
            assert(body.skip(e - a + 1) =~= s@.subrange(e + 1, n as int));
        }
    }
    let mantissa_ok = mantissa_in(s, a, e);
    if e < n {
        let mut x: usize = e + 1;
        if x < n {
            let c = s.get_char(x);
            if c == '+' || c == '-' {
                x = x + 1;
            }
        }
        proof {
            assert(strip_sign(s@.subrange(e + 1, n as int)) =~= s@.subrange(x as int, n as int));
        }
        mantissa_ok && x < n && all_digits_in(s, x, n)
    } else {
        mantissa_ok
    }
}

} // verus!
