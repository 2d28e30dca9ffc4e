//! Verified text utilities shared by the ASCII scanners: line and token
//! splitting, trimming, and string comparison.
//!
//! Line endings are handled from the content itself: text is split at
//! `'\n'` and one trailing `'\r'` is stripped from each line, so both
//! conventions are accepted regardless of the host platform.

use vstd::prelude::*;

verus! {

/// The separator classes the scanners split on.
#[derive(Clone, Copy, PartialEq, Eq, Structural, Debug)]
pub enum SepKind {
    Newline,
    Space,
    Whitespace,
    Slash,
    Dot,
    Exp,
}

/// Whether `c` separates segments under `k`.
pub open spec fn is_sep(k: SepKind, c: char) -> bool {
    match k {
        SepKind::Newline => c == '\n',
        SepKind::Space => c == ' ',
        SepKind::Whitespace => c == ' ' || c == '\t' || c == '\r',
        SepKind::Slash => c == '/',
        SepKind::Dot => c == '.',
        SepKind::Exp => c == 'e' || c == 'E',
    }
}

/// Decides `is_sep` on a concrete character.
pub fn sep_matches(k: SepKind, c: char) -> (r: bool)
    ensures
        r == is_sep(k, c),
{
    match k {
        SepKind::Newline => c == '\n',
        SepKind::Space => c == ' ',
        SepKind::Whitespace => c == ' ' || c == '\t' || c == '\r',
        SepKind::Slash => c == '/',
        SepKind::Dot => c == '.',
        SepKind::Exp => c == 'e' || c == 'E',
    }
}

/// Index of the first separator of class `k` in `s`, or `s.len()` if none.
pub open spec fn first_sep(s: Seq<char>, k: SepKind) -> nat
    decreases s.len(),
{
    if s.len() == 0 {
        0
    } else if is_sep(k, s[0]) {
        0
    } else {
        1 + first_sep(s.drop_first(), k)
    }
}

pub proof fn lemma_first_sep_is(s: Seq<char>, k: SepKind, n: int)
    requires
        0 <= n <= s.len(),
        forall|j: int| 0 <= j < n ==> !is_sep(k, s[j]),
        n < s.len() ==> is_sep(k, s[n]),
    ensures
        first_sep(s, k) == n,
    decreases s.len(),
{
    if s.len() == 0 {
    } else if is_sep(k, s[0]) {
        assert(n == 0);
    } else {
        assert(forall|j: int| 0 <= j < n - 1 ==> s.drop_first()[j] == s[j + 1]);
        lemma_first_sep_is(s.drop_first(), k, n - 1);
    }
}

/// The segments of `s` between separators of class `k`. A string with no
/// separator is one segment; every separator ends a segment, so `n`
/// separators yield `n + 1` segments, empty ones included.
pub open spec fn split_seps(s: Seq<char>, k: SepKind) -> Seq<Seq<char>>
    decreases s.len(),
{
    let n = first_sep(s, k);
    if n >= s.len() {
        seq![s]
    } else {
        seq![s.take(n as int)] + split_seps(s.skip(n as int + 1), k)
    }
}

pub proof fn lemma_split_seps_peel(s: Seq<char>, k: SepKind, n: int)
    requires
        0 <= n < s.len(),
        is_sep(k, s[n]),
        forall|j: int| 0 <= j < n ==> !is_sep(k, s[j]),
    ensures
        split_seps(s, k) == seq![s.take(n)] + split_seps(s.skip(n + 1), k),
{
    lemma_first_sep_is(s, k, n);
}

pub proof fn lemma_split_seps_whole(s: Seq<char>, k: SepKind)
    requires
        forall|j: int| 0 <= j < s.len() ==> !is_sep(k, s[j]),
    ensures
        split_seps(s, k) == seq![s],
{
    lemma_first_sep_is(s, k, s.len() as int);
}

/// The views of a sequence of strings.
pub open spec fn views(ss: Seq<String>) -> Seq<Seq<char>> {
    ss.map_values(|t: String| t@)
}

/// Splits `s` at every separator of class `k`.
pub fn split_by(s: &str, k: SepKind) -> (r: Vec<String>)
    ensures
        views(r@) == split_seps(s@, k),
{
    let n = s.unicode_len();
    let mut r: Vec<String> = Vec::new();
    let mut start: usize = 0;
    let mut i: usize = 0;
    proof {
        assert(s@.skip(0) =~= s@);
        assert(views(r@) + split_seps(s@, k) =~= split_seps(s@, k));
    }
    while i < n
        invariant
            n == s@.len(),
            start <= i <= n,
            forall|j: int| start <= j < i ==> !is_sep(k, s@[j]),
            views(r@) + split_seps(s@.skip(start as int), k) == split_seps(s@, k),
        decreases n - i,
    {
        let c = s.get_char(i);
        if sep_matches(k, c) {
            let token = String::from_str(s.substring_char(start, i));
            proof {
                let rest = s@.skip(start as int);
                assert(forall|j: int| 0 <= j < i - start ==> rest[j] == s@[start + j]);
                lemma_split_seps_peel(rest, k, i - start);
                assert(rest.take(i - start) =~= s@.subrange(start as int, i as int));
                assert(rest.skip(i - start + 1) =~= s@.skip(i + 1));
                assert(views(r@.push(token)) =~= views(r@) + seq![token@]);
                assert((views(r@) + seq![token@]) + split_seps(s@.skip(i + 1), k) =~= views(r@)
                    + (seq![rest.take(i - start)] + split_seps(rest.skip(i - start + 1), k)));
            }
            r.push(token);
            start = i + 1;
        }
        i = i + 1;
    }
    let token = String::from_str(s.substring_char(start, n));
    proof {
        let rest = s@.skip(start as int);
        assert(forall|j: int| 0 <= j < rest.len() ==> rest[j] == s@[start + j]);
        lemma_split_seps_whole(rest, k);
        assert(rest =~= s@.subrange(start as int, n as int));
        assert(views(r@.push(token)) =~= views(r@) + seq![token@]);
        assert(views(r@) + seq![rest] == views(r@) + split_seps(s@.skip(start as int), k));
    }
    r.push(token);
    r
}

/// A line with one trailing carriage return removed.
pub open spec fn strip_cr(l: Seq<char>) -> Seq<char> {
    if l.len() > 0 && l.last() == '\r' {
        l.drop_last()
    } else {
        l
    }
}

/// The lines of `s`: split at `'\n'`, each with a trailing `'\r'` removed.
pub open spec fn lines_of(s: Seq<char>) -> Seq<Seq<char>> {
    split_seps(s, SepKind::Newline).map_values(|l: Seq<char>| strip_cr(l))
}

/// Splits `s` into lines, accepting both line-ending conventions.
pub fn split_lines(s: &str) -> (r: Vec<String>)
    ensures
        views(r@) == lines_of(s@),
        r@.len() > 0,
{
    let raw = split_by(s, SepKind::Newline);
    let mut r: Vec<String> = Vec::new();
    let mut i: usize = 0;
    while i < raw.len()
        invariant
            i <= raw@.len(),
            r@.len() == i,
            forall|j: int| 0 <= j < i ==> r@[j]@ == strip_cr(views(raw@)[j]),
            views(raw@) == split_seps(s@, SepKind::Newline),
        decreases raw@.len() - i,
    {
        let line: &String = &raw[i];
        let len = line.as_str().unicode_len();
        if len > 0 && line.as_str().get_char(len - 1) == '\r' {
            let stripped = String::from_str(line.as_str().substring_char(0, len - 1));
            proof {
                assert(stripped@ =~= line@.drop_last());
            }
            r.push(stripped);
        } else {
            let kept = String::from_str(line.as_str());
            r.push(kept);
        }
        i = i + 1;
    }
    proof {
        assert(views(r@) =~= lines_of(s@));
        assert(split_seps(s@, SepKind::Newline).len() > 0);
    }
    r
}

/// Decides whether two strings hold the same characters.
pub fn str_eq(a: &str, b: &str) -> (r: bool)
    ensures
        r == (a@ == b@),
{
    let n = a.unicode_len();
    let m = b.unicode_len();
    if n != m {
        return false;
    }
    let mut i: usize = 0;
    while i < n
        invariant
            n == a@.len() == b@.len(),
            i <= n,
            forall|j: int| 0 <= j < i ==> a@[j] == b@[j],
        decreases n - i,
    {
        if a.get_char(i) != b.get_char(i) {
            return false;
        }
        i = i + 1;
    }
    proof {
        assert(a@ =~= b@);
    }
    true
}

/// Keeps the tokens that are non-empty and equal to neither dropped word.
pub open spec fn filter_tokens(ts: Seq<Seq<char>>, drop1: Seq<char>, drop2: Seq<char>) -> Seq<
    Seq<char>,
>
    decreases ts.len(),
{
    if ts.len() == 0 {
        Seq::empty()
    } else {
        filter_tokens(ts.drop_last(), drop1, drop2) + if ts.last().len() > 0 && ts.last() != drop1
            && ts.last() != drop2 {
            seq![ts.last()]
        } else {
            Seq::empty()
        }
    }
}

/// Filters a token list, dropping empty tokens and the two given words.
pub fn filter_tokens_exec(ts: &Vec<String>, drop1: &str, drop2: &str) -> (r: Vec<String>)
    ensures
        views(r@) == filter_tokens(views(ts@), drop1@, drop2@),
{
    let mut r: Vec<String> = Vec::new();
    let mut i: usize = 0;
    while i < ts.len()
        invariant
            i <= ts@.len(),
            views(r@) == filter_tokens(views(ts@).take(i as int), drop1@, drop2@),
        decreases ts@.len() - i,
    {
        let t: &String = &ts[i];
        let keep = !t.as_str().is_empty() && !str_eq(t.as_str(), drop1) && !str_eq(
            t.as_str(),
            drop2,
        );
        proof {
            let pre = views(ts@).take(i as int);
            let cur = views(ts@).take(i + 1);
            assert(cur.drop_last() =~= pre);
            assert(cur.last() == ts@[i as int]@);
            if keep {
                assert(views(r@.push(ts@[i as int])) =~= views(r@) + seq![ts@[i as int]@]);
            }
        }
        if keep {
            let kept = String::from_str(t.as_str());
            proof {
                assert(views(r@.push(kept)) =~= views(r@) + seq![kept@]);
            }
            r.push(kept);
        }
        i = i + 1;
    }
    proof {
        assert(views(ts@).take(ts@.len() as int) =~= views(ts@));
    }
    r
}

/// Whether some token equals `kw`.
pub open spec fn has_token(ts: Seq<Seq<char>>, kw: Seq<char>) -> bool {
    exists|i: int| 0 <= i < ts.len() && ts[i] == kw
}

/// Decides whether any token of `ts` equals `kw`.
pub fn has_token_exec(ts: &Vec<String>, kw: &str) -> (r: bool)
    ensures
        r == has_token(views(ts@), kw@),
{
    let mut i: usize = 0;
    while i < ts.len()
        invariant
            i <= ts@.len(),
            forall|j: int| 0 <= j < i ==> views(ts@)[j] != kw@,
        decreases ts@.len() - i,
    {
        if str_eq(ts[i].as_str(), kw) {
            assert(views(ts@)[i as int] == kw@);
            return true;
        }
        i = i + 1;
    }
    false
}

/// Whether `c` counts as surrounding whitespace when a name is trimmed.
pub open spec fn is_space(c: char) -> bool {
    c == ' ' || c == '\t' || c == '\r'
}

/// Decides `is_space` on a concrete character.
pub fn is_space_char(c: char) -> (r: bool)
    ensures
        r == is_space(c),
{
    c == ' ' || c == '\t' || c == '\r'
}

/// `s` without leading whitespace.
pub open spec fn trim_left(s: Seq<char>) -> Seq<char>
    decreases s.len(),
{
    if s.len() > 0 && is_space(s[0]) {
        trim_left(s.drop_first())
    } else {
        s
    }
}

/// `s` without trailing whitespace.
pub open spec fn trim_right(s: Seq<char>) -> Seq<char>
    decreases s.len(),
{
    if s.len() > 0 && is_space(s.last()) {
        trim_right(s.drop_last())
    } else {
        s
    }
}

/// `s` without surrounding whitespace.
pub open spec fn trim_spaces(s: Seq<char>) -> Seq<char> {
    trim_right(trim_left(s))
}

proof fn lemma_trim_left_skip(s: Seq<char>, n: int)
    requires
        0 <= n <= s.len(),
        forall|j: int| 0 <= j < n ==> is_space(s[j]),
        n < s.len() ==> !is_space(s[n]),
    ensures
        trim_left(s) == s.skip(n),
    decreases s.len(),
{
    if n == 0 {
        assert(s.skip(0) =~= s);
    } else {
        assert(forall|j: int| 0 <= j < n - 1 ==> s.drop_first()[j] == s[j + 1]);
        lemma_trim_left_skip(s.drop_first(), n - 1);
        assert(s.drop_first().skip(n - 1) =~= s.skip(n));
    }
}

proof fn lemma_trim_right_take(s: Seq<char>, n: int)
    requires
        0 <= n <= s.len(),
        forall|j: int| n <= j < s.len() ==> is_space(s[j]),
        n > 0 ==> !is_space(s[n - 1]),
    ensures
        trim_right(s) == s.take(n),
    decreases s.len(),
{
    if n == s.len() {
        assert(s.take(n) =~= s);
    } else {
        assert(forall|j: int| 0 <= j < s.len() - 1 ==> s.drop_last()[j] == s[j]);
        lemma_trim_right_take(s.drop_last(), n);
        assert(s.drop_last().take(n) =~= s.take(n));
    }
}

/// Removes surrounding spaces, tabs and carriage returns.
pub fn trim_str(s: &str) -> (r: String)
    ensures
        r@ == trim_spaces(s@),
{
    let n = s.unicode_len();
    let mut start: usize = 0;
    while start < n && is_space_char(s.get_char(start))
        invariant
            n == s@.len(),
            start <= n,
            forall|j: int| 0 <= j < start ==> is_space(s@[j]),
        decreases n - start,
    {
        start = start + 1;
    }
    proof {
        lemma_trim_left_skip(s@, start as int);
    }
    let mut end: usize = n;
    while end > start && is_space_char(s.get_char(end - 1))
        invariant
            n == s@.len(),
            start <= end <= n,
            forall|j: int| end <= j < n ==> is_space(s@[j]),
        decreases end,
    {
        end = end - 1;
    }
    let r = String::from_str(s.substring_char(start, end));
    proof {
        let t = s@.skip(start as int);
        assert(forall|j: int| 0 <= j < t.len() ==> t[j] == s@[start + j]);
        lemma_trim_right_take(t, end - start);
        assert(t.take(end - start) =~= s@.subrange(start as int, end as int));
    }
    r
}

/// Whether every byte is in the seven-bit ASCII range.
pub open spec fn all_ascii(b: Seq<u8>) -> bool {
    forall|i: int| 0 <= i < b.len() ==> b[i] < 128
}

/// The characters of a byte sequence read as ASCII.
pub open spec fn ascii_chars(b: Seq<u8>) -> Seq<char> {
    b.map_values(|x: u8| x as char)
}

/// The characters a byte sequence decodes to under UTF-8, where it is
/// valid UTF-8; the decoding is a function of the bytes alone.
pub uninterp spec fn utf8_chars(b: Seq<u8>) -> Seq<char>;

/// Relies on `String::from_utf8`: the decoding depends on the bytes
/// alone; ASCII bytes are valid UTF-8 and decode to the identical
/// sequence of characters; non-UTF-8 input yields `None`.
#[verifier::external_body]
pub fn bytes_to_string(bytes: &Vec<u8>) -> (r: Option<String>)
    ensures
        r is Some ==> r->Some_0@ == utf8_chars(bytes@),
        all_ascii(bytes@) ==> r is Some,
        r is Some && all_ascii(bytes@) ==> r->Some_0@ == ascii_chars(bytes@),
{
    match String::from_utf8(bytes.clone()) {
        Ok(s) => Some(s),
        Err(_) => None,
    }
}

} // verus!
