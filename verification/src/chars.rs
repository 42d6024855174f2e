//! Character-level text helpers shared by the tokenizer and the field
//! parsers: conversion between `String`/`&str` and `Vec<char>`, whitespace
//! trimming, and comparison of a character buffer against a literal.

use vstd::prelude::*;
use crate::ident::canon_char;
use crate::ident::canon_of;

verus! {

/// Relies on String::push: appends exactly the given character at the end
/// of the string.
#[verifier::external_body]
pub fn push_char(s: &mut String, c: char)
    ensures
        final(s)@ == old(s)@.push(c),
{
    s.push(c);
}

/// Builds an owned string whose characters are exactly `v`.
pub fn string_from_chars(v: &[char]) -> (r: String)
    ensures
        r@ == v@,
{
    let mut s = String::new();
    let mut i: usize = 0;
    while i < v.len()
        invariant
            i <= v@.len(),
            s@ == v@.take(i as int),
        decreases v@.len() - i,
    {
        push_char(&mut s, v[i]);
        proof {
            assert(v@.take(i as int).push(v@[i as int]) =~= v@.take(i as int + 1));
        }
        i = i + 1;
    }
    proof {
        assert(v@.take(v@.len() as int) =~= v@);
    }
    s
}

/// The characters of a string, in order.
pub fn chars_of(s: &str) -> (r: Vec<char>)
    ensures
        r@ == s@,
{
    let n = s.unicode_len();
    let mut r: Vec<char> = Vec::new();
    let mut i: usize = 0;
    while i < n
        invariant
            n == s@.len(),
            i <= n,
            r@ == s@.take(i as int),
        decreases n - i,
    {
        r.push(s.get_char(i));
        proof {
            assert(s@.take(i as int).push(s@[i as int]) =~= s@.take(i as int + 1));
        }
        i = i + 1;
    }
    proof {
        assert(s@.take(n as int) =~= s@);
    }
    r
}

/// Whether a character buffer holds exactly the characters of `s`.
pub fn chars_eq_str(w: &[char], s: &str) -> (r: bool)
    ensures
        r == (w@ == s@),
{
    let n = s.unicode_len();
    if w.len() != n {
        proof {
            assert(w@ != s@);
        }
        return false;
    }
    let mut i: usize = 0;
    while i < n
        invariant
            n == s@.len(),
            w@.len() == n,
            i <= n,
            forall|j: int| 0 <= j < i ==> w@[j] == s@[j],
        decreases n - i,
    {
        if w[i] != s.get_char(i) {
            proof {
                assert(w@[i as int] != s@[i as int]);
            }
            return false;
        }
        i = i + 1;
    }
    proof {
        assert(w@ =~= s@);
    }
    true
}

/// Directive-level whitespace: the blank and the horizontal tab.
pub open spec fn is_ws(c: char) -> bool {
    c == ' ' || c == '\t'
}

/// How many leading characters of `s` satisfy `p`.
pub open spec fn count_leading(s: Seq<char>, p: spec_fn(char) -> bool) -> int
    decreases s.len(),
{
    if s.len() == 0 || !p(s[0]) {
        0int
    } else {
        1 + count_leading(s.drop_first(), p)
    }
}

/// `count_leading` is determined by the first index where `p` fails.
pub proof fn lemma_count_leading_at(s: Seq<char>, p: spec_fn(char) -> bool, k: int)
    requires
        0 <= k <= s.len(),
        forall|i: int| 0 <= i < k ==> p(#[trigger] s[i]),
        k == s.len() || !p(s[k]),
    ensures
        count_leading(s, p) == k,
    decreases k,
{
    if k > 0 {
        lemma_count_leading_at(s.drop_first(), p, k - 1);
    }
}

/// How many trailing characters of `s` satisfy `p`.
pub open spec fn count_trailing(s: Seq<char>, p: spec_fn(char) -> bool) -> int
    decreases s.len(),
{
    if s.len() == 0 || !p(s.last()) {
        0int
    } else {
        1 + count_trailing(s.drop_last(), p)
    }
}

/// `count_trailing` is determined by the last index where `p` fails.
pub proof fn lemma_count_trailing_at(s: Seq<char>, p: spec_fn(char) -> bool, k: int)
    requires
        0 <= k <= s.len(),
        forall|i: int| s.len() - k <= i < s.len() ==> p(#[trigger] s[i]),
        k == s.len() || !p(s[s.len() - k - 1]),
    ensures
        count_trailing(s, p) == k,
    decreases k,
{
    if k > 0 {
        lemma_count_trailing_at(s.drop_last(), p, k - 1);
    }
}

/// `s` with leading and trailing whitespace removed.
pub open spec fn spec_trim(s: Seq<char>) -> Seq<char> {
    let t = s.skip(count_leading(s, |c: char| is_ws(c)));
    t.take(t.len() - count_trailing(t, |c: char| is_ws(c)))
}

/// The index of the first non-whitespace character at or after `from`.
pub fn scan_non_ws(v: &[char], from: usize) -> (r: usize)
    requires
        from <= v@.len(),
    ensures
        from <= r <= v@.len(),
        r - from == count_leading(v@.skip(from as int), |c: char| is_ws(c)),
        forall|i: int| from <= i < r ==> is_ws(#[trigger] v@[i]),
        r < v@.len() ==> !is_ws(v@[r as int]),
    decreases v@.len() - from,
{
    let mut i: usize = from;
    while i < v.len() && is_ws_exec(v[i])
        invariant
            from <= i <= v@.len(),
            forall|j: int| from <= j < i ==> is_ws(#[trigger] v@[j]),
        decreases v@.len() - i,
    {
        i = i + 1;
    }
    proof {
        let p = |c: char| is_ws(c);
        let t = v@.skip(from as int);
        assert(forall|j: int| 0 <= j < i - from ==> p(#[trigger] t[j]));
        lemma_count_leading_at(t, p, i as int - from as int);
    }
    i
}

/// Executable form of `is_ws`.
pub fn is_ws_exec(c: char) -> (r: bool)
    ensures
        r == is_ws(c),
{
    c == ' ' || c == '\t'
}

/// Copies `v[from .. to]` into a fresh buffer.
pub fn copy_range(v: &[char], from: usize, to: usize) -> (r: Vec<char>)
    requires
        from <= to <= v@.len(),
    ensures
        r@ == v@.subrange(from as int, to as int),
{
    let mut r: Vec<char> = Vec::new();
    let mut i: usize = from;
    while i < to
        invariant
            from <= i <= to <= v@.len(),
            r@ == v@.subrange(from as int, i as int),
        decreases to - i,
    {
        r.push(v[i]);
        proof {
            assert(v@.subrange(from as int, i as int).push(v@[i as int]) =~= v@.subrange(
                from as int,
                i as int + 1,
            ));
        }
        i = i + 1;
    }
    r
}

/// The trimmed span of `v`: leading and trailing whitespace removed.
pub fn trim_chars(v: &[char]) -> (r: Vec<char>)
    ensures
        r@ == spec_trim(v@),
{
    let lo = scan_non_ws(v, 0);
    let mut hi: usize = v.len();
    while hi > lo && is_ws_exec(v[hi - 1])
        invariant
            lo <= hi <= v@.len(),
            forall|j: int| 0 <= j < lo ==> is_ws(#[trigger] v@[j]),
            lo < v@.len() ==> !is_ws(v@[lo as int]),
            forall|j: int| hi <= j < v@.len() ==> is_ws(#[trigger] v@[j]),
        decreases hi,
    {
        hi = hi - 1;
    }
    let r = copy_range(v, lo, hi);
    proof {
        let p = |c: char| is_ws(c);
        assert(v@.skip(0) =~= v@);
        lemma_count_leading_at(v@, p, lo as int);
        let t = v@.skip(lo as int);
        assert(forall|j: int| t.len() - (t.len() - (hi - lo)) <= j < t.len() ==> p(#[trigger] t[j]))
            by {
            assert(forall|j: int| hi - lo <= j < t.len() ==> p(#[trigger] t[j]));
        }
        if hi > lo {
            assert(!p(t[hi - lo - 1]));
        }
        lemma_count_trailing_at(t, p, t.len() - (hi as int - lo as int));
        assert(t.take(hi as int - lo as int) =~= v@.subrange(lo as int, hi as int));
    }
    r
}

/// The uppercased copy of `v`, character by character.
pub fn upper_chars(v: &[char]) -> (r: Vec<char>)
    ensures
        r@ == v@.map_values(|c: char| canon_char(c)),
{
    let mut r: Vec<char> = Vec::new();
    let mut i: usize = 0;
    while i < v.len()
        invariant
            i <= v@.len(),
            r@ == v@.take(i as int).map_values(|c: char| canon_char(c)),
        decreases v@.len() - i,
    {
        r.push(canon_of(v[i]));
        proof {
            assert(v@.take(i as int + 1).map_values(|c: char| canon_char(c)) =~= v@.take(
                i as int,
            ).map_values(|c: char| canon_char(c)).push(canon_char(v@[i as int])));
        }
        i = i + 1;
    }
    proof {
        assert(v@.take(v@.len() as int) =~= v@);
    }
    r
}

} // verus!
