//! Implicit-subtitle extraction. When no explicit `#SUBTITLE` is set, the
//! finalized title is scanned right to left for a trailing delimited span
//! — a full-width tilde pair or a double-quote pair — and, when one is
//! found, the title splits into a prefix and the delimited span with its
//! delimiters stripped. Other historical delimiter forms (dashes,
//! parentheses, brackets, double spaces) are deliberately not recognized,
//! since an explicit subtitle field now exists.

use vstd::prelude::*;
use crate::chars::count_trailing;
use crate::chars::is_ws;
use crate::chars::lemma_count_trailing_at;
use crate::chars::copy_range;
use crate::chars::is_ws_exec;

verus! {

/// A character that may close (and open) an implicit-subtitle span: the
/// full-width tildes or a straight or full-width double quote.
pub open spec fn is_delim(c: char) -> bool {
    c == '\u{FF5E}' || c == '\u{301C}' || c == '"' || c == '\u{FF02}'
}

/// Executable form of `is_delim`.
pub fn is_delim_exec(c: char) -> (r: bool)
    ensures
        r == is_delim(c),
{
    c == '\u{FF5E}' || c == '\u{301C}' || c == '"' || c == '\u{FF02}'
}

/// The rightmost index below `below` where `c` occurs in `s`.
pub open spec fn rfind_before(s: Seq<char>, c: char, below: int) -> Option<int>
    decreases below,
{
    if below <= 0 || below > s.len() {
        None
    } else if s[below - 1] == c {
        Some(below - 1)
    } else {
        rfind_before(s, c, below - 1)
    }
}

/// `s` with trailing whitespace removed.
pub open spec fn trim_end(s: Seq<char>) -> Seq<char> {
    s.take(s.len() - count_trailing(s, |c: char| is_ws(c)))
}

/// How a finalized title splits: the effective title and the implicit
/// subtitle, if a trailing delimited span exists. The span must end the
/// title; its opening delimiter is the rightmost earlier occurrence of
/// the same character; the prefix loses its trailing whitespace.
pub open spec fn split_title(t: Seq<char>) -> (Seq<char>, Option<Seq<char>>) {
    if t.len() >= 2 && is_delim(t.last()) {
        match rfind_before(t, t.last(), t.len() - 1) {
            Some(j) => (trim_end(t.take(j)), Some(t.subrange(j + 1, t.len() - 1))),
            None => (t, None),
        }
    } else {
        (t, None)
    }
}

/// Removes trailing whitespace from a buffer.
fn trim_end_exec(v: &[char], upto: usize) -> (r: Vec<char>)
    requires
        upto <= v@.len(),
    ensures
        r@ == trim_end(v@.subrange(0, upto as int)),
{
    let ghost s = v@.subrange(0, upto as int);
    let mut hi: usize = upto;
    while hi > 0 && is_ws_exec(v[hi - 1])
        invariant
            hi <= upto <= v@.len(),
            s == v@.subrange(0, upto as int),
            forall|j: int| hi <= j < upto ==> is_ws(#[trigger] s[j]),
        decreases hi,
    {
        hi = hi - 1;
    }
    let r = copy_range(v, 0, hi);
    proof {
        let p = |c: char| is_ws(c);
        if hi > 0 {
            assert(!p(s[hi - 1]));
        }
        lemma_count_trailing_at(s, p, upto as int - hi as int);
        assert(s.take(hi as int) =~= v@.subrange(0, hi as int));
    }
    r
}

/// Splits a finalized title into its effective title and implicit
/// subtitle, exactly as `split_title` describes.
pub fn split_title_exec(t: &[char]) -> (r: (Vec<char>, Option<Vec<char>>))
    ensures
        ({
            let (st, ssub) = split_title(t@);
            r.0@ == st && (match r.1 {
                Some(sub) => ssub == Some(sub@),
                None => ssub is None,
            })
        }),
{
    if t.len() < 2 || !is_delim_exec(t[t.len() - 1]) {
        return (copy_range(t, 0, t.len()), None);
    }
    let c = t[t.len() - 1];
    let below = t.len() - 1;
    let mut i: usize = below;
    while i > 0 && t[i - 1] != c
        invariant
            i <= below < t@.len(),
            c == t@.last(),
            forall|j: int| i <= j < below ==> t@[j] != c,
        decreases i,
    {
        i = i - 1;
    }
    proof {
        if i < below {
            lemma_rfind_skip(t@, c, i as int, below as int - 1);
        }
    }
    if i == 0 {
        proof {
            assert(rfind_before(t@, c, i as int) is None);
            if below > 0 {
                assert(rfind_before(t@, c, below as int) == rfind_before(t@, c, i as int));
            }
        }
        (copy_range(t, 0, t.len()), None)
    } else {
        proof {
            assert(t@[i as int - 1] == c);
            assert(rfind_before(t@, c, i as int) == Some(i as int - 1));
            if i < below {
                assert(rfind_before(t@, c, below as int) == Some(i as int - 1));
            }
        }
        let prefix = trim_end_exec(t, i - 1);
        let sub = copy_range(t, i, t.len() - 1);
        proof {
            assert(t@.subrange(0, i as int - 1) =~= t@.take(i as int - 1));
        }
        (prefix, Some(sub))
    }
}

/// Stepping the search bound left over non-matching characters does not
/// change the result of `rfind_before`.
pub proof fn lemma_rfind_skip(s: Seq<char>, c: char, i: int, k: int)
    requires
        0 <= i <= k < s.len(),
        forall|j: int| i <= j <= k ==> s[j] != c,
    ensures
        rfind_before(s, c, k + 1) == rfind_before(s, c, i),
    decreases k - i,
{
    if k > i {
        lemma_rfind_skip(s, c, i, k - 1);
    }
}

/// The finalized title and its (possibly implicit) subtitle.
#[derive(Clone, Debug)]
pub struct TitleParts {
    pub title: String,
    pub subtitle: Option<String>,
}

} // verus!
