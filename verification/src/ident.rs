//! Two-character base-36 identifiers that key the indexed directive tables.
//!
//! An identifier is a token of two characters over digits `0`-`9` and
//! letters `A`-`Z` (case-insensitive, canonicalized to uppercase), giving a
//! key space of 36 * 36 = 1296 slots per table family. Two identifiers are
//! equal exactly when their canonical forms match; internally an identifier
//! is stored as its base-36 value, so case has already been erased.

use vstd::prelude::*;

verus! {

/// Number of distinct identifiers: 36 * 36.
pub const IDENT_SPACE: u16 = 1296;

/// The base-36 digit value of one identifier character, or `None` when the
/// character lies outside the identifier alphabet. Lowercase and uppercase
/// letters map to the same value, which is what makes identifiers
/// case-insensitive.
pub open spec fn digit_val(c: char) -> Option<u8> {
    if '0' <= c && c <= '9' {
        Some(((c as int) - ('0' as int)) as u8)
    } else if 'A' <= c && c <= 'Z' {
        Some(((c as int) - ('A' as int) + 10) as u8)
    } else if 'a' <= c && c <= 'z' {
        Some(((c as int) - ('a' as int) + 10) as u8)
    } else {
        None
    }
}

/// The canonical (uppercase) form of one identifier character. Characters
/// outside the lowercase range are already canonical.
pub open spec fn canon_char(c: char) -> char {
    if 'a' <= c && c <= 'z' {
        (((c as int) - ('a' as int)) + ('A' as int)) as char
    } else {
        c
    }
}

/// The base-36 value of a two-character token, defined whenever both
/// characters lie in the identifier alphabet.
pub open spec fn code_of(c0: char, c1: char) -> Option<u16> {
    match (digit_val(c0), digit_val(c1)) {
        (Some(a), Some(b)) => Some((a * 36 + b) as u16),
        _ => None,
    }
}

/// A canonicalized two-character identifier, stored as its base-36 value.
#[derive(Clone, Copy, PartialEq, Eq, Structural, Debug)]
pub struct Identifier {
    code: u16,
}

impl View for Identifier {
    type V = u16;

    closed spec fn view(&self) -> u16 {
        self.code
    }
}

impl Identifier {
    /// Every identifier value lies inside the 36 * 36 key space.
    pub open spec fn wf(self) -> bool {
        self@ < IDENT_SPACE
    }

    /// Builds an identifier from its two characters, canonicalizing case;
    /// rejects characters outside the identifier alphabet.
    pub fn from_chars(c0: char, c1: char) -> (r: Option<Identifier>)
        ensures
            r is Some <==> code_of(c0, c1) is Some,
            r matches Some(id) ==> id@ == code_of(c0, c1)->0 && id.wf(),
    {
        let d0 = digit_of(c0);
        let d1 = digit_of(c1);
        match (d0, d1) {
            (Some(a), Some(b)) => Some(Identifier { code: (a as u16) * 36 + (b as u16) }),
            _ => None,
        }
    }

    /// The base-36 value of this identifier.
    pub fn code(&self) -> (r: u16)
        ensures
            r == self@,
    {
        self.code
    }

    /// The canonical (uppercase) characters of this identifier.
    pub fn chars(&self) -> (r: (char, char))
        requires
            self.wf(),
        ensures
            digit_val(r.0) == Some((self@ / 36) as u8),
            digit_val(r.1) == Some((self@ % 36) as u8),
            r.0 == canon_char(r.0),
            r.1 == canon_char(r.1),
    {
        (digit_char(self.code / 36), digit_char(self.code % 36))
    }
}

/// Executable form of `digit_val`.
pub fn digit_of(c: char) -> (r: Option<u8>)
    ensures
        r == digit_val(c),
{
    if '0' <= c && c <= '9' {
        Some((c as u8) - ('0' as u8))
    } else if 'A' <= c && c <= 'Z' {
        Some((c as u8) - ('A' as u8) + 10)
    } else if 'a' <= c && c <= 'z' {
        Some((c as u8) - ('a' as u8) + 10)
    } else {
        None
    }
}

/// The canonical character whose base-36 digit value is `d`.
fn digit_char(d: u16) -> (r: char)
    requires
        d < 36,
    ensures
        digit_val(r) == Some(d as u8),
        r == canon_char(r),
{
    if d < 10 {
        (('0' as u8) + (d as u8)) as char
    } else {
        (('A' as u8) + (d as u8) - 10) as char
    }
}

/// Executable form of `canon_char`.
pub fn canon_of(c: char) -> (r: char)
    ensures
        r == canon_char(c),
{
    if 'a' <= c && c <= 'z' {
        ((c as u8) - ('a' as u8) + ('A' as u8)) as char
    } else {
        c
    }
}

/// Canonicalization is case-insensitive: a token and its canonical
/// (uppercase) form denote the same identifier, so
/// `Identifier("aa") == Identifier("AA")`.
pub proof fn lemma_identifier_case_insensitive(c0: char, c1: char)
    ensures
        code_of(c0, c1) == code_of(canon_char(c0), canon_char(c1)),
{
}

/// Canonicalization is idempotent: canonicalizing an already canonical
/// character changes nothing.
pub proof fn lemma_canon_idempotent(c: char)
    ensures
        canon_char(canon_char(c)) == canon_char(c),
{
}

} // verus!
