//! The text decoder: detects the source byte encoding and yields the
//! decoded character stream, split into lines. UTF-8 is tried first with
//! a strict decode; on failure the remaining candidates are tried in a
//! fixed order that prefers Shift-JIS (the most common encoding in this
//! corpus), then EUC-JP, ISO-2022-JP and the two UTF-16 endiannesses,
//! taking the first whose decode contains no malformed sequence. Only
//! when every candidate fails is the input undetectable — the one fatal
//! error of the whole parser.

use vstd::prelude::*;
use vstd::utf8::decode_utf8;
use vstd::utf8::valid_utf8;
use crate::header::lemma_map_values_push;

verus! {

/// The clean Shift-JIS decoding of a byte sequence, when one exists.
pub uninterp spec fn sjis_decode(bytes: Seq<u8>) -> Option<Seq<char>>;

/// The clean EUC-JP decoding of a byte sequence, when one exists.
pub uninterp spec fn eucjp_decode(bytes: Seq<u8>) -> Option<Seq<char>>;

/// The clean ISO-2022-JP decoding of a byte sequence, when one exists.
pub uninterp spec fn iso2022jp_decode(bytes: Seq<u8>) -> Option<Seq<char>>;

/// The clean UTF-16 little-endian decoding of a byte sequence, when one
/// exists.
pub uninterp spec fn utf16le_decode(bytes: Seq<u8>) -> Option<Seq<char>>;

/// The clean UTF-16 big-endian decoding of a byte sequence, when one
/// exists.
pub uninterp spec fn utf16be_decode(bytes: Seq<u8>) -> Option<Seq<char>>;

/// An input size under which the decoders cannot overflow their buffer
/// size arithmetic.
pub const MAX_INPUT_BYTES: usize = 0x10000000;

/// Relies on std's str::from_utf8: it returns `Ok` exactly on valid
/// UTF-8 and then yields that decoding.
#[verifier::external_body]
fn decode_utf8_strict(b: &[u8]) -> (r: Option<String>)
    ensures
        r is Some <==> valid_utf8(b@),
        r matches Some(s) ==> s@ == decode_utf8(b@),
{
    match core::str::from_utf8(b) {
        Ok(s) => Some(s.to_owned()),
        Err(_) => None,
    }
}

/// Relies on encoding_rs's
/// Encoding::decode_without_bom_handling_and_without_replacement on
/// SHIFT_JIS: the whole buffer decoded, or `None` when any sequence is
/// malformed; the result depends on the bytes alone.
#[verifier::external_body]
fn decode_sjis(b: &[u8]) -> (r: Option<String>)
    requires
        b@.len() <= MAX_INPUT_BYTES,
    ensures
        (match r {
            Some(s) => sjis_decode(b@) == Some(s@),
            None => sjis_decode(b@) is None,
        }),
{
    match encoding_rs::SHIFT_JIS.decode_without_bom_handling_and_without_replacement(b) {
        Some(cow) => Some(cow.into_owned()),
        None => None,
    }
}

/// Relies on encoding_rs's
/// Encoding::decode_without_bom_handling_and_without_replacement on
/// EUC_JP: the whole buffer decoded, or `None` when any sequence is
/// malformed; the result depends on the bytes alone.
#[verifier::external_body]
fn decode_eucjp(b: &[u8]) -> (r: Option<String>)
    requires
        b@.len() <= MAX_INPUT_BYTES,
    ensures
        (match r {
            Some(s) => eucjp_decode(b@) == Some(s@),
            None => eucjp_decode(b@) is None,
        }),
{
    match encoding_rs::EUC_JP.decode_without_bom_handling_and_without_replacement(b) {
        Some(cow) => Some(cow.into_owned()),
        None => None,
    }
}

/// Relies on encoding_rs's
/// Encoding::decode_without_bom_handling_and_without_replacement on
/// ISO_2022_JP: the whole buffer decoded, or `None` when any sequence is
/// malformed; the result depends on the bytes alone.
#[verifier::external_body]
fn decode_iso2022jp(b: &[u8]) -> (r: Option<String>)
    requires
        b@.len() <= MAX_INPUT_BYTES,
    ensures
        (match r {
            Some(s) => iso2022jp_decode(b@) == Some(s@),
            None => iso2022jp_decode(b@) is None,
        }),
{
    match encoding_rs::ISO_2022_JP.decode_without_bom_handling_and_without_replacement(b) {
        Some(cow) => Some(cow.into_owned()),
        None => None,
    }
}

/// Relies on encoding_rs's
/// Encoding::decode_without_bom_handling_and_without_replacement on
/// UTF_16LE: the whole buffer decoded, or `None` when any sequence is
/// malformed; the result depends on the bytes alone.
#[verifier::external_body]
fn decode_utf16le(b: &[u8]) -> (r: Option<String>)
    requires
        b@.len() <= MAX_INPUT_BYTES,
    ensures
        (match r {
            Some(s) => utf16le_decode(b@) == Some(s@),
            None => utf16le_decode(b@) is None,
        }),
{
    match encoding_rs::UTF_16LE.decode_without_bom_handling_and_without_replacement(b) {
        Some(cow) => Some(cow.into_owned()),
        None => None,
    }
}

/// Relies on encoding_rs's
/// Encoding::decode_without_bom_handling_and_without_replacement on
/// UTF_16BE: the whole buffer decoded, or `None` when any sequence is
/// malformed; the result depends on the bytes alone.
#[verifier::external_body]
fn decode_utf16be(b: &[u8]) -> (r: Option<String>)
    requires
        b@.len() <= MAX_INPUT_BYTES,
    ensures
        (match r {
            Some(s) => utf16be_decode(b@) == Some(s@),
            None => utf16be_decode(b@) is None,
        }),
{
    match encoding_rs::UTF_16BE.decode_without_bom_handling_and_without_replacement(b) {
        Some(cow) => Some(cow.into_owned()),
        None => None,
    }
}

/// The text a byte sequence decodes to, under the detection policy:
/// strict UTF-8 first, then the first clean decode among Shift-JIS,
/// EUC-JP, ISO-2022-JP, UTF-16LE and UTF-16BE; `None` when every
/// candidate has a malformed sequence.
pub open spec fn decode_spec(b: Seq<u8>) -> Option<Seq<char>> {
    if valid_utf8(b) {
        Some(decode_utf8(b))
    } else if sjis_decode(b) is Some {
        sjis_decode(b)
    } else if eucjp_decode(b) is Some {
        eucjp_decode(b)
    } else if iso2022jp_decode(b) is Some {
        iso2022jp_decode(b)
    } else if utf16le_decode(b) is Some {
        utf16le_decode(b)
    } else {
        utf16be_decode(b)
    }
}

/// Detects the encoding and decodes, exactly as `decode_spec` states.
pub fn decode_text(b: &[u8]) -> (r: Option<String>)
    requires
        b@.len() <= MAX_INPUT_BYTES,
    ensures
        (match r {
            Some(s) => decode_spec(b@) == Some(s@),
            None => decode_spec(b@) is None,
        }),
{
    if let Some(s) = decode_utf8_strict(b) {
        return Some(s);
    }
    if let Some(s) = decode_sjis(b) {
        return Some(s);
    }
    if let Some(s) = decode_eucjp(b) {
        return Some(s);
    }
    if let Some(s) = decode_iso2022jp(b) {
        return Some(s);
    }
    if let Some(s) = decode_utf16le(b) {
        return Some(s);
    }
    if let Some(s) = decode_utf16be(b) {
        return Some(s);
    }
    None
}

/// A finished line: a trailing carriage return is stripped.
pub open spec fn line_done(cur: Seq<char>) -> Seq<char> {
    if cur.len() > 0 && cur.last() == '\r' {
        cur.drop_last()
    } else {
        cur
    }
}

/// The lines of `s` from a partial line `cur` onward: a newline finishes
/// the current line, and a non-empty final line is kept.
pub open spec fn split_rec(s: Seq<char>, cur: Seq<char>) -> Seq<Seq<char>>
    decreases s.len(),
{
    if s.len() == 0 {
        if cur.len() == 0 {
            Seq::empty()
        } else {
            seq![line_done(cur)]
        }
    } else if s[0] == '\n' {
        seq![line_done(cur)] + split_rec(s.drop_first(), Seq::empty())
    } else {
        split_rec(s.drop_first(), cur.push(s[0]))
    }
}

/// The lines of a decoded character stream.
pub open spec fn split_lines_spec(s: Seq<char>) -> Seq<Seq<char>> {
    split_rec(s, Seq::empty())
}

/// Strips a trailing carriage return.
fn line_done_exec(cur: Vec<char>) -> (r: Vec<char>)
    ensures
        r@ == line_done(cur@),
{
    let mut cur = cur;
    if cur.len() > 0 && cur[cur.len() - 1] == '\r' {
        cur.pop();
    }
    cur
}

/// Splits a decoded character stream into lines, exactly as
/// `split_lines_spec` states.
pub fn split_lines(s: &[char]) -> (r: Vec<Vec<char>>)
    ensures
        r@.map_values(|l: Vec<char>| l@) == split_lines_spec(s@),
{
    let ghost whole = s@;
    let mut lines: Vec<Vec<char>> = Vec::new();
    let mut cur: Vec<char> = Vec::new();
    let mut i: usize = 0;
    proof {
        assert(whole.skip(0) =~= whole);
        assert(lines@.map_values(|l: Vec<char>| l@) =~= Seq::<Seq<char>>::empty());
        assert(cur@ =~= Seq::<char>::empty());
    }
    while i < s.len()
        invariant
            i <= whole.len(),
            whole == s@,
            split_rec(whole, Seq::empty()) == lines@.map_values(|l: Vec<char>| l@) + split_rec(
                whole.skip(i as int),
                cur@,
            ),
        decreases whole.len() - i,
    {
        let c = s[i];
        proof {
            assert(whole.skip(i as int)[0] == whole[i as int]);
            assert(whole.skip(i as int).drop_first() =~= whole.skip(i as int + 1));
        }
        if c == '\n' {
            let ghost l0 = lines@;
            let ghost c0 = cur@;
            let done = line_done_exec(cur);
            lines.push(done);
            cur = Vec::new();
            proof {
                lemma_map_values_push(l0, |l: Vec<char>| l@, done);
                assert(l0.map_values(|l: Vec<char>| l@).push(line_done(c0)) + split_rec(
                    whole.skip(i as int + 1),
                    Seq::empty(),
                ) =~= l0.map_values(|l: Vec<char>| l@) + (seq![line_done(c0)] + split_rec(
                    whole.skip(i as int + 1),
                    Seq::empty(),
                )));
                assert(cur@ =~= Seq::<char>::empty());
            }
        } else {
            cur.push(c);
        }
        i = i + 1;
    }
    proof {
        assert(whole.skip(whole.len() as int) =~= Seq::<char>::empty());
    }
    if cur.len() > 0 {
        let ghost l0 = lines@;
        let ghost c0 = cur@;
        let done = line_done_exec(cur);
        lines.push(done);
        proof {
            lemma_map_values_push(l0, |l: Vec<char>| l@, done);
            assert(l0.map_values(|l: Vec<char>| l@).push(line_done(c0)) =~= l0.map_values(
                |l: Vec<char>| l@,
            ) + seq![line_done(c0)]);
        }
    }
    lines
}

} // verus!
