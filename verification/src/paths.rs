//! The alternate-path resolver: a pure function from a referenced
//! filename to the ordered candidate filenames obtained by substituting
//! extensions from a fixed priority list — audio `.wav, .ogg, .mp3,
//! .flac`; image and video `.bmp, .png, .jpg, .gif, .mpg, .avi`. The
//! order is significant: the consumer probes the filesystem in this order
//! and the first hit wins. No I/O happens here.

use vstd::prelude::*;
use crate::chars::chars_of;
use crate::chars::copy_range;
use crate::chars::string_from_chars;
use crate::subtitle::lemma_rfind_skip;
use crate::subtitle::rfind_before;

verus! {

/// The stem of a filename: everything before the last `.`, or the whole
/// name when it has no extension.
pub open spec fn stem_of(s: Seq<char>) -> Seq<char> {
    match rfind_before(s, '.', s.len() as int) {
        Some(i) => s.take(i),
        None => s,
    }
}

/// The audio candidates for a referenced filename, in probe order.
pub open spec fn audio_candidates_spec(name: Seq<char>) -> Seq<Seq<char>> {
    let b = stem_of(name);
    seq![b + ".wav"@, b + ".ogg"@, b + ".mp3"@, b + ".flac"@]
}

/// The image and video candidates for a referenced filename, in probe
/// order.
pub open spec fn image_candidates_spec(name: Seq<char>) -> Seq<Seq<char>> {
    let b = stem_of(name);
    seq![b + ".bmp"@, b + ".png"@, b + ".jpg"@, b + ".gif"@, b + ".mpg"@, b + ".avi"@]
}

/// The stem of a filename buffer.
fn stem_exec(v: &[char]) -> (r: Vec<char>)
    ensures
        r@ == stem_of(v@),
{
    let mut i: usize = v.len();
    while i > 0 && v[i - 1] != '.'
        invariant
            i <= v@.len(),
            forall|j: int| i <= j < v@.len() ==> v@[j] != '.',
        decreases i,
    {
        i = i - 1;
    }
    proof {
        if (i as int) < v@.len() as int {
            lemma_rfind_skip(v@, '.', i as int, v@.len() as int - 1);
        }
    }
    if i == 0 {
        copy_range(v, 0, v.len())
    } else {
        proof {
            assert(v@[i as int - 1] == '.');
            assert(rfind_before(v@, '.', i as int) == Some(i as int - 1));
            assert(v@.subrange(0, i as int - 1) =~= v@.take(i as int - 1));
        }
        copy_range(v, 0, i - 1)
    }
}

/// A stem with one extension appended.
fn with_ext(stem: &[char], ext: &str) -> (r: String)
    ensures
        r@ == stem@ + ext@,
{
    let mut s = string_from_chars(stem);
    s.append(ext);
    s
}

/// The audio candidates for a referenced filename, in probe order:
/// exactly the stem with `.wav`, `.ogg`, `.mp3`, `.flac`.
pub fn audio_candidates(name: &str) -> (r: Vec<String>)
    ensures
        r@.map_values(|s: String| s@) == audio_candidates_spec(name@),
{
    let chars = chars_of(name);
    let stem = stem_exec(chars.as_slice());
    let mut r: Vec<String> = Vec::new();
    r.push(with_ext(stem.as_slice(), ".wav"));
    r.push(with_ext(stem.as_slice(), ".ogg"));
    r.push(with_ext(stem.as_slice(), ".mp3"));
    r.push(with_ext(stem.as_slice(), ".flac"));
    proof {
        assert(r@.map_values(|s: String| s@) =~= audio_candidates_spec(name@));
    }
    r
}

/// The image and video candidates for a referenced filename, in probe
/// order: exactly the stem with `.bmp`, `.png`, `.jpg`, `.gif`, `.mpg`,
/// `.avi`.
pub fn image_candidates(name: &str) -> (r: Vec<String>)
    ensures
        r@.map_values(|s: String| s@) == image_candidates_spec(name@),
{
    let chars = chars_of(name);
    let stem = stem_exec(chars.as_slice());
    let mut r: Vec<String> = Vec::new();
    r.push(with_ext(stem.as_slice(), ".bmp"));
    r.push(with_ext(stem.as_slice(), ".png"));
    r.push(with_ext(stem.as_slice(), ".jpg"));
    r.push(with_ext(stem.as_slice(), ".gif"));
    r.push(with_ext(stem.as_slice(), ".mpg"));
    r.push(with_ext(stem.as_slice(), ".avi"));
    proof {
        assert(r@.map_values(|s: String| s@) =~= image_candidates_spec(name@));
    }
    r
}

} // verus!
