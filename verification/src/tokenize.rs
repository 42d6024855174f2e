//! The directive tokenizer: one decoded line in, its classification out.
//! A line is a directive when, after leading whitespace, it starts with
//! `#`; the directive name is matched case-insensitively, first against
//! the fixed field names, then against the indexed-family prefixes,
//! longest prefix first, so `EXRANK` is never mis-split. Anything else is
//! ignored (blank, comment, non-`#` lines) or reported unknown.

use vstd::prelude::*;
use crate::chars::chars_eq_str;
use crate::chars::copy_range;
use crate::chars::count_leading;
use crate::chars::is_ws;
use crate::chars::is_ws_exec;
use crate::chars::lemma_count_leading_at;
use crate::chars::scan_non_ws;
use crate::chars::spec_trim;
use crate::chars::string_from_chars;
use crate::chars::trim_chars;
use crate::chars::upper_chars;
use crate::diag::Family;
use crate::diag::FieldId;
use crate::ident::canon_char;
use crate::ident::code_of;
use crate::ident::Identifier;

verus! {

/// The mathematical classification of one line.
pub ghost enum LineClassModel {
    /// Blank, comment or otherwise non-directive: dropped silently.
    Ignore,
    /// A `#` directive with an unrecognized name (uppercased here), or an
    /// indexed directive whose identifier leaves the 36 * 36 alphabet.
    Unknown(Seq<char>),
    /// A fixed directive: the field and its trimmed operand.
    Fixed(FieldId, Seq<char>),
    /// An indexed directive: family, identifier code, trimmed operand.
    Indexed(Family, u16, Seq<char>),
}

/// One classified line, as the parser routes it.
pub enum LineClass {
    Ignore,
    Unknown(String),
    Fixed(FieldId, Vec<char>),
    Indexed(Family, Identifier, Vec<char>),
}

impl View for LineClass {
    type V = LineClassModel;

    open spec fn view(&self) -> LineClassModel {
        match self {
            LineClass::Ignore => LineClassModel::Ignore,
            LineClass::Unknown(w) => LineClassModel::Unknown(w@),
            LineClass::Fixed(f, op) => LineClassModel::Fixed(*f, op@),
            LineClass::Indexed(fam, id, op) => LineClassModel::Indexed(*fam, id@, op@),
        }
    }
}

/// The identifier code of an indexed directive word after a prefix of
/// length `plen`: defined when exactly two alphabet characters follow.
pub open spec fn indexed_code(w: Seq<char>, plen: int) -> Option<u16> {
    if w.len() == plen + 2 {
        code_of(w[plen], w[plen + 1])
    } else {
        None
    }
}

/// Classifies an uppercased directive word with its operand.
pub open spec fn classify_word(w: Seq<char>, operand: Seq<char>) -> LineClassModel {
    if w == "PLAYER"@ {
        LineClassModel::Fixed(FieldId::Player, operand)
    } else if w == "RANK"@ {
        LineClassModel::Fixed(FieldId::Rank, operand)
    } else if w == "DEFEXRANK"@ {
        LineClassModel::Fixed(FieldId::DefExRank, operand)
    } else if w == "TOTAL"@ {
        LineClassModel::Fixed(FieldId::Total, operand)
    } else if w == "VOLWAV"@ {
        LineClassModel::Fixed(FieldId::Volwav, operand)
    } else if w == "STAGEFILE"@ {
        LineClassModel::Fixed(FieldId::Stagefile, operand)
    } else if w == "BANNER"@ {
        LineClassModel::Fixed(FieldId::Banner, operand)
    } else if w == "BACKBMP"@ {
        LineClassModel::Fixed(FieldId::BackBmp, operand)
    } else if w == "PLAYLEVEL"@ {
        LineClassModel::Fixed(FieldId::PlayLevel, operand)
    } else if w == "DIFFICULTY"@ {
        LineClassModel::Fixed(FieldId::Difficulty, operand)
    } else if w == "TITLE"@ {
        LineClassModel::Fixed(FieldId::Title, operand)
    } else if w == "SUBTITLE"@ {
        LineClassModel::Fixed(FieldId::Subtitle, operand)
    } else if w == "ARTIST"@ {
        LineClassModel::Fixed(FieldId::Artist, operand)
    } else if w == "SUBARTIST"@ {
        LineClassModel::Fixed(FieldId::Subartist, operand)
    } else if w == "MAKER"@ {
        LineClassModel::Fixed(FieldId::Maker, operand)
    } else if w == "GENRE"@ {
        LineClassModel::Fixed(FieldId::Genre, operand)
    } else if w == "BPM"@ {
        LineClassModel::Fixed(FieldId::Bpm, operand)
    } else if w == "LNTYPE"@ {
        LineClassModel::Fixed(FieldId::LnType, operand)
    } else if w == "LNOBJ"@ {
        LineClassModel::Fixed(FieldId::LnObj, operand)
    } else if w.len() >= 6 && w.take(6) == "EXRANK"@ {
        match indexed_code(w, 6) {
            Some(k) => LineClassModel::Indexed(Family::ExRank, k, operand),
            None => LineClassModel::Unknown(w),
        }
    } else if w.len() >= 5 && w.take(5) == "EXBPM"@ {
        match indexed_code(w, 5) {
            Some(k) => LineClassModel::Indexed(Family::ExBpm, k, operand),
            None => LineClassModel::Unknown(w),
        }
    } else if w.len() >= 4 && w.take(4) == "STOP"@ {
        match indexed_code(w, 4) {
            Some(k) => LineClassModel::Indexed(Family::Stop, k, operand),
            None => LineClassModel::Unknown(w),
        }
    } else if w.len() >= 3 && w.take(3) == "WAV"@ {
        match indexed_code(w, 3) {
            Some(k) => LineClassModel::Indexed(Family::Wav, k, operand),
            None => LineClassModel::Unknown(w),
        }
    } else if w.len() >= 3 && w.take(3) == "BMP"@ {
        match indexed_code(w, 3) {
            Some(k) => LineClassModel::Indexed(Family::Bmp, k, operand),
            None => LineClassModel::Unknown(w),
        }
    } else if w.len() >= 3 && w.take(3) == "BPM"@ {
        match indexed_code(w, 3) {
            Some(k) => LineClassModel::Indexed(Family::ExBpm, k, operand),
            None => LineClassModel::Unknown(w),
        }
    } else {
        LineClassModel::Unknown(w)
    }
}

/// The classification of one raw line: after leading whitespace a line
/// must start with `#`; its name runs to the first whitespace, uppercased
/// for matching; the operand is the remainder with surrounding whitespace
/// trimmed.
pub open spec fn classify(line: Seq<char>) -> LineClassModel {
    let t = line.skip(count_leading(line, |c: char| is_ws(c)));
    if t.len() == 0 || t[0] != '#' {
        LineClassModel::Ignore
    } else {
        let rest = t.drop_first();
        let wl = count_leading(rest, |c: char| !is_ws(c));
        classify_word(
            rest.take(wl).map_values(|c: char| canon_char(c)),
            spec_trim(rest.skip(wl)),
        )
    }
}

/// Whether `w` starts with the characters of `s`.
fn starts_with_str(w: &[char], s: &str) -> (r: bool)
    ensures
        r == (w@.len() >= s@.len() && w@.take(s@.len() as int) == s@),
{
    let n = s.unicode_len();
    if w.len() < n {
        return false;
    }
    let mut i: usize = 0;
    while i < n
        invariant
            n == s@.len(),
            n <= w@.len(),
            i <= n,
            forall|j: int| 0 <= j < i ==> w@[j] == s@[j],
        decreases n - i,
    {
        if w[i] != s.get_char(i) {
            proof {
                assert(w@.take(n as int)[i as int] != s@[i as int]);
            }
            return false;
        }
        i = i + 1;
    }
    proof {
        assert(w@.take(n as int) =~= s@);
    }
    true
}

/// The index of the first whitespace character at or after `from`.
fn scan_word_end(v: &[char], from: usize) -> (r: usize)
    requires
        from <= v@.len(),
    ensures
        from <= r <= v@.len(),
        r - from == count_leading(v@.skip(from as int), |c: char| !is_ws(c)),
    decreases v@.len() - from,
{
    let mut i: usize = from;
    while i < v.len() && !is_ws_exec(v[i])
        invariant
            from <= i <= v@.len(),
            forall|j: int| from <= j < i ==> !is_ws(#[trigger] v@[j]),
        decreases v@.len() - i,
    {
        i = i + 1;
    }
    proof {
        let p = |c: char| !is_ws(c);
        let t = v@.skip(from as int);
        assert(forall|j: int| 0 <= j < i - from ==> p(#[trigger] t[j]));
        lemma_count_leading_at(t, p, i as int - from as int);
    }
    i
}

/// Classifies an indexed word once its family prefix of length `plen`
/// matched.
fn finish_indexed(w: &Vec<char>, plen: usize, fam: Family, operand: Vec<char>) -> (r: LineClass)
    requires
        plen + 2 <= usize::MAX,
        plen <= w@.len(),
    ensures
        r@ == (match indexed_code(w@, plen as int) {
            Some(k) => LineClassModel::Indexed(fam, k, operand@),
            None => LineClassModel::Unknown(w@),
        }),
{
    if w.len() == plen + 2 {
        match Identifier::from_chars(w[plen], w[plen + 1]) {
            Some(id) => {
                return LineClass::Indexed(fam, id, operand);
            },
            None => {
                return LineClass::Unknown(string_from_chars(w.as_slice()));
            },
        }
    }
    LineClass::Unknown(string_from_chars(w.as_slice()))
}

/// An indexed classification always carries a code inside the 36 * 36
/// key space.
pub proof fn lemma_classify_indexed_code(line: Seq<char>)
    ensures
        match classify(line) {
            LineClassModel::Indexed(_, k, _) => k < crate::ident::IDENT_SPACE,
            _ => true,
        },
{
}

/// Classifies one decoded line.
pub fn classify_line(line: &[char]) -> (r: LineClass)
    ensures
        r@ == classify(line@),
{
    let lo = scan_non_ws(line, 0);
    proof {
        assert(line@.skip(0) =~= line@);
    }
    if lo == line.len() || line[lo] != '#' {
        return LineClass::Ignore;
    }
    let ghost t = line@.skip(lo as int);
    let rest = copy_range(line, lo + 1, line.len());
    proof {
        assert(rest@ =~= t.drop_first());
    }
    let we = scan_word_end(rest.as_slice(), 0);
    proof {
        assert(rest@.skip(0) =~= rest@);
    }
    let wraw = copy_range(rest.as_slice(), 0, we);
    proof {
        assert(wraw@ =~= rest@.take(we as int));
    }
    let w = upper_chars(wraw.as_slice());
    let tail = copy_range(rest.as_slice(), we, rest.len());
    proof {
        assert(tail@ =~= rest@.skip(we as int));
    }
    let operand = trim_chars(tail.as_slice());
    if chars_eq_str(w.as_slice(), "PLAYER") {
        LineClass::Fixed(FieldId::Player, operand)
    } else if chars_eq_str(w.as_slice(), "RANK") {
        LineClass::Fixed(FieldId::Rank, operand)
    } else if chars_eq_str(w.as_slice(), "DEFEXRANK") {
        LineClass::Fixed(FieldId::DefExRank, operand)
    } else if chars_eq_str(w.as_slice(), "TOTAL") {
        LineClass::Fixed(FieldId::Total, operand)
    } else if chars_eq_str(w.as_slice(), "VOLWAV") {
        LineClass::Fixed(FieldId::Volwav, operand)
    } else if chars_eq_str(w.as_slice(), "STAGEFILE") {
        LineClass::Fixed(FieldId::Stagefile, operand)
    } else if chars_eq_str(w.as_slice(), "BANNER") {
        LineClass::Fixed(FieldId::Banner, operand)
    } else if chars_eq_str(w.as_slice(), "BACKBMP") {
        LineClass::Fixed(FieldId::BackBmp, operand)
    } else if chars_eq_str(w.as_slice(), "PLAYLEVEL") {
        LineClass::Fixed(FieldId::PlayLevel, operand)
    } else if chars_eq_str(w.as_slice(), "DIFFICULTY") {
        LineClass::Fixed(FieldId::Difficulty, operand)
    } else if chars_eq_str(w.as_slice(), "TITLE") {
        LineClass::Fixed(FieldId::Title, operand)
    } else if chars_eq_str(w.as_slice(), "SUBTITLE") {
        LineClass::Fixed(FieldId::Subtitle, operand)
    } else if chars_eq_str(w.as_slice(), "ARTIST") {
        LineClass::Fixed(FieldId::Artist, operand)
    } else if chars_eq_str(w.as_slice(), "SUBARTIST") {
        LineClass::Fixed(FieldId::Subartist, operand)
    } else if chars_eq_str(w.as_slice(), "MAKER") {
        LineClass::Fixed(FieldId::Maker, operand)
    } else if chars_eq_str(w.as_slice(), "GENRE") {
        LineClass::Fixed(FieldId::Genre, operand)
    } else if chars_eq_str(w.as_slice(), "BPM") {
        LineClass::Fixed(FieldId::Bpm, operand)
    } else if chars_eq_str(w.as_slice(), "LNTYPE") {
        LineClass::Fixed(FieldId::LnType, operand)
    } else if chars_eq_str(w.as_slice(), "LNOBJ") {
        LineClass::Fixed(FieldId::LnObj, operand)
    } else if ({
        proof {
            reveal_strlit("EXRANK");
            reveal_strlit("EXBPM");
            reveal_strlit("STOP");
            reveal_strlit("WAV");
            reveal_strlit("BMP");
            reveal_strlit("BPM");
        }
        starts_with_str(w.as_slice(), "EXRANK")
    }) {
        finish_indexed(&w, 6, Family::ExRank, operand)
    } else if starts_with_str(w.as_slice(), "EXBPM") {
        finish_indexed(&w, 5, Family::ExBpm, operand)
    } else if starts_with_str(w.as_slice(), "STOP") {
        finish_indexed(&w, 4, Family::Stop, operand)
    } else if starts_with_str(w.as_slice(), "WAV") {
        finish_indexed(&w, 3, Family::Wav, operand)
    } else if starts_with_str(w.as_slice(), "BMP") {
        finish_indexed(&w, 3, Family::Bmp, operand)
    } else if starts_with_str(w.as_slice(), "BPM") {
        finish_indexed(&w, 3, Family::ExBpm, operand)
    } else {
        LineClass::Unknown(string_from_chars(w.as_slice()))
    }
}

} // verus!
