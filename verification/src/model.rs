//! The mathematical model of a parse in progress: the scalar fields as
//! optional values, the five indexed families as key-unique entry
//! sequences, and the ordered diagnostics. `step` gives the exact effect
//! of one decoded line on this state; the executable builder is verified
//! against it line by line.

use vstd::prelude::*;
use crate::diag::DiagModel;
use crate::diag::DirectiveId;
use crate::diag::Family;
use crate::diag::FieldId;
use crate::fields::Difficulty;
use crate::fields::Player;
use crate::fields::Rank;
use crate::fields::spec_difficulty_from_repr;
use crate::fields::spec_player_from_repr;
use crate::fields::spec_rank_from_repr;
use crate::ident::code_of;
use crate::numparse::parse_fixed100_spec;
use crate::numparse::parse_sint_spec;
use crate::numparse::parse_uint_spec;
use crate::table::entries_has_key;
use crate::tokenize::classify;
use crate::tokenize::LineClassModel;

verus! {

/// The state assembled from the directive lines, before defaults are
/// substituted. Fractional quantities are fixed-point in hundredths.
#[verifier::ext_equal]
pub ghost struct ParseModel {
    pub player: Option<Player>,
    pub rank: Option<Rank>,
    pub defexrank: Option<u32>,
    pub total: Option<i64>,
    pub volwav: Option<i32>,
    pub stagefile: Option<Seq<char>>,
    pub banner: Option<Seq<char>>,
    pub backbmp: Option<Seq<char>>,
    pub playlevel: Option<u16>,
    pub difficulty: Option<Difficulty>,
    pub title: Option<Seq<char>>,
    pub subtitle: Option<Seq<char>>,
    pub artist: Option<Seq<char>>,
    pub subartist: Option<Seq<char>>,
    pub maker: Option<Seq<char>>,
    pub genre: Option<Seq<char>>,
    pub bpm: Option<i64>,
    pub lntype: Option<u8>,
    pub lnobj: Option<u16>,
    pub wav: Seq<(u16, Seq<char>)>,
    pub bmp: Seq<(u16, Seq<char>)>,
    pub exbpm: Seq<(u16, i64)>,
    pub stop: Seq<(u16, u32)>,
    pub exrank: Seq<(u16, u32)>,
    pub diags: Seq<DiagModel>,
}

/// The state before any line was read.
pub open spec fn init_model() -> ParseModel {
    ParseModel {
        player: None,
        rank: None,
        defexrank: None,
        total: None,
        volwav: None,
        stagefile: None,
        banner: None,
        backbmp: None,
        playlevel: None,
        difficulty: None,
        title: None,
        subtitle: None,
        artist: None,
        subartist: None,
        maker: None,
        genre: None,
        bpm: None,
        lntype: None,
        lnobj: None,
        wav: Seq::empty(),
        bmp: Seq::empty(),
        exbpm: Seq::empty(),
        stop: Seq::empty(),
        exrank: Seq::empty(),
        diags: Seq::empty(),
    }
}

/// `#PLAYER` operand: ordinal 1-4.
pub open spec fn player_of(op: Seq<char>) -> Option<Player> {
    match parse_uint_spec(op) {
        Some(n) => if 1 <= n && n <= 4 {
            spec_player_from_repr((n - 1) as u8)
        } else {
            None
        },
        None => None,
    }
}

/// `#RANK` operand: ordinal 0-3.
pub open spec fn rank_of(op: Seq<char>) -> Option<Rank> {
    match parse_uint_spec(op) {
        Some(n) => if n <= 3 {
            spec_rank_from_repr(n as u8)
        } else {
            None
        },
        None => None,
    }
}

/// `#DIFFICULTY` operand: ordinal 1-5.
pub open spec fn difficulty_of(op: Seq<char>) -> Option<Difficulty> {
    match parse_uint_spec(op) {
        Some(n) => if 1 <= n && n <= 5 {
            spec_difficulty_from_repr((n - 1) as u8)
        } else {
            None
        },
        None => None,
    }
}

/// `#PLAYLEVEL` operand: an unsigned level.
pub open spec fn playlevel_of(op: Seq<char>) -> Option<u16> {
    match parse_uint_spec(op) {
        Some(n) => if n <= u16::MAX {
            Some(n as u16)
        } else {
            None
        },
        None => None,
    }
}

/// `#VOLWAV` operand: a signed percentage.
pub open spec fn volwav_of(op: Seq<char>) -> Option<i32> {
    match parse_sint_spec(op) {
        Some(v) => if i32::MIN <= v && v <= i32::MAX {
            Some(v as i32)
        } else {
            None
        },
        None => None,
    }
}

/// `#LNTYPE` operand: 0-3.
pub open spec fn lntype_of(op: Seq<char>) -> Option<u8> {
    match parse_uint_spec(op) {
        Some(n) => if n <= 3 {
            Some(n as u8)
        } else {
            None
        },
        None => None,
    }
}

/// `#LNOBJ` operand: a two-character identifier.
pub open spec fn lnobj_of(op: Seq<char>) -> Option<u16> {
    if op.len() == 2 {
        code_of(op[0], op[1])
    } else {
        None
    }
}

/// `#DEFEXRANK` / `#EXRANKxx` operand: a non-negative percentage of the
/// Normal window, in hundredths.
pub open spec fn percent_of(op: Seq<char>) -> Option<u32> {
    match parse_fixed100_spec(op) {
        Some(v) => if 0 <= v && v <= u32::MAX {
            Some(v as u32)
        } else {
            None
        },
        None => None,
    }
}

/// `#STOPxx` operand: a non-negative duration in 192nds of a measure;
/// the fractional part of the operand is truncated toward zero.
pub open spec fn stop_of(op: Seq<char>) -> Option<u32> {
    match parse_fixed100_spec(op) {
        Some(v) => if 0 <= v && v / 100 <= u32::MAX {
            Some((v / 100) as u32)
        } else {
            None
        },
        None => None,
    }
}

/// Appends a malformed-operand diagnostic.
pub open spec fn with_malformed(m: ParseModel, d: DirectiveId, raw: Seq<char>) -> ParseModel {
    ParseModel { diags: m.diags.push(DiagModel::Malformed(d, raw)), ..m }
}

/// The effect of one fixed directive. A scalar that parses overwrites an
/// earlier value (last definition wins for scalars); a malformed operand
/// leaves the field as it was and records one diagnostic.
pub open spec fn step_fixed(m: ParseModel, f: FieldId, op: Seq<char>) -> ParseModel {
    match f {
        FieldId::Player => match player_of(op) {
            Some(v) => ParseModel { player: Some(v), ..m },
            None => with_malformed(m, DirectiveId::Field(f), op),
        },
        FieldId::Rank => match rank_of(op) {
            Some(v) => ParseModel { rank: Some(v), ..m },
            None => with_malformed(m, DirectiveId::Field(f), op),
        },
        FieldId::DefExRank => match percent_of(op) {
            Some(v) => ParseModel { defexrank: Some(v), ..m },
            None => with_malformed(m, DirectiveId::Field(f), op),
        },
        FieldId::Total => match parse_fixed100_spec(op) {
            Some(v) => ParseModel { total: Some(v), ..m },
            None => with_malformed(m, DirectiveId::Field(f), op),
        },
        FieldId::Volwav => match volwav_of(op) {
            Some(v) => ParseModel { volwav: Some(v), ..m },
            None => with_malformed(m, DirectiveId::Field(f), op),
        },
        FieldId::Stagefile => ParseModel { stagefile: Some(op), ..m },
        FieldId::Banner => ParseModel { banner: Some(op), ..m },
        FieldId::BackBmp => ParseModel { backbmp: Some(op), ..m },
        FieldId::PlayLevel => match playlevel_of(op) {
            Some(v) => ParseModel { playlevel: Some(v), ..m },
            None => with_malformed(m, DirectiveId::Field(f), op),
        },
        FieldId::Difficulty => match difficulty_of(op) {
            Some(v) => ParseModel { difficulty: Some(v), ..m },
            None => with_malformed(m, DirectiveId::Field(f), op),
        },
        FieldId::Title => ParseModel { title: Some(op), ..m },
        FieldId::Subtitle => ParseModel { subtitle: Some(op), ..m },
        FieldId::Artist => ParseModel { artist: Some(op), ..m },
        FieldId::Subartist => ParseModel { subartist: Some(op), ..m },
        FieldId::Maker => ParseModel { maker: Some(op), ..m },
        FieldId::Genre => ParseModel { genre: Some(op), ..m },
        FieldId::Bpm => match parse_fixed100_spec(op) {
            Some(v) => ParseModel { bpm: Some(v), ..m },
            None => with_malformed(m, DirectiveId::Field(f), op),
        },
        FieldId::LnType => match lntype_of(op) {
            Some(v) => ParseModel { lntype: Some(v), ..m },
            None => with_malformed(m, DirectiveId::Field(f), op),
        },
        FieldId::LnObj => match lnobj_of(op) {
            Some(v) => ParseModel { lnobj: Some(v), ..m },
            None => with_malformed(m, DirectiveId::Field(f), op),
        },
    }
}

/// The effect of one indexed directive: a malformed operand records one
/// diagnostic; an identifier already present keeps its first value and
/// records one `DuplicateIndex`; otherwise the entry is appended.
pub open spec fn step_indexed(m: ParseModel, fam: Family, k: u16, op: Seq<char>) -> ParseModel {
    match fam {
        Family::Wav => {
            if op.len() == 0 {
                with_malformed(m, DirectiveId::Indexed(fam), op)
            } else if entries_has_key(m.wav, k) {
                ParseModel { diags: m.diags.push(DiagModel::Duplicate(fam, k)), ..m }
            } else {
                ParseModel { wav: m.wav.push((k, op)), ..m }
            }
        },
        Family::Bmp => {
            if op.len() == 0 {
                with_malformed(m, DirectiveId::Indexed(fam), op)
            } else if entries_has_key(m.bmp, k) {
                ParseModel { diags: m.diags.push(DiagModel::Duplicate(fam, k)), ..m }
            } else {
                ParseModel { bmp: m.bmp.push((k, op)), ..m }
            }
        },
        Family::ExBpm => match parse_fixed100_spec(op) {
            Some(v) => if entries_has_key(m.exbpm, k) {
                ParseModel { diags: m.diags.push(DiagModel::Duplicate(fam, k)), ..m }
            } else {
                ParseModel { exbpm: m.exbpm.push((k, v)), ..m }
            },
            None => with_malformed(m, DirectiveId::Indexed(fam), op),
        },
        Family::Stop => match stop_of(op) {
            Some(v) => if entries_has_key(m.stop, k) {
                ParseModel { diags: m.diags.push(DiagModel::Duplicate(fam, k)), ..m }
            } else {
                ParseModel { stop: m.stop.push((k, v)), ..m }
            },
            None => with_malformed(m, DirectiveId::Indexed(fam), op),
        },
        Family::ExRank => match percent_of(op) {
            Some(v) => if entries_has_key(m.exrank, k) {
                ParseModel { diags: m.diags.push(DiagModel::Duplicate(fam, k)), ..m }
            } else {
                ParseModel { exrank: m.exrank.push((k, v)), ..m }
            },
            None => with_malformed(m, DirectiveId::Indexed(fam), op),
        },
    }
}

/// The exact effect of one decoded line on the parse state.
pub open spec fn step(m: ParseModel, line: Seq<char>) -> ParseModel {
    match classify(line) {
        LineClassModel::Ignore => m,
        LineClassModel::Unknown(w) => ParseModel {
            diags: m.diags.push(DiagModel::Unknown(w)),
            ..m
        },
        LineClassModel::Fixed(f, op) => step_fixed(m, f, op),
        LineClassModel::Indexed(fam, k, op) => step_indexed(m, fam, k, op),
    }
}

/// Whether an operand is well-formed for an indexed family.
pub open spec fn op_valid(fam: Family, op: Seq<char>) -> bool {
    match fam {
        Family::Wav => op.len() > 0,
        Family::Bmp => op.len() > 0,
        Family::ExBpm => parse_fixed100_spec(op) is Some,
        Family::Stop => stop_of(op) is Some,
        Family::ExRank => percent_of(op) is Some,
    }
}

/// Whether a family already holds a value for an identifier code.
pub open spec fn has_entry(m: ParseModel, fam: Family, k: u16) -> bool {
    match fam {
        Family::Wav => entries_has_key(m.wav, k),
        Family::Bmp => entries_has_key(m.bmp, k),
        Family::ExBpm => entries_has_key(m.exbpm, k),
        Family::Stop => entries_has_key(m.stop, k),
        Family::ExRank => entries_has_key(m.exrank, k),
    }
}

/// In every indexed family, defining the same identifier twice retains
/// the first definition and emits exactly one `DuplicateIndex`
/// diagnostic: the first insertion emits nothing and defines the key,
/// and the second changes nothing but the diagnostics, to which it
/// appends that one entry.
pub proof fn lemma_insert_twice_keeps_first(
    m: ParseModel,
    fam: Family,
    k: u16,
    op1: Seq<char>,
    op2: Seq<char>,
)
    requires
        op_valid(fam, op1),
        op_valid(fam, op2),
        !has_entry(m, fam, k),
    ensures
        ({
            let m1 = step_indexed(m, fam, k, op1);
            let m2 = step_indexed(m1, fam, k, op2);
            m1.diags == m.diags && has_entry(m1, fam, k) && m2 == (ParseModel {
                diags: m1.diags.push(DiagModel::Duplicate(fam, k)),
                ..m1
            })
        }),
{
    let m1 = step_indexed(m, fam, k, op1);
    match fam {
        Family::Wav => {
            assert(m1.wav[m1.wav.len() - 1].0 == k);
        },
        Family::Bmp => {
            assert(m1.bmp[m1.bmp.len() - 1].0 == k);
        },
        Family::ExBpm => {
            assert(m1.exbpm[m1.exbpm.len() - 1].0 == k);
        },
        Family::Stop => {
            assert(m1.stop[m1.stop.len() - 1].0 == k);
        },
        Family::ExRank => {
            assert(m1.exrank[m1.exrank.len() - 1].0 == k);
        },
    }
    let m2 = step_indexed(m1, fam, k, op2);
    assert(m2 =~= (ParseModel { diags: m1.diags.push(DiagModel::Duplicate(fam, k)), ..m1 }));
}

/// Whether a classification sets the given fixed field.
pub open spec fn is_fixed_for(c: LineClassModel, f: FieldId) -> bool {
    match c {
        LineClassModel::Fixed(g, _) => g == f,
        _ => false,
    }
}

/// Whether a scalar field is still unset in the model.
pub open spec fn scalar_unset(m: ParseModel, f: FieldId) -> bool {
    match f {
        FieldId::Player => m.player is None,
        FieldId::Rank => m.rank is None,
        FieldId::DefExRank => m.defexrank is None,
        FieldId::Total => m.total is None,
        FieldId::Volwav => m.volwav is None,
        FieldId::Stagefile => m.stagefile is None,
        FieldId::Banner => m.banner is None,
        FieldId::BackBmp => m.backbmp is None,
        FieldId::PlayLevel => m.playlevel is None,
        FieldId::Difficulty => m.difficulty is None,
        FieldId::Title => m.title is None,
        FieldId::Subtitle => m.subtitle is None,
        FieldId::Artist => m.artist is None,
        FieldId::Subartist => m.subartist is None,
        FieldId::Maker => m.maker is None,
        FieldId::Genre => m.genre is None,
        FieldId::Bpm => m.bpm is None,
        FieldId::LnType => m.lntype is None,
        FieldId::LnObj => m.lnobj is None,
    }
}

/// A line that does not address a fixed field leaves that field alone.
pub proof fn lemma_step_preserves_unset(m: ParseModel, line: Seq<char>, f: FieldId)
    requires
        !is_fixed_for(classify(line), f),
        scalar_unset(m, f),
    ensures
        scalar_unset(step(m, line), f),
{
}

/// Default substitution holds of whole inputs: a scalar field that no
/// line of the input sets is still unset after the fold, so finalization
/// gives it its documented default (no `#RANK` line leaves the Normal
/// 18 ms baseline, no `#TOTAL` leaves 160, no `#PLAYLEVEL` leaves 3).
pub proof fn lemma_scalar_stays_unset(lines: Seq<Seq<char>>, f: FieldId)
    requires
        forall|i: int| 0 <= i < lines.len() ==> !is_fixed_for(#[trigger] classify(lines[i]), f),
    ensures
        scalar_unset(run_lines(lines), f),
    decreases lines.len(),
{
    if lines.len() > 0 {
        lemma_scalar_stays_unset(lines.drop_last(), f);
        lemma_step_preserves_unset(run_lines(lines.drop_last()), lines.last(), f);
    }
}

/// The state after a whole line sequence, folded front to back.
pub open spec fn run_lines(lines: Seq<Seq<char>>) -> ParseModel
    decreases lines.len(),
{
    if lines.len() == 0 {
        init_model()
    } else {
        step(run_lines(lines.drop_last()), lines.last())
    }
}

} // verus!
