//! The non-fatal diagnostics collected during a parse. Every recoverable
//! problem (an unknown directive, a malformed operand, a duplicate table
//! index) is absorbed into one ordered diagnostic and parsing continues;
//! only an undetectable text encoding aborts the parse.

use vstd::prelude::*;
use crate::ident::Identifier;

verus! {

/// The fixed (single-valued) directive fields.
#[derive(Clone, Copy, PartialEq, Eq, Structural, Debug)]
pub enum FieldId {
    Player,
    Rank,
    DefExRank,
    Total,
    Volwav,
    Stagefile,
    Banner,
    BackBmp,
    PlayLevel,
    Difficulty,
    Title,
    Subtitle,
    Artist,
    Subartist,
    Maker,
    Genre,
    Bpm,
    LnType,
    LnObj,
}

/// The five indexed directive families.
#[derive(Clone, Copy, PartialEq, Eq, Structural, Debug)]
pub enum Family {
    Wav,
    Bmp,
    ExBpm,
    Stop,
    ExRank,
}

/// What a malformed operand belonged to: a fixed field or an indexed
/// family.
#[derive(Clone, Copy, PartialEq, Eq, Structural, Debug)]
pub enum DirectiveId {
    Field(FieldId),
    Indexed(Family),
}

/// One recoverable problem found while parsing, in the order encountered.
#[derive(Clone, Debug)]
pub enum Diagnostic {
    /// A `#`-led line whose directive name is not recognized, with the
    /// (uppercased) name; also covers an indexed directive whose
    /// identifier falls outside the 36 * 36 alphabet.
    UnknownDirective(String),
    /// An operand that does not parse for its field, with the raw operand
    /// text; the field keeps its default.
    MalformedOperand(DirectiveId, String),
    /// A second definition for an identifier already present in a family;
    /// the first definition is kept.
    DuplicateIndex(Family, Identifier),
}

/// The mathematical shape of one diagnostic.
pub ghost enum DiagModel {
    Unknown(Seq<char>),
    Malformed(DirectiveId, Seq<char>),
    Duplicate(Family, u16),
}

impl View for Diagnostic {
    type V = DiagModel;

    open spec fn view(&self) -> DiagModel {
        match self {
            Diagnostic::UnknownDirective(w) => DiagModel::Unknown(w@),
            Diagnostic::MalformedOperand(d, raw) => DiagModel::Malformed(*d, raw@),
            Diagnostic::DuplicateIndex(f, id) => DiagModel::Duplicate(*f, id@),
        }
    }
}

impl Diagnostic {
    /// Builds an unknown-directive diagnostic.
    pub fn unknown(word: String) -> (r: Diagnostic)
        ensures
            r@ == DiagModel::Unknown(word@),
    {
        Diagnostic::UnknownDirective(word)
    }

    /// Builds a malformed-operand diagnostic.
    pub fn malformed(d: DirectiveId, raw: String) -> (r: Diagnostic)
        ensures
            r@ == DiagModel::Malformed(d, raw@),
    {
        Diagnostic::MalformedOperand(d, raw)
    }

    /// Builds a duplicate-index diagnostic.
    pub fn duplicate(f: Family, id: Identifier) -> (r: Diagnostic)
        ensures
            r@ == DiagModel::Duplicate(f, id@),
    {
        Diagnostic::DuplicateIndex(f, id)
    }
}

} // verus!
