//! The typed representations of the header directives: the single-valued
//! (scalar) fields with their documented defaults, and the record types of
//! the indexed families. Fractional quantities (gauge total, BPM, judge
//! percentages) are held as fixed-point integers in hundredths, so every
//! stated default and computation is exact.

use vstd::prelude::*;
use crate::ident::Identifier;

verus! {

/// `#PLAYER [1-4]`. The play side.
#[derive(Clone, Copy, PartialEq, Eq, Structural, Debug)]
pub enum Player {
    /// Single play.
    One,
    /// Couple play.
    Two,
    /// Double play.
    Three,
    /// Battle play.
    Four,
}

impl Player {
    /// The variant at a zero-based ordinal, if any.
    pub fn from_repr(n: u8) -> (r: Option<Player>)
        ensures
            r == spec_player_from_repr(n),
    {
        match n {
            0 => Some(Player::One),
            1 => Some(Player::Two),
            2 => Some(Player::Three),
            3 => Some(Player::Four),
            _ => None,
        }
    }
}

/// The variant of `Player` at a zero-based ordinal.
pub open spec fn spec_player_from_repr(n: u8) -> Option<Player> {
    match n {
        0u8 => Some(Player::One),
        1u8 => Some(Player::Two),
        2u8 => Some(Player::Three),
        3u8 => Some(Player::Four),
        _ => None,
    }
}

impl Default for Player {
    /// Single play when `#PLAYER` is omitted.
    fn default() -> (r: Self)
        ensures
            r == Player::One,
    {
        Player::One
    }
}

/// `#RANK [0-3]`. The judge difficulty, numbered in the LR2 convention.
#[derive(Clone, Copy, PartialEq, Eq, Structural, Debug)]
pub enum Rank {
    /// `#RANK 0`, a +-8 ms window.
    VeryHard,
    /// `#RANK 1`, a +-15 ms window.
    Hard,
    /// `#RANK 2`, a +-18 ms window.
    Normal,
    /// `#RANK 3`, a +-21 ms window.
    Easy,
}

impl Rank {
    /// The variant at a zero-based ordinal, if any.
    pub fn from_repr(n: u8) -> (r: Option<Rank>)
        ensures
            r == spec_rank_from_repr(n),
    {
        match n {
            0 => Some(Rank::VeryHard),
            1 => Some(Rank::Hard),
            2 => Some(Rank::Normal),
            3 => Some(Rank::Easy),
            _ => None,
        }
    }
}

/// The variant of `Rank` at a zero-based ordinal.
pub open spec fn spec_rank_from_repr(n: u8) -> Option<Rank> {
    match n {
        0u8 => Some(Rank::VeryHard),
        1u8 => Some(Rank::Hard),
        2u8 => Some(Rank::Normal),
        3u8 => Some(Rank::Easy),
        _ => None,
    }
}

impl Default for Rank {
    /// Normal when `#RANK` is omitted, the LR2 convention.
    fn default() -> (r: Self)
        ensures
            r == Rank::Normal,
    {
        Rank::Normal
    }
}

/// `#DIFFICULTY [1-5]`. The reported chart grade, in an adjusted IIDX
/// naming. Omissible; a chart without it carries no grade at all, so the
/// finalized header keeps it optional rather than substituting a default.
#[derive(Clone, Copy, PartialEq, Eq, Structural, Debug)]
pub enum Difficulty {
    Beginner,
    Normal,
    Hyper,
    Another,
    Insane,
}

impl Difficulty {
    /// The variant at a zero-based ordinal, if any.
    pub fn from_repr(n: u8) -> (r: Option<Difficulty>)
        ensures
            r == spec_difficulty_from_repr(n),
    {
        match n {
            0 => Some(Difficulty::Beginner),
            1 => Some(Difficulty::Normal),
            2 => Some(Difficulty::Hyper),
            3 => Some(Difficulty::Another),
            4 => Some(Difficulty::Insane),
            _ => None,
        }
    }
}

/// The variant of `Difficulty` at a zero-based ordinal.
pub open spec fn spec_difficulty_from_repr(n: u8) -> Option<Difficulty> {
    match n {
        0u8 => Some(Difficulty::Beginner),
        1u8 => Some(Difficulty::Normal),
        2u8 => Some(Difficulty::Hyper),
        3u8 => Some(Difficulty::Another),
        4u8 => Some(Difficulty::Insane),
        _ => None,
    }
}

/// The three independently specifiable sources of the judge timing
/// window. `Defexrank` and `Exrank` carry a percentage of the Normal
/// (18 ms) window, in hundredths of a percent.
#[derive(Clone, Copy, PartialEq, Eq, Structural, Debug)]
pub enum JudgeRankType {
    /// `#RANK [0-3]`: one of the four fixed windows.
    Rank,
    /// `#DEFEXRANK n`: the chart-wide window as a percentage of Normal.
    Defexrank(u32),
    /// `#EXRANK[01-ZZ] n`: an in-chart window change, fired from the
    /// timeline by identifier.
    Exrank(Identifier, u32),
}

/// `#TOTAL n`. The gauge recovery earned over the whole chart, as a
/// percentage, in hundredths. Omitted, LR2's 160 is substituted (other
/// implementations use 100; the choice is a deliberate policy).
#[derive(Clone, Copy, PartialEq, Eq, Structural, Debug)]
pub struct Total(pub i64);

/// The substituted `#TOTAL` value: 160 percent, in hundredths.
pub const TOTAL_DEFAULT: i64 = 16000;

impl Default for Total {
    fn default() -> (r: Total)
        ensures
            r == Total(TOTAL_DEFAULT),
    {
        Total(TOTAL_DEFAULT)
    }
}

/// `#VOLWAV n`. A flat volume multiplier in percent; 100 when omitted.
#[derive(Clone, Copy, PartialEq, Eq, Structural, Debug)]
pub struct Volwav(pub i32);

/// The substituted `#VOLWAV` value: 100 percent.
pub const VOLWAV_DEFAULT: i32 = 100;

impl Default for Volwav {
    fn default() -> (r: Volwav)
        ensures
            r == Volwav(VOLWAV_DEFAULT),
    {
        Volwav(VOLWAV_DEFAULT)
    }
}

/// `#STAGEFILE imagefilename`. The splash image; empty when omitted.
#[derive(Clone, Debug)]
pub struct Stagefile(pub String);

/// `#BANNER imagefilename`. The song-select banner; empty when omitted.
#[derive(Clone, Debug)]
pub struct Banner(pub String);

/// `#BACKBMP imagefilename`. The static background image; empty when
/// omitted.
#[derive(Clone, Debug)]
pub struct BackBmp(pub String);

/// `#PLAYLEVEL n`. The reported difficulty level, usually 1-12.
#[derive(Clone, Copy, PartialEq, Eq, Structural, Debug)]
pub struct PlayLevel(pub u16);

/// The substituted `#PLAYLEVEL` value: 3, the BM98 convention.
pub const PLAYLEVEL_DEFAULT: u16 = 3;

impl Default for PlayLevel {
    fn default() -> (r: PlayLevel)
        ensures
            r == PlayLevel(PLAYLEVEL_DEFAULT),
    {
        PlayLevel(PLAYLEVEL_DEFAULT)
    }
}

/// `#TITLE string`. The track title, trimmed of surrounding whitespace;
/// empty (with a diagnostic-free default) when omitted.
#[derive(Clone, Debug)]
pub struct Title(pub String);

/// `#SUBTITLE string`. The explicit subtitle; when absent, an implicit
/// one may still be extracted from the title.
#[derive(Clone, Debug)]
pub struct Subtitle(pub String);

/// `#ARTIST string`. The track artist; empty when omitted.
#[derive(Clone, Debug)]
pub struct Artist(pub String);

/// `#SUBARTIST string`. Co-artists (BGA, noting); empty when omitted.
#[derive(Clone, Debug)]
pub struct Subartist(pub String);

/// `#MAKER string`. The chart maker when it differs from the composer;
/// empty when omitted.
#[derive(Clone, Debug)]
pub struct Maker(pub String);

/// `#GENRE string`. The music genre; empty when omitted.
#[derive(Clone, Debug)]
pub struct Genre(pub String);

/// `#BPM n`. The starting tempo, in hundredths of a beat per minute;
/// 130 when omitted, the standard default.
#[derive(Clone, Copy, PartialEq, Eq, Structural, Debug)]
pub struct ConstantBPM(pub i64);

/// The substituted `#BPM` value: 130 beats per minute, in hundredths.
pub const BPM_DEFAULT: i64 = 13000;

impl Default for ConstantBPM {
    fn default() -> (r: ConstantBPM)
        ensures
            r == ConstantBPM(BPM_DEFAULT),
    {
        ConstantBPM(BPM_DEFAULT)
    }
}

/// `#BPMxx n` or `#EXBPM[01-ZZ] n`. An in-chart tempo change referenced
/// by identifier; negative values are permitted and scroll backwards. The
/// tempo is in hundredths.
#[derive(Clone, Copy, PartialEq, Eq, Structural, Debug)]
pub struct ExBPM(pub Identifier, pub i64);

/// A tempo directive: the constant starting tempo or an indexed change.
#[derive(Clone, Copy, PartialEq, Eq, Structural, Debug)]
pub enum BPM {
    Constant(ConstantBPM),
    Extended(ExBPM),
}

/// `#STOP[01-ZZ] n`. A scroll freeze referenced by identifier, lasting
/// the stored number of 192nds of a measure; a fractional operand is
/// truncated toward zero before storage.
#[derive(Clone, Copy, PartialEq, Eq, Structural, Debug)]
pub struct Stop(pub Identifier, pub u32);

/// `#LNTYPE [1-3]`. The long-note convention; kept for backwards
/// compatibility and omissible, so the finalized header keeps it
/// optional.
#[derive(Clone, Copy, PartialEq, Eq, Structural, Debug)]
pub struct LNType(pub u8);

/// `#LNOBJ xx`. The identifier of the note object that terminates long
/// notes; omissible.
#[derive(Clone, Copy, PartialEq, Eq, Structural, Debug)]
pub struct LNObj(pub Identifier);

/// `#WAV[00-ZZ] filename`. One sound resource: the identifier the
/// timeline refers to, and the referenced filename (no extension
/// guarantee; alternate extensions are probed by the consumer).
#[derive(Clone, Debug)]
pub struct Wav(pub Identifier, pub String);

/// `#BMP[00-ZZ] filename`. One image or video resource.
#[derive(Clone, Debug)]
pub struct Bmp(pub Identifier, pub String);

} // verus!
