//! The header builder and the finalized `Header` value. The builder
//! applies one decoded line at a time, exactly as `model::step` states;
//! finalization substitutes the documented default for every field still
//! unset, extracts the implicit subtitle, and hands back the immutable
//! header together with the ordered diagnostics.

use vstd::prelude::*;
use crate::chars::string_from_chars;
use crate::chars::chars_of;
use crate::diag::Diagnostic;
use crate::diag::DiagModel;
use crate::diag::DirectiveId;
use crate::diag::Family;
use crate::diag::FieldId;
use crate::fields::Artist;
use crate::fields::BackBmp;
use crate::fields::Bmp;
use crate::fields::BPM;
use crate::fields::ExBPM;
use crate::fields::Stop;
use crate::fields::Wav;
use crate::fields::Banner;
use crate::fields::BPM_DEFAULT;
use crate::fields::ConstantBPM;
use crate::fields::Difficulty;
use crate::fields::Genre;
use crate::fields::LNObj;
use crate::fields::LNType;
use crate::fields::Maker;
use crate::fields::Player;
use crate::fields::PlayLevel;
use crate::fields::PLAYLEVEL_DEFAULT;
use crate::fields::Rank;
use crate::fields::Stagefile;
use crate::fields::Subartist;
use crate::fields::Subtitle;
use crate::fields::Title;
use crate::fields::Total;
use crate::fields::TOTAL_DEFAULT;
use crate::fields::Volwav;
use crate::fields::VOLWAV_DEFAULT;
use crate::ident::Identifier;
use crate::model::difficulty_of;
use crate::model::init_model;
use crate::model::lnobj_of;
use crate::model::lntype_of;
use crate::model::ParseModel;
use crate::model::percent_of;
use crate::model::player_of;
use crate::model::playlevel_of;
use crate::model::rank_of;
use crate::model::run_lines;
use crate::model::step;
use crate::model::stop_of;
use crate::model::volwav_of;
use crate::numparse::parse_fixed100;
use crate::numparse::parse_uint;
use crate::numparse::parse_sint;
use crate::subtitle::split_title;
use crate::subtitle::split_title_exec;
use crate::subtitle::TitleParts;
use crate::table::IndexedTable;
use crate::tokenize::classify_line;
use crate::tokenize::LineClass;

verus! {

/// `map_values` distributes over `push`.
pub proof fn lemma_map_values_push<A, B>(s: Seq<A>, f: spec_fn(A) -> B, x: A)
    ensures
        s.push(x).map_values(f) == s.map_values(f).push(f(x)),
{
    assert(s.push(x).map_values(f) =~= s.map_values(f).push(f(x)));
}

/// The view of an optional owned string.
pub open spec fn opt_str_view(o: Option<String>) -> Option<Seq<char>> {
    match o {
        Some(s) => Some(s@),
        None => None,
    }
}

/// The view of a string-valued entry sequence.
pub open spec fn str_entries_view(s: Seq<(u16, String)>) -> Seq<(u16, Seq<char>)> {
    s.map_values(|e: (u16, String)| (e.0, e.1@))
}

/// Mapping entry values preserves which keys are present.
pub proof fn lemma_str_entries_has_key(s: Seq<(u16, String)>, k: u16)
    ensures
        crate::table::entries_has_key(str_entries_view(s), k) == crate::table::entries_has_key(
            s,
            k,
        ),
{
    if crate::table::entries_has_key(s, k) {
        let i = choose|i: int| 0 <= i < s.len() && s[i].0 == k;
        assert(str_entries_view(s)[i].0 == k);
    }
    if crate::table::entries_has_key(str_entries_view(s), k) {
        let i = choose|i: int| 0 <= i < str_entries_view(s).len() && str_entries_view(s)[i].0 == k;
        assert(s[i].0 == k);
    }
}

/// The parse state under construction, one field or table entry per
/// directive family.
pub struct HeaderBuilder {
    player: Option<Player>,
    rank: Option<Rank>,
    defexrank: Option<u32>,
    total: Option<i64>,
    volwav: Option<i32>,
    stagefile: Option<String>,
    banner: Option<String>,
    backbmp: Option<String>,
    playlevel: Option<u16>,
    difficulty: Option<Difficulty>,
    title: Option<String>,
    subtitle: Option<String>,
    artist: Option<String>,
    subartist: Option<String>,
    maker: Option<String>,
    genre: Option<String>,
    bpm: Option<i64>,
    lntype: Option<u8>,
    lnobj: Option<Identifier>,
    wav: IndexedTable<String>,
    bmp: IndexedTable<String>,
    exbpm: IndexedTable<i64>,
    stop: IndexedTable<u32>,
    exrank: IndexedTable<u32>,
    diags: Vec<Diagnostic>,
}

impl View for HeaderBuilder {
    type V = ParseModel;

    closed spec fn view(&self) -> ParseModel {
        ParseModel {
            player: self.player,
            rank: self.rank,
            defexrank: self.defexrank,
            total: self.total,
            volwav: self.volwav,
            stagefile: opt_str_view(self.stagefile),
            banner: opt_str_view(self.banner),
            backbmp: opt_str_view(self.backbmp),
            playlevel: self.playlevel,
            difficulty: self.difficulty,
            title: opt_str_view(self.title),
            subtitle: opt_str_view(self.subtitle),
            artist: opt_str_view(self.artist),
            subartist: opt_str_view(self.subartist),
            maker: opt_str_view(self.maker),
            genre: opt_str_view(self.genre),
            bpm: self.bpm,
            lntype: self.lntype,
            lnobj: match self.lnobj {
                Some(id) => Some(id@),
                None => None,
            },
            wav: str_entries_view(self.wav.spec_entries()),
            bmp: str_entries_view(self.bmp.spec_entries()),
            exbpm: self.exbpm.spec_entries(),
            stop: self.stop.spec_entries(),
            exrank: self.exrank.spec_entries(),
            diags: self.diags@.map_values(|d: Diagnostic| d@),
        }
    }
}

impl HeaderBuilder {
    /// The five tables keep their key-uniqueness invariant.
    pub open spec fn wf(self) -> bool {
        self.wav_table().wf() && self.bmp_table().wf() && self.exbpm_table().wf()
            && self.stop_table().wf() && self.exrank_table().wf()
    }

    /// The WAV table as built so far.
    pub closed spec fn wav_table(self) -> IndexedTable<String> {
        self.wav
    }

    /// The BMP table as built so far.
    pub closed spec fn bmp_table(self) -> IndexedTable<String> {
        self.bmp
    }

    /// The extended-BPM table as built so far.
    pub closed spec fn exbpm_table(self) -> IndexedTable<i64> {
        self.exbpm
    }

    /// The STOP table as built so far.
    pub closed spec fn stop_table(self) -> IndexedTable<u32> {
        self.stop
    }

    /// The EXRANK table as built so far.
    pub closed spec fn exrank_table(self) -> IndexedTable<u32> {
        self.exrank
    }

    /// A builder with nothing set.
    pub fn new() -> (r: HeaderBuilder)
        ensures
            r@ == init_model(),
            r.wf(),
    {
        let b = HeaderBuilder {
            player: None,
            rank: None,
            defexrank: None,
            total: None,
            volwav: None,
            stagefile: None,
            banner: None,
            backbmp: None,
            playlevel: None,
            difficulty: None,
            title: None,
            subtitle: None,
            artist: None,
            subartist: None,
            maker: None,
            genre: None,
            bpm: None,
            lntype: None,
            lnobj: None,
            wav: IndexedTable::new(),
            bmp: IndexedTable::new(),
            exbpm: IndexedTable::new(),
            stop: IndexedTable::new(),
            exrank: IndexedTable::new(),
            diags: Vec::new(),
        };
        proof {
            assert(b@ =~= init_model());
        }
        b
    }

    /// Applies one decoded line, exactly as `step` states.
    pub fn apply_line(&mut self, line: &[char])
        requires
            old(self).wf(),
        ensures
            final(self).wf(),
            final(self)@ == step(old(self)@, line@),
    {
        let ghost m0 = self@;
        let cls = classify_line(line);
        match cls {
            LineClass::Ignore => {},
            LineClass::Unknown(w) => {
                self.diags.push(Diagnostic::unknown(w));
                proof {
                    lemma_map_values_push(old(self).diags@, |d: Diagnostic| d@, Diagnostic::UnknownDirective(w));
                }
            },
            LineClass::Fixed(f, op) => {
                self.apply_fixed(f, op);
            },
            LineClass::Indexed(fam, id, op) => {
                proof {
                    crate::tokenize::lemma_classify_indexed_code(line@);
                }
                self.apply_indexed(fam, id, op);
            },
        }
        proof {
            assert(self@ =~= step(m0, line@));
        }
    }

    /// Records one malformed-operand diagnostic.
    fn push_malformed(&mut self, d: DirectiveId, op: Vec<char>)
        ensures
            final(self)@ == (ParseModel {
                diags: old(self)@.diags.push(DiagModel::Malformed(d, op@)),
                ..old(self)@
            }),
            final(self).wf() == old(self).wf(),
    {
        let raw = string_from_chars(op.as_slice());
        self.diags.push(Diagnostic::malformed(d, raw));
        proof {
            lemma_map_values_push(
                old(self).diags@,
                |dg: Diagnostic| dg@,
                Diagnostic::MalformedOperand(d, raw),
            );
            assert(final(self)@ =~= ParseModel {
                diags: old(self)@.diags.push(DiagModel::Malformed(d, op@)),
                ..old(self)@
            });
        }
    }

    /// Records one duplicate-index diagnostic.
    fn push_duplicate(&mut self, fam: Family, id: Identifier)
        ensures
            final(self)@ == (ParseModel {
                diags: old(self)@.diags.push(DiagModel::Duplicate(fam, id@)),
                ..old(self)@
            }),
            final(self).wf() == old(self).wf(),
    {
        self.diags.push(Diagnostic::duplicate(fam, id));
        proof {
            lemma_map_values_push(
                old(self).diags@,
                |dg: Diagnostic| dg@,
                Diagnostic::DuplicateIndex(fam, id),
            );
            assert(final(self)@ =~= ParseModel {
                diags: old(self)@.diags.push(DiagModel::Duplicate(fam, id@)),
                ..old(self)@
            });
        }
    }

    /// Applies one fixed directive.
    fn apply_fixed(&mut self, f: FieldId, op: Vec<char>)
        requires
            old(self).wf(),
        ensures
            final(self).wf(),
            final(self)@ == crate::model::step_fixed(old(self)@, f, op@),
    {
        match f {
            FieldId::Player => {
                match parse_uint(op.as_slice()) {
                    Some(n) if 1 <= n && n <= 4 => {
                        self.player = Player::from_repr((n - 1) as u8);
                        proof {
                            assert(self@ =~= crate::model::step_fixed(old(self)@, f, op@));
                        }
                    },
                    _ => {
                        proof {
                            assert(player_of(op@) is None);
                        }
                        self.push_malformed(DirectiveId::Field(f), op);
                    },
                }
            },
            FieldId::Rank => {
                match parse_uint(op.as_slice()) {
                    Some(n) if n <= 3 => {
                        self.rank = Rank::from_repr(n as u8);
                        proof {
                            assert(self@ =~= crate::model::step_fixed(old(self)@, f, op@));
                        }
                    },
                    _ => {
                        proof {
                            assert(rank_of(op@) is None);
                        }
                        self.push_malformed(DirectiveId::Field(f), op);
                    },
                }
            },
            FieldId::DefExRank => {
                match percent_exec(op.as_slice()) {
                    Some(v) => {
                        self.defexrank = Some(v);
                        proof {
                            assert(self@ =~= crate::model::step_fixed(old(self)@, f, op@));
                        }
                    },
                    None => {
                        self.push_malformed(DirectiveId::Field(f), op);
                    },
                }
            },
            FieldId::Total => {
                match parse_fixed100(op.as_slice()) {
                    Some(v) => {
                        self.total = Some(v);
                        proof {
                            assert(self@ =~= crate::model::step_fixed(old(self)@, f, op@));
                        }
                    },
                    None => {
                        self.push_malformed(DirectiveId::Field(f), op);
                    },
                }
            },
            FieldId::Volwav => {
                match parse_sint(op.as_slice()) {
                    Some(v) if i32::MIN as i64 <= v && v <= i32::MAX as i64 => {
                        self.volwav = Some(v as i32);
                        proof {
                            assert(self@ =~= crate::model::step_fixed(old(self)@, f, op@));
                        }
                    },
                    _ => {
                        proof {
                            assert(volwav_of(op@) is None);
                        }
                        self.push_malformed(DirectiveId::Field(f), op);
                    },
                }
            },
            FieldId::Stagefile => {
                self.stagefile = Some(string_from_chars(op.as_slice()));
                proof {
                    assert(self@ =~= crate::model::step_fixed(old(self)@, f, op@));
                }
            },
            FieldId::Banner => {
                self.banner = Some(string_from_chars(op.as_slice()));
                proof {
                    assert(self@ =~= crate::model::step_fixed(old(self)@, f, op@));
                }
            },
            FieldId::BackBmp => {
                self.backbmp = Some(string_from_chars(op.as_slice()));
                proof {
                    assert(self@ =~= crate::model::step_fixed(old(self)@, f, op@));
                }
            },
            FieldId::PlayLevel => {
                match parse_uint(op.as_slice()) {
                    Some(n) if n <= u16::MAX as u64 => {
                        self.playlevel = Some(n as u16);
                        proof {
                            assert(self@ =~= crate::model::step_fixed(old(self)@, f, op@));
                        }
                    },
                    _ => {
                        proof {
                            assert(playlevel_of(op@) is None);
                        }
                        self.push_malformed(DirectiveId::Field(f), op);
                    },
                }
            },
            FieldId::Difficulty => {
                match parse_uint(op.as_slice()) {
                    Some(n) if 1 <= n && n <= 5 => {
                        self.difficulty = Difficulty::from_repr((n - 1) as u8);
                        proof {
                            assert(self@ =~= crate::model::step_fixed(old(self)@, f, op@));
                        }
                    },
                    _ => {
                        proof {
                            assert(difficulty_of(op@) is None);
                        }
                        self.push_malformed(DirectiveId::Field(f), op);
                    },
                }
            },
            FieldId::Title => {
                self.title = Some(string_from_chars(op.as_slice()));
                proof {
                    assert(self@ =~= crate::model::step_fixed(old(self)@, f, op@));
                }
            },
            FieldId::Subtitle => {
                self.subtitle = Some(string_from_chars(op.as_slice()));
                proof {
                    assert(self@ =~= crate::model::step_fixed(old(self)@, f, op@));
                }
            },
            FieldId::Artist => {
                self.artist = Some(string_from_chars(op.as_slice()));
                proof {
                    assert(self@ =~= crate::model::step_fixed(old(self)@, f, op@));
                }
            },
            FieldId::Subartist => {
                self.subartist = Some(string_from_chars(op.as_slice()));
                proof {
                    assert(self@ =~= crate::model::step_fixed(old(self)@, f, op@));
                }
            },
            FieldId::Maker => {
                self.maker = Some(string_from_chars(op.as_slice()));
                proof {
                    assert(self@ =~= crate::model::step_fixed(old(self)@, f, op@));
                }
            },
            FieldId::Genre => {
                self.genre = Some(string_from_chars(op.as_slice()));
                proof {
                    assert(self@ =~= crate::model::step_fixed(old(self)@, f, op@));
                }
            },
            FieldId::Bpm => {
                match parse_fixed100(op.as_slice()) {
                    Some(v) => {
                        self.bpm = Some(v);
                        proof {
                            assert(self@ =~= crate::model::step_fixed(old(self)@, f, op@));
                        }
                    },
                    None => {
                        self.push_malformed(DirectiveId::Field(f), op);
                    },
                }
            },
            FieldId::LnType => {
                match parse_uint(op.as_slice()) {
                    Some(n) if n <= 3 => {
                        self.lntype = Some(n as u8);
                        proof {
                            assert(self@ =~= crate::model::step_fixed(old(self)@, f, op@));
                        }
                    },
                    _ => {
                        proof {
                            assert(lntype_of(op@) is None);
                        }
                        self.push_malformed(DirectiveId::Field(f), op);
                    },
                }
            },
            FieldId::LnObj => {
                if op.len() == 2 {
                    match Identifier::from_chars(op[0], op[1]) {
                        Some(id) => {
                            self.lnobj = Some(id);
                            proof {
                                assert(self@ =~= crate::model::step_fixed(old(self)@, f, op@));
                            }
                        },
                        None => {
                            self.push_malformed(DirectiveId::Field(f), op);
                        },
                    }
                } else {
                    proof {
                        assert(lnobj_of(op@) is None);
                    }
                    self.push_malformed(DirectiveId::Field(f), op);
                }
            },
        }
    }

    /// Applies one indexed directive under first-definition-wins.
    fn apply_indexed(&mut self, fam: Family, id: Identifier, op: Vec<char>)
        requires
            old(self).wf(),
            id.wf(),
        ensures
            final(self).wf(),
            final(self)@ == crate::model::step_indexed(old(self)@, fam, id@, op@),
    {
        match fam {
            Family::Wav => {
                if op.len() == 0 {
                    self.push_malformed(DirectiveId::Indexed(fam), op);
                } else {
                    proof {
                        lemma_str_entries_has_key(self.wav.spec_entries(), id@);
                    }
                    let v = string_from_chars(op.as_slice());
                    let fresh = self.wav.insert(id, v);
                    if !fresh {
                        self.push_duplicate(fam, id);
                    } else {
                        proof {
                            lemma_map_values_push(
                                old(self).wav_table().spec_entries(),
                                |e: (u16, String)| (e.0, e.1@),
                                (id@, v),
                            );
                        }
                    }
                    proof {
                        assert(self@ =~= crate::model::step_indexed(old(self)@, fam, id@, op@));
                    }
                }
            },
            Family::Bmp => {
                if op.len() == 0 {
                    self.push_malformed(DirectiveId::Indexed(fam), op);
                } else {
                    proof {
                        lemma_str_entries_has_key(self.bmp.spec_entries(), id@);
                    }
                    let v = string_from_chars(op.as_slice());
                    let fresh = self.bmp.insert(id, v);
                    if !fresh {
                        self.push_duplicate(fam, id);
                    } else {
                        proof {
                            lemma_map_values_push(
                                old(self).bmp_table().spec_entries(),
                                |e: (u16, String)| (e.0, e.1@),
                                (id@, v),
                            );
                        }
                    }
                    proof {
                        assert(self@ =~= crate::model::step_indexed(old(self)@, fam, id@, op@));
                    }
                }
            },
            Family::ExBpm => {
                match parse_fixed100(op.as_slice()) {
                    Some(v) => {
                        let fresh = self.exbpm.insert(id, v);
                        if !fresh {
                            self.push_duplicate(fam, id);
                        }
                        proof {
                            assert(self@ =~= crate::model::step_indexed(old(self)@, fam, id@, op@));
                        }
                    },
                    None => {
                        self.push_malformed(DirectiveId::Indexed(fam), op);
                    },
                }
            },
            Family::Stop => {
                match stop_exec(op.as_slice()) {
                    Some(v) => {
                        let fresh = self.stop.insert(id, v);
                        if !fresh {
                            self.push_duplicate(fam, id);
                        }
                        proof {
                            assert(self@ =~= crate::model::step_indexed(old(self)@, fam, id@, op@));
                        }
                    },
                    None => {
                        self.push_malformed(DirectiveId::Indexed(fam), op);
                    },
                }
            },
            Family::ExRank => {
                match percent_exec(op.as_slice()) {
                    Some(v) => {
                        let fresh = self.exrank.insert(id, v);
                        if !fresh {
                            self.push_duplicate(fam, id);
                        }
                        proof {
                            assert(self@ =~= crate::model::step_indexed(old(self)@, fam, id@, op@));
                        }
                    },
                    None => {
                        self.push_malformed(DirectiveId::Indexed(fam), op);
                    },
                }
            },
        }
    }
}

/// Executable form of `percent_of`.
fn percent_exec(op: &[char]) -> (r: Option<u32>)
    ensures
        r == percent_of(op@),
{
    match parse_fixed100(op) {
        Some(v) => {
            if 0 <= v && v <= u32::MAX as i64 {
                Some(v as u32)
            } else {
                None
            }
        },
        None => None,
    }
}

/// Executable form of `stop_of`.
fn stop_exec(op: &[char]) -> (r: Option<u32>)
    ensures
        r == stop_of(op@),
{
    match parse_fixed100(op) {
        Some(v) => {
            if 0 <= v && v / 100 <= u32::MAX as i64 {
                Some((v / 100) as u32)
            } else {
                None
            }
        },
        None => None,
    }
}

/// The finalized, immutable header: every scalar field concrete (its
/// documented default substituted when it stayed unset or malformed),
/// the five tables, and the effective title and subtitle after implicit
/// extraction. Fields without a documented default stay optional.
pub struct Header {
    pub player: Player,
    pub rank: Rank,
    pub def_ex_rank: Option<u32>,
    pub total: Total,
    pub volwav: Volwav,
    pub stagefile: Stagefile,
    pub banner: Banner,
    pub back_bmp: BackBmp,
    pub play_level: PlayLevel,
    pub difficulty: Option<Difficulty>,
    pub title: Title,
    pub subtitle: Subtitle,
    pub artist: Artist,
    pub subartist: Subartist,
    pub maker: Maker,
    pub genre: Genre,
    pub bpm: ConstantBPM,
    pub ln_type: Option<LNType>,
    pub ln_obj: Option<LNObj>,
    pub wav: IndexedTable<String>,
    pub bmp: IndexedTable<String>,
    pub ex_bpm: IndexedTable<i64>,
    pub stop: IndexedTable<u32>,
    pub ex_rank: IndexedTable<u32>,
}

/// The content of an optional string, or empty.
pub open spec fn or_empty(o: Option<Seq<char>>) -> Seq<char> {
    match o {
        Some(s) => s,
        None => Seq::empty(),
    }
}

/// The effective title: untouched when an explicit subtitle exists,
/// otherwise the prefix left by implicit-subtitle extraction.
pub open spec fn final_title(m: ParseModel) -> Seq<char> {
    if or_empty(m.subtitle).len() > 0 {
        or_empty(m.title)
    } else {
        split_title(or_empty(m.title)).0
    }
}

/// The effective subtitle: the explicit one verbatim when non-empty,
/// otherwise the extracted implicit span, otherwise empty.
pub open spec fn final_subtitle(m: ParseModel) -> Seq<char> {
    if or_empty(m.subtitle).len() > 0 {
        or_empty(m.subtitle)
    } else {
        match split_title(or_empty(m.title)).1 {
            Some(s) => s,
            None => Seq::empty(),
        }
    }
}

/// The diagnostics after finalization: an omitted title is the one
/// default that carries its own diagnostic.
pub open spec fn final_diags(m: ParseModel) -> Seq<DiagModel> {
    if m.title is None {
        m.diags.push(DiagModel::Malformed(DirectiveId::Field(FieldId::Title), Seq::empty()))
    } else {
        m.diags
    }
}

/// How a finalized header relates to an assembled parse state: every
/// scalar carries its parsed value or its documented default, the tables
/// carry exactly the retained entries, and title/subtitle are the
/// extracted pair.
pub open spec fn header_matches(h: Header, m: ParseModel) -> bool {
    &&& h.player == (match m.player {
        Some(v) => v,
        None => Player::One,
    })
    &&& h.rank == (match m.rank {
        Some(v) => v,
        None => Rank::Normal,
    })
    &&& h.def_ex_rank == m.defexrank
    &&& h.total == Total(
        match m.total {
            Some(v) => v,
            None => TOTAL_DEFAULT,
        },
    )
    &&& h.volwav == Volwav(
        match m.volwav {
            Some(v) => v,
            None => VOLWAV_DEFAULT,
        },
    )
    &&& h.stagefile.0@ == or_empty(m.stagefile)
    &&& h.banner.0@ == or_empty(m.banner)
    &&& h.back_bmp.0@ == or_empty(m.backbmp)
    &&& h.play_level == PlayLevel(
        match m.playlevel {
            Some(v) => v,
            None => PLAYLEVEL_DEFAULT,
        },
    )
    &&& h.difficulty == m.difficulty
    &&& h.title.0@ == final_title(m)
    &&& h.subtitle.0@ == final_subtitle(m)
    &&& h.artist.0@ == or_empty(m.artist)
    &&& h.subartist.0@ == or_empty(m.subartist)
    &&& h.maker.0@ == or_empty(m.maker)
    &&& h.genre.0@ == or_empty(m.genre)
    &&& h.bpm == ConstantBPM(
        match m.bpm {
            Some(v) => v,
            None => BPM_DEFAULT,
        },
    )
    &&& h.ln_type == (match m.lntype {
        Some(v) => Some(LNType(v)),
        None => None::<LNType>,
    })
    &&& (match (h.ln_obj, m.lnobj) {
        (Some(o), Some(k)) => o.0@ == k,
        (None, None) => true,
        _ => false,
    })
    &&& str_entries_view(h.wav.spec_entries()) == m.wav
    &&& str_entries_view(h.bmp.spec_entries()) == m.bmp
    &&& h.ex_bpm.spec_entries() == m.exbpm
    &&& h.stop.spec_entries() == m.stop
    &&& h.ex_rank.spec_entries() == m.exrank
    &&& h.wav.wf() && h.bmp.wf() && h.ex_bpm.wf() && h.stop.wf() && h.ex_rank.wf()
}

/// Takes an owned string out of an option, or the empty string.
fn take_or_empty(o: Option<String>) -> (r: String)
    ensures
        r@ == or_empty(opt_str_view(o)),
{
    match o {
        Some(s) => s,
        None => String::new(),
    }
}

/// Finalizes a builder: substitutes every documented default, extracts
/// the implicit subtitle, and returns the header with the ordered
/// diagnostics.
pub fn finalize(b: HeaderBuilder) -> (r: (Header, Vec<Diagnostic>))
    requires
        b.wf(),
    ensures
        header_matches(r.0, b@),
        r.1@.map_values(|d: Diagnostic| d@) == final_diags(b@),
{
    let ghost m = b@;
    let HeaderBuilder {
        player,
        rank,
        defexrank,
        total,
        volwav,
        stagefile,
        banner,
        backbmp,
        playlevel,
        difficulty,
        title,
        subtitle,
        artist,
        subartist,
        maker,
        genre,
        bpm,
        lntype,
        lnobj,
        wav,
        bmp,
        exbpm,
        stop,
        exrank,
        mut diags,
    } = b;
    let title_missing = title.is_none();
    let raw_title = take_or_empty(title);
    let explicit_sub = take_or_empty(subtitle);
    let (eff_title, eff_sub): (String, String) = if explicit_sub.as_str().unicode_len() > 0 {
        (raw_title, explicit_sub)
    } else {
        let tchars = chars_of(raw_title.as_str());
        let (pre, osub) = split_title_exec(tchars.as_slice());
        let t = string_from_chars(pre.as_slice());
        match osub {
            Some(sub) => (t, string_from_chars(sub.as_slice())),
            None => (t, String::new()),
        }
    };
    if title_missing {
        let ghost d0 = diags@;
        let raw = String::new();
        diags.push(Diagnostic::malformed(DirectiveId::Field(FieldId::Title), raw));
        proof {
            lemma_map_values_push(
                d0,
                |d: Diagnostic| d@,
                Diagnostic::MalformedOperand(DirectiveId::Field(FieldId::Title), raw),
            );
        }
    }
    let h = Header {
        player: match player {
            Some(v) => v,
            None => Player::default(),
        },
        rank: match rank {
            Some(v) => v,
            None => Rank::default(),
        },
        def_ex_rank: defexrank,
        total: match total {
            Some(v) => Total(v),
            None => Total::default(),
        },
        volwav: match volwav {
            Some(v) => Volwav(v),
            None => Volwav::default(),
        },
        stagefile: Stagefile(take_or_empty(stagefile)),
        banner: Banner(take_or_empty(banner)),
        back_bmp: BackBmp(take_or_empty(backbmp)),
        play_level: match playlevel {
            Some(v) => PlayLevel(v),
            None => PlayLevel::default(),
        },
        difficulty,
        title: Title(eff_title),
        subtitle: Subtitle(eff_sub),
        artist: Artist(take_or_empty(artist)),
        subartist: Subartist(take_or_empty(subartist)),
        maker: Maker(take_or_empty(maker)),
        genre: Genre(take_or_empty(genre)),
        bpm: match bpm {
            Some(v) => ConstantBPM(v),
            None => ConstantBPM::default(),
        },
        ln_type: match lntype {
            Some(v) => Some(LNType(v)),
            None => None,
        },
        ln_obj: match lnobj {
            Some(id) => Some(LNObj(id)),
            None => None,
        },
        wav,
        bmp,
        ex_bpm: exbpm,
        stop,
        ex_rank: exrank,
    };
    (h, diags)
}

/// Parses a sequence of decoded lines into a finalized header and its
/// diagnostics: the fold of `step` over the lines, then finalization.
pub fn parse_lines(lines: &Vec<Vec<char>>) -> (r: (Header, Vec<Diagnostic>))
    ensures
        header_matches(r.0, run_lines(lines@.map_values(|l: Vec<char>| l@))),
        r.1@.map_values(|d: Diagnostic| d@) == final_diags(
            run_lines(lines@.map_values(|l: Vec<char>| l@)),
        ),
{
    let ghost ls = lines@.map_values(|l: Vec<char>| l@);
    let mut b = HeaderBuilder::new();
    let mut i: usize = 0;
    proof {
        assert(ls.take(0) =~= Seq::<Seq<char>>::empty());
    }
    while i < lines.len()
        invariant
            i <= lines@.len(),
            ls == lines@.map_values(|l: Vec<char>| l@),
            b.wf(),
            b@ == run_lines(ls.take(i as int)),
        decreases lines@.len() - i,
    {
        b.apply_line(lines[i].as_slice());
        proof {
            assert(ls.take(i as int + 1).drop_last() =~= ls.take(i as int));
            assert(ls.take(i as int + 1).last() == ls[i as int]);
        }
        i = i + 1;
    }
    proof {
        assert(ls.take(ls.len() as int) =~= ls);
    }
    finalize(b)
}

impl Header {
    /// The WAV resource an identifier refers to, as its record.
    pub fn wav_at(&self, id: Identifier) -> (r: Option<Wav>)
        requires
            self.wav.wf(),
        ensures
            (match r {
                Some(w) => self.wav.spec_get(id@) matches Some(f) && w.0 == id && w.1@ == f@,
                None => self.wav.spec_get(id@) is None,
            }),
    {
        match self.wav.get(id) {
            Some(f) => Some(Wav(id, f.clone())),
            None => None,
        }
    }

    /// The BMP resource an identifier refers to, as its record.
    pub fn bmp_at(&self, id: Identifier) -> (r: Option<Bmp>)
        requires
            self.bmp.wf(),
        ensures
            (match r {
                Some(w) => self.bmp.spec_get(id@) matches Some(f) && w.0 == id && w.1@ == f@,
                None => self.bmp.spec_get(id@) is None,
            }),
    {
        match self.bmp.get(id) {
            Some(f) => Some(Bmp(id, f.clone())),
            None => None,
        }
    }

    /// The tempo change an identifier refers to, as a tempo directive.
    pub fn bpm_change(&self, id: Identifier) -> (r: Option<BPM>)
        requires
            self.ex_bpm.wf(),
        ensures
            (match r {
                Some(b) => self.ex_bpm.spec_get(id@) matches Some(v) && b == BPM::Extended(
                    ExBPM(id, v),
                ),
                None => self.ex_bpm.spec_get(id@) is None,
            }),
    {
        match self.ex_bpm.get(id) {
            Some(v) => Some(BPM::Extended(ExBPM(id, *v))),
            None => None,
        }
    }

    /// The starting tempo as a tempo directive.
    pub fn chart_bpm(&self) -> (r: BPM)
        ensures
            r == BPM::Constant(self.bpm),
    {
        BPM::Constant(self.bpm)
    }

    /// The scroll freeze an identifier refers to, as its record.
    pub fn stop_at(&self, id: Identifier) -> (r: Option<Stop>)
        requires
            self.stop.wf(),
        ensures
            (match r {
                Some(s) => self.stop.spec_get(id@) matches Some(v) && s == Stop(id, v),
                None => self.stop.spec_get(id@) is None,
            }),
    {
        match self.stop.get(id) {
            Some(v) => Some(Stop(id, *v)),
            None => None,
        }
    }

    /// The finalized title and subtitle as one derived value; the
    /// subtitle is absent exactly when the stored subtitle is empty.
    pub fn title_parts(&self) -> (r: TitleParts)
        ensures
            r.title@ == self.title.0@,
            (match r.subtitle {
                Some(s) => self.subtitle.0@.len() > 0 && s@ == self.subtitle.0@,
                None => self.subtitle.0@.len() == 0,
            }),
    {
        let title = self.title.0.clone();
        if self.subtitle.0.as_str().unicode_len() > 0 {
            TitleParts { title, subtitle: Some(self.subtitle.0.clone()) }
        } else {
            TitleParts { title, subtitle: None }
        }
    }
}

} // verus!
