//! Judge-rank resolution. The effective judge timing half-window is kept
//! in units of 1/10000 millisecond so every percentage scaling is exact:
//! the four fixed windows are VeryHard 8 ms, Hard 15 ms, Normal 18 ms and
//! Easy 21 ms, and DEFEXRANK / EXRANK percentages always scale the Normal
//! window (18 ms), never whichever global rank is active. An EXRANK event
//! stays in force until the next EXRANK event fires; there is no
//! automatic reset at a measure boundary. A rank change sharing a chart
//! position with a note takes effect for that position.

use vstd::prelude::*;
use crate::fields::JudgeRankType;
use crate::fields::Rank;
use crate::header::Header;
use crate::ident::Identifier;
use crate::table::entries_find;

verus! {

/// One ten-thousandth of a millisecond: the window unit.
pub const WINDOW_UNITS_PER_MS: u64 = 10000;

/// The fixed half-window of a global rank, in window units.
pub open spec fn base_window_e4(r: Rank) -> u64 {
    match r {
        Rank::VeryHard => 80000u64,
        Rank::Hard => 150000u64,
        Rank::Normal => 180000u64,
        Rank::Easy => 210000u64,
    }
}

/// A percentage of the Normal (18 ms) window, in window units: the
/// percentage is in hundredths, so 18 ms * p / 10000 is 18 * p units.
pub open spec fn pct_window_e4(p: u32) -> u64 {
    (18 * p) as u64
}

/// The chart-wide baseline window: a DEFEXRANK percentage overrides the
/// global rank's fixed window.
pub open spec fn baseline_window_e4(h: Header) -> u64 {
    match h.def_ex_rank {
        Some(p) => pct_window_e4(p),
        None => base_window_e4(h.rank),
    }
}

/// Folds the timeline's EXRANK events over the baseline: each event at or
/// before `pos` whose identifier resolves in the table replaces the
/// window; an unresolved identifier leaves it unchanged.
pub open spec fn eff_window_rec(
    exrank: Seq<(u16, u32)>,
    events: Seq<(u64, u16)>,
    pos: u64,
    base: u64,
) -> u64
    decreases events.len(),
{
    if events.len() == 0 {
        base
    } else {
        let nb = if events[0].0 <= pos {
            match entries_find(exrank, events[0].1) {
                Some(p) => pct_window_e4(p),
                None => base,
            }
        } else {
            base
        };
        eff_window_rec(exrank, events.drop_first(), pos, nb)
    }
}

/// Default substitution: a finalized header whose parse saw no `#RANK`
/// and no `#DEFEXRANK` has the Normal 18 ms baseline window; one that
/// saw no `#TOTAL` has a gauge total of 160; one that saw no
/// `#PLAYLEVEL` has level 3.
pub proof fn lemma_default_substitution(h: Header, m: crate::model::ParseModel)
    requires
        crate::header::header_matches(h, m),
    ensures
        m.rank is None && m.defexrank is None ==> baseline_window_e4(h) == 180000,
        m.total is None ==> h.total == crate::fields::Total(16000),
        m.playlevel is None ==> h.play_level == crate::fields::PlayLevel(3),
{
}

impl Header {
    /// The three-way rank source of this chart's baseline window.
    pub fn rank_source(&self) -> (r: JudgeRankType)
        ensures
            r == (match self.def_ex_rank {
                Some(p) => JudgeRankType::Defexrank(p),
                None => JudgeRankType::Rank,
            }),
    {
        match self.def_ex_rank {
            Some(p) => JudgeRankType::Defexrank(p),
            None => JudgeRankType::Rank,
        }
    }

    /// The in-chart rank change an EXRANK identifier stands for, if the
    /// identifier is defined.
    pub fn exrank_source(&self, id: Identifier) -> (r: Option<JudgeRankType>)
        requires
            self.ex_rank.wf(),
        ensures
            r == (match self.ex_rank.spec_get(id@) {
                Some(p) => Some(JudgeRankType::Exrank(id, p)),
                None => None::<JudgeRankType>,
            }),
    {
        match self.ex_rank.get(id) {
            Some(p) => Some(JudgeRankType::Exrank(id, *p)),
            None => None,
        }
    }

    /// The chart-wide baseline window, in window units.
    pub fn baseline_window(&self) -> (r: u64)
        ensures
            r == baseline_window_e4(*self),
    {
        match self.def_ex_rank {
            Some(p) => 18 * (p as u64),
            None => match self.rank {
                Rank::VeryHard => 80000,
                Rank::Hard => 150000,
                Rank::Normal => 180000,
                Rank::Easy => 210000,
            },
        }
    }

    /// The effective judge half-window at a chart position, in window
    /// units, given the time-ordered EXRANK events the timeline fired.
    pub fn effective_window(&self, events: &Vec<(u64, Identifier)>, pos: u64) -> (r: u64)
        requires
            self.ex_rank.wf(),
        ensures
            r == eff_window_rec(
                self.ex_rank.spec_entries(),
                events@.map_values(|e: (u64, Identifier)| (e.0, e.1@)),
                pos,
                baseline_window_e4(*self),
            ),
    {
        let ghost evs = events@.map_values(|e: (u64, Identifier)| (e.0, e.1@));
        let mut w = self.baseline_window();
        let mut i: usize = 0;
        proof {
            assert(evs.skip(0) =~= evs);
        }
        while i < events.len()
            invariant
                i <= events@.len(),
                evs == events@.map_values(|e: (u64, Identifier)| (e.0, e.1@)),
                self.ex_rank.wf(),
                eff_window_rec(self.ex_rank.spec_entries(), evs, pos, baseline_window_e4(*self))
                    == eff_window_rec(self.ex_rank.spec_entries(), evs.skip(i as int), pos, w),
            decreases events@.len() - i,
        {
            let (epos, id) = events[i];
            if epos <= pos {
                match self.ex_rank.get(id) {
                    Some(p) => {
                        w = 18 * (*p as u64);
                    },
                    None => {},
                }
            }
            proof {
                assert(evs.skip(i as int).drop_first() =~= evs.skip(i as int + 1));
                assert(evs.skip(i as int)[0] == evs[i as int]);
            }
            i = i + 1;
        }
        proof {
            assert(evs.skip(evs.len() as int) =~= Seq::<(u64, u16)>::empty());
        }
        w
    }
}

} // verus!
