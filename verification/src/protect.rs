//! The protection evaluator.
//!
//! Before a position group is rebalanced, two rules exempt candidates from
//! demotion: a rookie who played enough games this season, and a player whose
//! tier in the after snapshot is strictly higher than in the before snapshot.
//! The second rule also marks the player upgraded, which blocks them from
//! being selected for a further promotion. Both marks accumulate globally
//! across the groups of a run.

use crate::rebalance::RebalanceState;
use crate::rebalance::StateView;
use crate::roster::Player;
use crate::stats::StatTables;
use crate::stats::spec_games_played;
use crate::stats::games_played;
use crate::stats::stats_wf;
use crate::text::add_name;
use crate::tier::Tier;
use vstd::prelude::*;

verus! {

/// The first after-snapshot record of a player, if any.
pub open spec fn spec_find_after(after: Seq<Player>, id: u32) -> Option<Player>
    decreases after.len(),
{
    if after.len() == 0 {
        None
    } else if after[0].roster_id == id {
        Some(after[0])
    } else {
        spec_find_after(after.skip(1), id)
    }
}

/// A player was promoted externally between the snapshots.
pub open spec fn spec_externally_upgraded(p: Player, after: Seq<Player>) -> bool {
    match spec_find_after(after, p.roster_id) {
        Some(a) => a.tier.rank() > p.tier.rank(),
        None => false,
    }
}

/// A rookie with enough playing time: few professional years and a
/// games-played figure at or above the threshold.
pub open spec fn spec_rookie_protected(
    p: Player,
    stats: &StatTables,
    max_years: u8,
    min_games: u32,
) -> bool {
    p.years_pro <= max_years && spec_games_played(stats, p.roster_id) >= min_games
}

/// The protection pass over one group's candidates: rookies with playing
/// time become protected; externally promoted players become protected and
/// upgraded. Recorded changes are untouched.
pub open spec fn spec_protect_pass(
    st: StateView,
    cands: Seq<Player>,
    after: Seq<Player>,
    stats: &StatTables,
    max_years: u8,
    min_games: u32,
) -> StateView
    decreases cands.len(),
{
    if cands.len() == 0 {
        st
    } else {
        let p = cands[0];
        let st1 = if spec_rookie_protected(p, stats, max_years, min_games) {
            StateView { protected: st.protected.insert(p.name@), ..st }
        } else {
            st
        };
        let st2 = if spec_externally_upgraded(p, after) {
            StateView {
                protected: st1.protected.insert(p.name@),
                upgraded: st1.upgraded.insert(p.name@),
                changes: st1.changes,
            }
        } else {
            st1
        };
        spec_protect_pass(st2, cands.skip(1), after, stats, max_years, min_games)
    }
}

/// Finds the after-snapshot tier of a player.
fn find_after_tier(after: &Vec<Player>, id: u32) -> (r: Option<Tier>)
    ensures
        match spec_find_after(after@, id) {
            Some(a) => r == Some(a.tier),
            None => r is None,
        },
{
    let mut i: usize = 0;
    proof {
        assert(after@.skip(0) =~= after@);
    }
    while i < after.len()
        invariant
            0 <= i <= after@.len(),
            spec_find_after(after@, id) == spec_find_after(after@.skip(i as int), id),
        decreases after@.len() - i,
    {
        if after[i].roster_id == id {
            proof {
                assert(after@.skip(i as int)[0] == after@[i as int]);
            }
            return Some(after[i].tier);
        }
        proof {
            assert(after@.skip(i as int).skip(1) =~= after@.skip(i as int + 1));
        }
        i = i + 1;
    }
    None
}

/// Runs the protection pass over one group's candidates.
pub fn protect_pass(
    st: &mut RebalanceState,
    cands: &Vec<Player>,
    after: &Vec<Player>,
    stats: &StatTables,
    max_years: u8,
    min_games: u32,
)
    requires
        stats_wf(stats),
    ensures
        final(st)@ == spec_protect_pass(old(st)@, cands@, after@, stats, max_years, min_games),
{
    let mut i: usize = 0;
    proof {
        assert(cands@.skip(0) =~= cands@);
    }
    while i < cands.len()
        invariant
            0 <= i <= cands@.len(),
            stats_wf(stats),
            spec_protect_pass(old(st)@, cands@, after@, stats, max_years, min_games)
                == spec_protect_pass(
                st@,
                cands@.skip(i as int),
                after@,
                stats,
                max_years,
                min_games,
            ),
        decreases cands@.len() - i,
    {
        let ghost pre = st@;
        proof {
            assert(cands@.skip(i as int)[0] == cands@[i as int]);
            assert(cands@.skip(i as int).skip(1) =~= cands@.skip(i as int + 1));
        }
        let p_years = cands[i].years_pro;
        if p_years <= max_years {
            let g = games_played(stats, cands[i].roster_id);
            if g >= min_games as u64 {
                add_name(&mut st.protected, &cands[i].name);
            }
        }
        let ghost mid = st@;
        proof {
            let p = cands@[i as int];
            if spec_rookie_protected(p, stats, max_years, min_games) {
                assert(mid.protected == pre.protected.insert(p.name@));
                assert(mid.upgraded == pre.upgraded);
                assert(mid.changes == pre.changes);
            } else {
                assert(mid == pre);
            }
        }
        let after_tier = find_after_tier(after, cands[i].roster_id);
        let externally_upgraded = match after_tier {
            Some(t) => t.rank_u8() > cands[i].tier.rank_u8(),
            None => false,
        };
        if externally_upgraded {
            add_name(&mut st.protected, &cands[i].name);
            add_name(&mut st.upgraded, &cands[i].name);
        }
        proof {
            let p = cands@[i as int];
            if spec_externally_upgraded(p, after@) {
                assert(st@.protected == mid.protected.insert(p.name@));
                assert(st@.upgraded == mid.upgraded.insert(p.name@));
                assert(st@.changes == mid.changes);
            } else {
                assert(st@ == mid);
            }
        }
        i = i + 1;
    }
}

} // verus!
