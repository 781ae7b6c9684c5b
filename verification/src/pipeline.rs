//! The end-to-end run: for each canonical group in fixed order, gather the
//! candidates from the before snapshot, evaluate protections, score and sort
//! the candidates, and rebalance the group's three tier boundaries. The
//! result is the accumulated state: recorded tier changes and the protected
//! and upgraded name sets.

use crate::config::LeagueConfig;
use crate::config::config_wf;
use crate::config::spec_limits_for;
use crate::position::PositionGroup;
use crate::position::classify;
use crate::position::spec_classify;
use crate::position::spec_group_order;
use crate::position::group_order;
use crate::protect::protect_pass;
use crate::protect::spec_protect_pass;
use crate::rebalance::RebalanceState;
use crate::rebalance::StateView;
use crate::rebalance::rebalance_group;
use crate::rebalance::spec_rebalance_group;
use crate::roster::Player;
use crate::roster::PlayerEntry;
use crate::roster::entries_wf;
use crate::score::Score;
use crate::score::spec_age_multiplier;
use crate::score::age_multiplier_hundredths;
use crate::scoring::OL_FACTOR_MAX;
use crate::scoring::OL_FACTOR_MIN;
use crate::scoring::spec_defense_score;
use crate::scoring::spec_kicker_score;
use crate::scoring::spec_ol_score;
use crate::scoring::spec_punter_score;
use crate::scoring::spec_qb_score;
use crate::scoring::spec_receiver_score;
use crate::scoring::defense_score;
use crate::scoring::kicker_score;
use crate::scoring::ol_score;
use crate::scoring::punter_score;
use crate::scoring::qb_score;
use crate::scoring::receiver_score;
use crate::sort::sort_entries;
use crate::sort::spec_sort_entries;
use crate::stats::KickingRecord;
use crate::stats::PuntingRecord;
use crate::stats::StatTables;
use crate::stats::find_defense;
use crate::stats::find_kicking;
use crate::stats::find_passing;
use crate::stats::find_punting;
use crate::stats::find_receiving;
use crate::stats::find_rushing;
use crate::stats::kicking_wf;
use crate::stats::punting_wf;
use crate::stats::spec_find_defense;
use crate::stats::spec_find_kicking;
use crate::stats::spec_find_passing;
use crate::stats::spec_find_punting;
use crate::stats::spec_find_receiving;
use crate::stats::spec_find_rushing;
use crate::stats::stats_wf;
use crate::text::contains_name;
use crate::text::name_set;
use vstd::prelude::*;

verus! {

/// A player is a candidate of group `g` when they are active and their raw
/// label classifies into `g`, given whether their team runs a 3-4 front.
pub open spec fn spec_is_candidate(p: Player, g: PositionGroup, scheme: Seq<String>) -> bool {
    &&& !p.retired
    &&& spec_classify(p.position@, name_set(scheme).contains(p.team@)) == Some(g)
}

/// The candidates of group `g`, in snapshot order.
pub open spec fn spec_candidates(
    players: Seq<Player>,
    g: PositionGroup,
    scheme: Seq<String>,
) -> Seq<Player>
    decreases players.len(),
{
    if players.len() == 0 {
        Seq::empty()
    } else {
        (if spec_is_candidate(players[0], g, scheme) {
            seq![players[0]]
        } else {
            Seq::empty()
        }) + spec_candidates(players.skip(1), g, scheme)
    }
}

/// There are no more candidates than players.
pub proof fn lemma_candidates_len(players: Seq<Player>, g: PositionGroup, scheme: Seq<String>)
    ensures
        spec_candidates(players, g, scheme).len() <= players.len(),
    decreases players.len(),
{
    if players.len() > 0 {
        lemma_candidates_len(players.skip(1), g, scheme);
    }
}

/// Collects the candidates of group `g` from the before snapshot.
pub fn candidates(players: &Vec<Player>, g: PositionGroup, scheme: &Vec<String>) -> (r: Vec<Player>)
    ensures
        r@ == spec_candidates(players@, g, scheme@),
{
    let mut r: Vec<Player> = Vec::new();
    let mut i: usize = 0;
    proof {
        assert(players@.skip(0) =~= players@);
        assert(r@ + spec_candidates(players@, g, scheme@) =~= spec_candidates(
            players@,
            g,
            scheme@,
        ));
    }
    while i < players.len()
        invariant
            0 <= i <= players@.len(),
            spec_candidates(players@, g, scheme@) == r@ + spec_candidates(
                players@.skip(i as int),
                g,
                scheme@,
            ),
        decreases players@.len() - i,
    {
        proof {
            assert(players@.skip(i as int)[0] == players@[i as int]);
            assert(players@.skip(i as int).skip(1) =~= players@.skip(i as int + 1));
        }
        let ghost pre = r@;
        let in_scheme = contains_name(scheme, &players[i].team);
        let is_cand = !players[i].retired && match classify(players[i].position.as_str(), in_scheme) {
            Some(got) => got == g,
            None => false,
        };
        if is_cand {
            r.push(players[i].clone_player());
            proof {
                assert(r@ =~= pre + seq![players@[i as int]]);
                assert((pre + seq![players@[i as int]]) + spec_candidates(
                    players@.skip(i as int + 1),
                    g,
                    scheme@,
                ) =~= pre + (seq![players@[i as int]] + spec_candidates(
                    players@.skip(i as int + 1),
                    g,
                    scheme@,
                )));
            }
        }
        i = i + 1;
    }
    proof {
        assert(players@.skip(players@.len() as int) =~= Seq::<Player>::empty());
        assert(r@ + Seq::<Player>::empty() =~= r@);
    }
    r
}

impl Player {
    /// Copies a player field by field.
    pub fn clone_player(&self) -> (r: Player)
        ensures
            r == *self,
    {
        Player {
            roster_id: self.roster_id,
            name: self.name.clone(),
            team: self.team.clone(),
            position: self.position.clone(),
            age: self.age,
            years_pro: self.years_pro,
            best_overall: self.best_overall,
            tier: self.tier,
            retired: self.retired,
        }
    }
}

/// The score of candidate `p` of group `g`. For an offensive lineman, `f` is
/// the injected random factor; every other group scores from the player's
/// stat records alone.
pub open spec fn spec_score_of(
    p: Player,
    g: PositionGroup,
    stats: &StatTables,
    c: &LeagueConfig,
    f: u32,
) -> Score {
    let mult = spec_age_multiplier(p.age as int, p.years_pro as int);
    match g {
        PositionGroup::QB => spec_qb_score(
            mult,
            spec_find_passing(stats.passing@, p.roster_id),
            spec_find_rushing(stats.rushing@, p.roster_id),
            c.weights,
        ),
        PositionGroup::HB | PositionGroup::FB | PositionGroup::WR | PositionGroup::TE => spec_receiver_score(
            mult,
            spec_find_receiving(stats.receiving@, p.roster_id),
            spec_find_rushing(stats.rushing@, p.roster_id),
            c.weights,
        ),
        PositionGroup::OL => spec_ol_score(mult, p.best_overall as int, f as int),
        PositionGroup::IDL
        | PositionGroup::EDGE
        | PositionGroup::LB
        | PositionGroup::CB
        | PositionGroup::S => spec_defense_score(
            mult,
            spec_find_defense(stats.defense@, p.roster_id),
            c.weights,
        ),
        PositionGroup::K => spec_kicker_score(
            mult,
            spec_find_kicking(stats.kicking@, p.roster_id),
            c.weights,
        ),
        PositionGroup::P => spec_punter_score(
            mult,
            spec_find_punting(stats.punting@, p.roster_id),
            c.weights,
        ),
    }
}

/// The scored roster of one group: candidate `i` becomes the entry with
/// index `i`, keeping name, team and tier, with the group's score.
pub open spec fn spec_make_entries(
    cands: Seq<Player>,
    g: PositionGroup,
    stats: &StatTables,
    c: &LeagueConfig,
    factors: Seq<u32>,
) -> Seq<PlayerEntry> {
    Seq::new(
        cands.len(),
        |i: int|
            PlayerEntry {
                idx: i as usize,
                name: cands[i].name,
                team: cands[i].team,
                tier: cands[i].tier,
                score: spec_score_of(
                    cands[i],
                    g,
                    stats,
                    c,
                    if 0 <= i < factors.len() {
                        factors[i]
                    } else {
                        0
                    },
                ),
            },
    )
}

/// A found kicking record comes from the table, so it is well-formed.
proof fn lemma_find_kicking_wf(s: Seq<KickingRecord>, id: u32)
    requires
        forall|i: int| 0 <= i < s.len() ==> kicking_wf(#[trigger] s[i]),
    ensures
        match spec_find_kicking(s, id) {
            Some(r) => kicking_wf(r),
            None => true,
        },
    decreases s.len(),
{
    if s.len() > 0 {
        assert(forall|i: int| 0 <= i < s.skip(1).len() ==> s.skip(1)[i] == s[i + 1]);
        lemma_find_kicking_wf(s.skip(1), id);
    }
}

/// A found punting record comes from the table, so it is well-formed.
proof fn lemma_find_punting_wf(s: Seq<PuntingRecord>, id: u32)
    requires
        forall|i: int| 0 <= i < s.len() ==> punting_wf(#[trigger] s[i]),
    ensures
        match spec_find_punting(s, id) {
            Some(r) => punting_wf(r),
            None => true,
        },
    decreases s.len(),
{
    if s.len() > 0 {
        assert(forall|i: int| 0 <= i < s.skip(1).len() ==> s.skip(1)[i] == s[i + 1]);
        lemma_find_punting_wf(s.skip(1), id);
    }
}

/// Scores one group's candidates into roster entries.
pub fn make_entries(
    cands: &Vec<Player>,
    g: PositionGroup,
    stats: &StatTables,
    c: &LeagueConfig,
    factors: &Vec<u32>,
) -> (r: Vec<PlayerEntry>)
    requires
        config_wf(c),
        stats_wf(stats),
        factors@.len() >= cands@.len(),
        forall|i: int| 0 <= i < factors@.len() ==> OL_FACTOR_MIN <= #[trigger] factors@[i]
            < OL_FACTOR_MAX,
    ensures
        r@ == spec_make_entries(cands@, g, stats, c, factors@),
        entries_wf(r@),
{
    let mut r: Vec<PlayerEntry> = Vec::new();
    let mut i: usize = 0;
    while i < cands.len()
        invariant
            0 <= i <= cands@.len(),
            r@.len() == i,
            config_wf(c),
            stats_wf(stats),
            factors@.len() >= cands@.len(),
            forall|j: int| 0 <= j < factors@.len() ==> OL_FACTOR_MIN <= #[trigger] factors@[j]
                < OL_FACTOR_MAX,
            forall|j: int| 0 <= j < i ==> r@[j] == spec_make_entries(
                cands@,
                g,
                stats,
                c,
                factors@,
            )[j],
            entries_wf(r@),
        decreases cands@.len() - i,
    {
        let p = &cands[i];
        let mult = age_multiplier_hundredths(p.age, p.years_pro);
        let score: Score = match g {
            PositionGroup::QB => {
                let pass = find_passing(&stats.passing, p.roster_id);
                let rush = find_rushing(&stats.rushing, p.roster_id);
                qb_score(mult, pass, rush, &c.weights)
            },
            PositionGroup::HB | PositionGroup::FB | PositionGroup::WR | PositionGroup::TE => {
                let recv = find_receiving(&stats.receiving, p.roster_id);
                let rush = find_rushing(&stats.rushing, p.roster_id);
                receiver_score(mult, recv, rush, &c.weights)
            },
            PositionGroup::OL => ol_score(mult, p.best_overall, factors[i]),
            PositionGroup::IDL
            | PositionGroup::EDGE
            | PositionGroup::LB
            | PositionGroup::CB
            | PositionGroup::S => {
                let d = find_defense(&stats.defense, p.roster_id);
                defense_score(mult, d, &c.weights)
            },
            PositionGroup::K => {
                let kick = find_kicking(&stats.kicking, p.roster_id);
                proof {
                    lemma_find_kicking_wf(stats.kicking@, p.roster_id);
                }
                kicker_score(mult, kick, &c.weights)
            },
            PositionGroup::P => {
                let punt = find_punting(&stats.punting, p.roster_id);
                proof {
                    lemma_find_punting_wf(stats.punting@, p.roster_id);
                }
                punter_score(mult, punt, &c.weights)
            },
        };
        let entry = PlayerEntry {
            idx: i,
            name: p.name.clone(),
            team: p.team.clone(),
            tier: p.tier,
            score,
        };
        proof {
            assert(entry == spec_make_entries(cands@, g, stats, c, factors@)[i as int]);
        }
        r.push(entry);
        i = i + 1;
    }
    proof {
        assert(r@ =~= spec_make_entries(cands@, g, stats, c, factors@));
    }
    r
}

/// One group's full pass: candidates, protections, scoring, sorting and
/// rebalancing.
pub open spec fn spec_run_group(
    st: StateView,
    g: PositionGroup,
    before: Seq<Player>,
    after: Seq<Player>,
    stats: &StatTables,
    c: &LeagueConfig,
    factors: Seq<u32>,
) -> StateView {
    let cands = spec_candidates(before, g, c.scheme_teams@);
    let st1 = spec_protect_pass(st, cands, after, stats, c.rookie_max_years, c.rookie_min_games);
    let roster = spec_sort_entries(spec_make_entries(cands, g, stats, c, factors));
    spec_rebalance_group(st1, roster, spec_limits_for(c, g), g)
}

/// The groups processed in order, threading the state.
pub open spec fn spec_run_groups(
    st: StateView,
    groups: Seq<PositionGroup>,
    before: Seq<Player>,
    after: Seq<Player>,
    stats: &StatTables,
    c: &LeagueConfig,
    factors: Seq<u32>,
) -> StateView
    decreases groups.len(),
{
    if groups.len() == 0 {
        st
    } else {
        spec_run_groups(
            spec_run_group(st, groups[0], before, after, stats, c, factors),
            groups.skip(1),
            before,
            after,
            stats,
            c,
            factors,
        )
    }
}

/// The state of a full run: every canonical group processed in the fixed
/// order, starting from an empty state.
pub open spec fn spec_run(
    before: Seq<Player>,
    after: Seq<Player>,
    stats: &StatTables,
    c: &LeagueConfig,
    factors: Seq<u32>,
) -> StateView {
    spec_run_groups(
        StateView {
            protected: Set::empty(),
            upgraded: Set::empty(),
            changes: Seq::empty(),
        },
        spec_group_order(),
        before,
        after,
        stats,
        c,
        factors,
    )
}

/// Runs one group's pass on the running state.
pub fn run_group(
    st: &mut RebalanceState,
    g: PositionGroup,
    before: &Vec<Player>,
    after: &Vec<Player>,
    stats: &StatTables,
    c: &LeagueConfig,
    factors: &Vec<u32>,
)
    requires
        config_wf(c),
        stats_wf(stats),
        factors@.len() >= before@.len(),
        forall|i: int| 0 <= i < factors@.len() ==> OL_FACTOR_MIN <= #[trigger] factors@[i]
            < OL_FACTOR_MAX,
    ensures
        final(st)@ == spec_run_group(old(st)@, g, before@, after@, stats, c, factors@),
{
    let cands = candidates(before, g, &c.scheme_teams);
    proof {
        lemma_candidates_len(before@, g, c.scheme_teams@);
    }
    protect_pass(st, &cands, after, stats, c.rookie_max_years, c.rookie_min_games);
    let entries = make_entries(&cands, g, stats, c, factors);
    let roster = sort_entries(&entries);
    let limits = c.limits_for(g);
    rebalance_group(st, &roster, limits, g);
}

/// Runs the whole rebalance: every canonical group in the fixed order,
/// starting from an empty state. The result holds the recorded tier changes
/// and the final protected and upgraded name sets; the run is a pure
/// function of its inputs, so identical inputs give identical output, and no
/// two recorded changes share a (name, team, group) key.
pub fn run(
    before: &Vec<Player>,
    after: &Vec<Player>,
    stats: &StatTables,
    c: &LeagueConfig,
    ol_factors: &Vec<u32>,
) -> (st: RebalanceState)
    requires
        config_wf(c),
        stats_wf(stats),
        ol_factors@.len() >= before@.len(),
        forall|i: int| 0 <= i < ol_factors@.len() ==> OL_FACTOR_MIN <= #[trigger] ol_factors@[i]
            < OL_FACTOR_MAX,
    ensures
        st@ == spec_run(before@, after@, stats, c, ol_factors@),
        crate::laws::changes_key_unique(st@.changes),
{
    proof {
        crate::laws::lemma_run_exclusivity(before@, after@, stats, c, ol_factors@);
    }
    let groups = group_order();
    let mut st = RebalanceState::new();
    let ghost st0 = st@;
    let mut i: usize = 0;
    proof {
        assert(spec_group_order().skip(0) =~= spec_group_order());
    }
    while i < groups.len()
        invariant
            0 <= i <= groups@.len(),
            groups@ == spec_group_order(),
            config_wf(c),
            stats_wf(stats),
            ol_factors@.len() >= before@.len(),
            forall|m: int| 0 <= m < ol_factors@.len() ==> OL_FACTOR_MIN <= #[trigger] ol_factors@[m]
                < OL_FACTOR_MAX,
            spec_run_groups(st0, spec_group_order(), before@, after@, stats, c, ol_factors@)
                == spec_run_groups(
                st@,
                spec_group_order().skip(i as int),
                before@,
                after@,
                stats,
                c,
                ol_factors@,
            ),
        decreases groups@.len() - i,
    {
        proof {
            assert(spec_group_order().skip(i as int)[0] == spec_group_order()[i as int]);
            assert(spec_group_order().skip(i as int).skip(1) =~= spec_group_order().skip(
                i as int + 1,
            ));
        }
        let g = groups[i];
        run_group(&mut st, g, before, after, stats, c, ol_factors);
        i = i + 1;
    }
    proof {
        assert(spec_group_order().skip(spec_group_order().len() as int)
            =~= Seq::<PositionGroup>::empty());
    }
    st
}

} // verus!
