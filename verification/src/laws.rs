//! Run-wide guarantees of the rebalancer, proved over its specification.
//!
//! Exclusivity: the recorded changes never hold two entries with the same
//! (name, team, group) key. Protection: once a name is protected, no later
//! boundary of the run records a new demotion for it, and the protected set
//! only grows.

use crate::config::LeagueConfig;
use crate::position::PositionGroup;
use crate::protect::spec_protect_pass;
use crate::rebalance::StateView;
use crate::rebalance::demotion_change;
use crate::rebalance::promotion_change;
use crate::rebalance::spec_apply_demotions;
use crate::rebalance::spec_apply_promotions;
use crate::rebalance::spec_boundary_step;
use crate::rebalance::spec_demote_sel;
use crate::rebalance::spec_insert_change;
use crate::rebalance::spec_promote_sel;
use crate::rebalance::spec_rebalance_group;
use crate::roster::ChangeView;
use crate::roster::Player;
use crate::roster::PlayerEntry;
use crate::roster::change_key_eq;
use crate::stats::StatTables;
use crate::tier::Tier;
use crate::pipeline::spec_run;
use crate::pipeline::spec_run_group;
use crate::pipeline::spec_run_groups;
use crate::config::GroupLimits;
use vstd::prelude::*;

verus! {

/// No two recorded changes share a (name, team, group) key.
pub open spec fn changes_key_unique(cs: Seq<ChangeView>) -> bool {
    forall|i: int, j: int|
        0 <= i < j < cs.len() ==> !change_key_eq(#[trigger] cs[i], #[trigger] cs[j])
}

/// A change that moves a player down a tier.
pub open spec fn is_demotion(c: ChangeView) -> bool {
    c.new_tier.rank() < c.old_tier.rank()
}

/// Every element of a recorded list is the inserted change or one of the
/// old entries.
proof fn lemma_insert_change_elems(s: Seq<ChangeView>, c: ChangeView, i: int)
    requires
        0 <= i < spec_insert_change(s, c).len(),
    ensures
        spec_insert_change(s, c)[i] == c || exists|j: int|
            0 <= j < s.len() && spec_insert_change(s, c)[i] == s[j],
    decreases s.len(),
{
    if s.len() == 0 {
    } else if change_key_eq(s[0], c) {
        if i > 0 {
            assert(spec_insert_change(s, c)[i] == s.skip(1)[i - 1]);
            assert(s.skip(1)[i - 1] == s[i]);
        }
    } else {
        if i == 0 {
            assert(spec_insert_change(s, c)[0] == s[0]);
        } else {
            lemma_insert_change_elems(s.skip(1), c, i - 1);
            assert(spec_insert_change(s, c)[i] == spec_insert_change(s.skip(1), c)[i - 1]);
            if spec_insert_change(s.skip(1), c)[i - 1] != c {
                let j = choose|j: int|
                    0 <= j < s.skip(1).len() && spec_insert_change(s.skip(1), c)[i - 1] == s.skip(
                        1,
                    )[j];
                assert(s.skip(1)[j] == s[j + 1]);
            }
        }
    }
}

/// Recording a change preserves key uniqueness.
proof fn lemma_insert_change_unique(s: Seq<ChangeView>, c: ChangeView)
    requires
        changes_key_unique(s),
    ensures
        changes_key_unique(spec_insert_change(s, c)),
    decreases s.len(),
{
    let r = spec_insert_change(s, c);
    if s.len() == 0 {
    } else if change_key_eq(s[0], c) {
        assert forall|i: int, j: int| 0 <= i < j < r.len() implies !change_key_eq(r[i], r[j]) by {
            if i == 0 {
                assert(r[j] == s.skip(1)[j - 1]);
                assert(s.skip(1)[j - 1] == s[j]);
                assert(!change_key_eq(s[0], s[j]));
            } else {
                assert(r[i] == s[i] && r[j] == s[j]);
            }
        }
    } else {
        assert(changes_key_unique(s.skip(1))) by {
            assert(forall|i: int|
                0 <= i < s.skip(1).len() ==> #[trigger] s.skip(1)[i] == s[i + 1]);
        }
        lemma_insert_change_unique(s.skip(1), c);
        let t = spec_insert_change(s.skip(1), c);
        assert(r == seq![s[0]] + t);
        assert forall|i: int, j: int| 0 <= i < j < r.len() implies !change_key_eq(r[i], r[j]) by {
            if i == 0 {
                assert(r[j] == t[j - 1]);
                lemma_insert_change_elems(s.skip(1), c, j - 1);
                if t[j - 1] == c {
                    assert(!change_key_eq(s[0], c));
                } else {
                    let m = choose|m: int| 0 <= m < s.skip(1).len() && t[j - 1] == s.skip(1)[m];
                    assert(s.skip(1)[m] == s[m + 1]);
                    assert(!change_key_eq(s[0], s[m + 1]));
                }
            } else {
                assert(r[i] == t[i - 1] && r[j] == t[j - 1]);
            }
        }
    }
}

/// A promotion pass keeps key uniqueness, only grows the protected and
/// upgraded sets, and every change it leaves behind is an old change or a
/// promotion of a selected entry.
proof fn lemma_apply_promotions_shape(
    st: StateView,
    roster: Seq<PlayerEntry>,
    sel: Seq<int>,
    group: PositionGroup,
    boundary: Tier,
)
    requires
        changes_key_unique(st.changes),
    ensures
        ({
            let r = spec_apply_promotions(st, roster, sel, group, boundary);
            &&& changes_key_unique(r.changes)
            &&& st.protected.subset_of(r.protected)
            &&& st.upgraded.subset_of(r.upgraded)
            &&& forall|i: int|
                0 <= i < r.changes.len() ==> st.changes.contains(#[trigger] r.changes[i]) || (
                exists|m: int|
                    0 <= m < sel.len() && 0 <= sel[m] < roster.len() && r.changes[i]
                        == promotion_change(roster[sel[m]]@, group, boundary))
        }),
    decreases sel.len(),
{
    if sel.len() == 0 {
    } else if !(0 <= sel[0] < roster.len()) {
    } else {
        let e = roster[sel[0]]@;
        let c = promotion_change(e, group, boundary);
        let st1 = StateView {
            protected: st.protected.insert(e.name),
            upgraded: st.upgraded.insert(e.name),
            changes: spec_insert_change(st.changes, c),
        };
        lemma_insert_change_unique(st.changes, c);
        lemma_apply_promotions_shape(st1, roster, sel.skip(1), group, boundary);
        let r = spec_apply_promotions(st, roster, sel, group, boundary);
        assert forall|i: int| 0 <= i < r.changes.len() implies st.changes.contains(
            #[trigger] r.changes[i],
        ) || (exists|m: int|
            0 <= m < sel.len() && 0 <= sel[m] < roster.len() && r.changes[i] == promotion_change(
                roster[sel[m]]@,
                group,
                boundary,
            )) by {
            if st1.changes.contains(r.changes[i]) {
                let j = choose|j: int| 0 <= j < st1.changes.len() && st1.changes[j] == r.changes[i];
                lemma_insert_change_elems(st.changes, c, j);
                if st1.changes[j] == c {
                    assert(0 <= sel[0] < roster.len() && r.changes[i] == promotion_change(
                        roster[sel[0]]@,
                        group,
                        boundary,
                    ));
                } else {
                    let m = choose|m: int|
                        0 <= m < st.changes.len() && st1.changes[j] == st.changes[m];
                    assert(st.changes.contains(r.changes[i]));
                }
            } else {
                let m = choose|m: int|
                    0 <= m < sel.skip(1).len() && 0 <= sel.skip(1)[m] < roster.len()
                        && r.changes[i] == promotion_change(
                        roster[sel.skip(1)[m]]@,
                        group,
                        boundary,
                    );
                assert(sel.skip(1)[m] == sel[m + 1]);
            }
        }
    }
}

/// A demotion pass keeps key uniqueness, only grows the protected set,
/// leaves the upgraded set alone, and every change it leaves behind is an
/// old change or a demotion of a selected entry.
proof fn lemma_apply_demotions_shape(
    st: StateView,
    roster: Seq<PlayerEntry>,
    sel: Seq<int>,
    group: PositionGroup,
    boundary: Tier,
)
    requires
        changes_key_unique(st.changes),
    ensures
        ({
            let r = spec_apply_demotions(st, roster, sel, group, boundary);
            &&& changes_key_unique(r.changes)
            &&& st.protected.subset_of(r.protected)
            &&& r.upgraded == st.upgraded
            &&& forall|i: int|
                0 <= i < r.changes.len() ==> st.changes.contains(#[trigger] r.changes[i]) || (
                exists|m: int|
                    0 <= m < sel.len() && 0 <= sel[m] < roster.len() && r.changes[i]
                        == demotion_change(roster[sel[m]]@, group, boundary))
        }),
    decreases sel.len(),
{
    if sel.len() == 0 {
    } else if !(0 <= sel[0] < roster.len()) {
    } else {
        let e = roster[sel[0]]@;
        let c = demotion_change(e, group, boundary);
        let st1 = StateView {
            protected: st.protected.insert(e.name),
            upgraded: st.upgraded,
            changes: spec_insert_change(st.changes, c),
        };
        lemma_insert_change_unique(st.changes, c);
        lemma_apply_demotions_shape(st1, roster, sel.skip(1), group, boundary);
        let r = spec_apply_demotions(st, roster, sel, group, boundary);
        assert forall|i: int| 0 <= i < r.changes.len() implies st.changes.contains(
            #[trigger] r.changes[i],
        ) || (exists|m: int|
            0 <= m < sel.len() && 0 <= sel[m] < roster.len() && r.changes[i] == demotion_change(
                roster[sel[m]]@,
                group,
                boundary,
            )) by {
            if st1.changes.contains(r.changes[i]) {
                let j = choose|j: int| 0 <= j < st1.changes.len() && st1.changes[j] == r.changes[i];
                lemma_insert_change_elems(st.changes, c, j);
                if st1.changes[j] == c {
                    assert(0 <= sel[0] < roster.len() && r.changes[i] == demotion_change(
                        roster[sel[0]]@,
                        group,
                        boundary,
                    ));
                } else {
                    let m = choose|m: int|
                        0 <= m < st.changes.len() && st1.changes[j] == st.changes[m];
                    assert(st.changes.contains(r.changes[i]));
                }
            } else {
                let m = choose|m: int|
                    0 <= m < sel.skip(1).len() && 0 <= sel.skip(1)[m] < roster.len()
                        && r.changes[i] == demotion_change(roster[sel.skip(1)[m]]@, group, boundary);
                assert(sel.skip(1)[m] == sel[m + 1]);
            }
        }
    }
}

/// Every index a demotion selection picks is in range, holds the boundary
/// tier, and belongs to a name that was not protected when the boundary
/// began.
proof fn lemma_demote_sel_filter(
    roster: Seq<PlayerEntry>,
    at: Tier,
    protected: Set<Seq<char>>,
    k: nat,
    i: nat,
)
    ensures
        forall|m: int|
            0 <= m < spec_demote_sel(roster, at, protected, k, i).len() ==> {
                let x = #[trigger] spec_demote_sel(roster, at, protected, k, i)[m];
                &&& 0 <= x < roster.len()
                &&& roster[x].tier == at
                &&& !protected.contains(roster[x].name@)
            },
    decreases i,
{
    if i == 0 || i > roster.len() || k == 0 {
    } else if roster[i - 1].tier == at && !protected.contains(roster[i - 1].name@) {
        lemma_demote_sel_filter(roster, at, protected, (k - 1) as nat, (i - 1) as nat);
        assert(forall|m: int|
            1 <= m < spec_demote_sel(roster, at, protected, k, i).len()
                ==> #[trigger] spec_demote_sel(roster, at, protected, k, i)[m] == spec_demote_sel(
                roster,
                at,
                protected,
                (k - 1) as nat,
                (i - 1) as nat,
            )[m - 1]);
    } else {
        lemma_demote_sel_filter(roster, at, protected, k, (i - 1) as nat);
    }
}

/// A boundary pass keeps key uniqueness, only grows the protected and
/// upgraded sets, and records no new demotion for a name protected when the
/// pass began.
proof fn lemma_boundary_step_protects(
    st: StateView,
    roster: Seq<PlayerEntry>,
    boundary: Tier,
    min: int,
    max: int,
    group: PositionGroup,
)
    requires
        changes_key_unique(st.changes),
    ensures
        ({
            let r = spec_boundary_step(st, roster, boundary, min, max, group);
            &&& changes_key_unique(r.changes)
            &&& st.protected.subset_of(r.protected)
            &&& st.upgraded.subset_of(r.upgraded)
            &&& forall|i: int|
                0 <= i < r.changes.len() ==> (is_demotion(#[trigger] r.changes[i])
                    && st.protected.contains(r.changes[i].name)) ==> st.changes.contains(
                    r.changes[i],
                )
        }),
{
    let cnt = crate::rebalance::spec_count_at_least(roster, boundary);
    if cnt < min {
        let sel = spec_promote_sel(roster, boundary.spec_below(), st.upgraded, (min - cnt) as nat, 0);
        lemma_apply_promotions_shape(st, roster, sel, group, boundary);
        let r = spec_apply_promotions(st, roster, sel, group, boundary);
        assert forall|i: int|
            0 <= i < r.changes.len() && is_demotion(#[trigger] r.changes[i])
                && st.protected.contains(r.changes[i].name) implies st.changes.contains(
            r.changes[i],
        ) by {
            if !st.changes.contains(r.changes[i]) {
                let m = choose|m: int|
                    0 <= m < sel.len() && 0 <= sel[m] < roster.len() && r.changes[i]
                        == promotion_change(roster[sel[m]]@, group, boundary);
                assert(!is_demotion(r.changes[i]));
            }
        }
    } else if cnt > max {
        let sel = spec_demote_sel(roster, boundary, st.protected, (cnt - max) as nat, roster.len());
        lemma_apply_demotions_shape(st, roster, sel, group, boundary);
        lemma_demote_sel_filter(roster, boundary, st.protected, (cnt - max) as nat, roster.len());
        let r = spec_apply_demotions(st, roster, sel, group, boundary);
        assert forall|i: int|
            0 <= i < r.changes.len() && is_demotion(#[trigger] r.changes[i])
                && st.protected.contains(r.changes[i].name) implies st.changes.contains(
            r.changes[i],
        ) by {
            if !st.changes.contains(r.changes[i]) {
                let m = choose|m: int|
                    0 <= m < sel.len() && 0 <= sel[m] < roster.len() && r.changes[i]
                        == demotion_change(roster[sel[m]]@, group, boundary);
                assert(!st.protected.contains(roster[sel[m]]@.name));
            }
        }
    }
}

/// A group pass keeps key uniqueness, only grows the protected and upgraded
/// sets, and records no new demotion for a name protected when the group's
/// first boundary began.
pub proof fn lemma_rebalance_group_protects(
    st: StateView,
    roster: Seq<PlayerEntry>,
    limits: GroupLimits,
    group: PositionGroup,
)
    requires
        changes_key_unique(st.changes),
    ensures
        ({
            let r = spec_rebalance_group(st, roster, limits, group);
            &&& changes_key_unique(r.changes)
            &&& st.protected.subset_of(r.protected)
            &&& st.upgraded.subset_of(r.upgraded)
            &&& forall|i: int|
                0 <= i < r.changes.len() ==> (is_demotion(#[trigger] r.changes[i])
                    && st.protected.contains(r.changes[i].name)) ==> st.changes.contains(
                    r.changes[i],
                )
        }),
{
    let st1 = spec_boundary_step(
        st,
        roster,
        Tier::TopTier,
        limits.top_min as int,
        limits.top_max as int,
        group,
    );
    let st2 = spec_boundary_step(
        st1,
        roster,
        Tier::UpperMid,
        limits.upper_min as int,
        limits.upper_max as int,
        group,
    );
    lemma_boundary_step_protects(
        st,
        roster,
        Tier::TopTier,
        limits.top_min as int,
        limits.top_max as int,
        group,
    );
    lemma_boundary_step_protects(
        st1,
        roster,
        Tier::UpperMid,
        limits.upper_min as int,
        limits.upper_max as int,
        group,
    );
    lemma_boundary_step_protects(
        st2,
        roster,
        Tier::LowerMid,
        limits.lower_min as int,
        limits.lower_max as int,
        group,
    );
}

/// A protection pass leaves the changes alone and only grows the sets.
proof fn lemma_protect_pass_shape(
    st: StateView,
    cands: Seq<Player>,
    after: Seq<Player>,
    stats: &StatTables,
    max_years: u8,
    min_games: u32,
)
    ensures
        ({
            let r = spec_protect_pass(st, cands, after, stats, max_years, min_games);
            &&& r.changes == st.changes
            &&& st.protected.subset_of(r.protected)
            &&& st.upgraded.subset_of(r.upgraded)
        }),
    decreases cands.len(),
{
    if cands.len() > 0 {
        let p = cands[0];
        let st1 = if crate::protect::spec_rookie_protected(p, stats, max_years, min_games) {
            StateView { protected: st.protected.insert(p.name@), ..st }
        } else {
            st
        };
        let st2 = if crate::protect::spec_externally_upgraded(p, after) {
            StateView {
                protected: st1.protected.insert(p.name@),
                upgraded: st1.upgraded.insert(p.name@),
                changes: st1.changes,
            }
        } else {
            st1
        };
        lemma_protect_pass_shape(st2, cands.skip(1), after, stats, max_years, min_games);
    }
}

/// A group's full pass keeps key uniqueness, only grows the protected and
/// upgraded sets, and records no new demotion for a previously protected
/// name.
pub proof fn lemma_run_group_protects(
    st: StateView,
    g: PositionGroup,
    before: Seq<Player>,
    after: Seq<Player>,
    stats: &StatTables,
    c: &LeagueConfig,
    factors: Seq<u32>,
)
    requires
        changes_key_unique(st.changes),
    ensures
        ({
            let r = spec_run_group(st, g, before, after, stats, c, factors);
            &&& changes_key_unique(r.changes)
            &&& st.protected.subset_of(r.protected)
            &&& st.upgraded.subset_of(r.upgraded)
            &&& forall|i: int|
                0 <= i < r.changes.len() ==> (is_demotion(#[trigger] r.changes[i])
                    && st.protected.contains(r.changes[i].name)) ==> st.changes.contains(
                    r.changes[i],
                )
        }),
{
    let cands = crate::pipeline::spec_candidates(before, g, c.scheme_teams@);
    let st1 = spec_protect_pass(st, cands, after, stats, c.rookie_max_years, c.rookie_min_games);
    lemma_protect_pass_shape(st, cands, after, stats, c.rookie_max_years, c.rookie_min_games);
    let roster = crate::sort::spec_sort_entries(
        crate::pipeline::spec_make_entries(cands, g, stats, c, factors),
    );
    lemma_rebalance_group_protects(st1, roster, crate::config::spec_limits_for(c, g), g);
}

/// Exclusivity and protection over a run's remaining groups: key uniqueness
/// is kept, the protected set only grows, and no new demotion is recorded
/// for a name already protected when these groups began.
pub proof fn lemma_run_groups_protects(
    st: StateView,
    groups: Seq<PositionGroup>,
    before: Seq<Player>,
    after: Seq<Player>,
    stats: &StatTables,
    c: &LeagueConfig,
    factors: Seq<u32>,
)
    requires
        changes_key_unique(st.changes),
    ensures
        ({
            let r = spec_run_groups(st, groups, before, after, stats, c, factors);
            &&& changes_key_unique(r.changes)
            &&& st.protected.subset_of(r.protected)
            &&& st.upgraded.subset_of(r.upgraded)
            &&& forall|i: int|
                0 <= i < r.changes.len() ==> (is_demotion(#[trigger] r.changes[i])
                    && st.protected.contains(r.changes[i].name)) ==> st.changes.contains(
                    r.changes[i],
                )
        }),
    decreases groups.len(),
{
    if groups.len() > 0 {
        let st1 = spec_run_group(st, groups[0], before, after, stats, c, factors);
        lemma_run_group_protects(st, groups[0], before, after, stats, c, factors);
        lemma_run_groups_protects(st1, groups.skip(1), before, after, stats, c, factors);
    }
}

/// Exclusivity: no (name, team, group) key appears twice among the changes
/// of a full run.
pub proof fn lemma_run_exclusivity(
    before: Seq<Player>,
    after: Seq<Player>,
    stats: &StatTables,
    c: &LeagueConfig,
    factors: Seq<u32>,
)
    ensures
        changes_key_unique(spec_run(before, after, stats, c, factors).changes),
{
    let st0 = StateView {
        protected: Set::empty(),
        upgraded: Set::empty(),
        changes: Seq::empty(),
    };
    lemma_run_groups_protects(
        st0,
        crate::position::spec_group_order(),
        before,
        after,
        stats,
        c,
        factors,
    );
}

/// A group's pass adds only changes that carry its own group.
pub proof fn lemma_run_group_new_changes(
    st: StateView,
    g: PositionGroup,
    before: Seq<Player>,
    after: Seq<Player>,
    stats: &StatTables,
    c: &LeagueConfig,
    factors: Seq<u32>,
)
    requires
        changes_key_unique(st.changes),
    ensures
        ({
            let r = spec_run_group(st, g, before, after, stats, c, factors);
            forall|i: int|
                0 <= i < r.changes.len() ==> st.changes.contains(#[trigger] r.changes[i]) || (
                r.changes[i]).group == g
        }),
{
    let cands = crate::pipeline::spec_candidates(before, g, c.scheme_teams@);
    let st1 = spec_protect_pass(st, cands, after, stats, c.rookie_max_years, c.rookie_min_games);
    lemma_protect_pass_shape(st, cands, after, stats, c.rookie_max_years, c.rookie_min_games);
    let roster = crate::sort::spec_sort_entries(
        crate::pipeline::spec_make_entries(cands, g, stats, c, factors),
    );
    let limits = crate::config::spec_limits_for(c, g);
    lemma_rebalance_group_new_changes(st1, roster, limits, g);
}

/// A group rebalance adds only changes that carry its group.
proof fn lemma_rebalance_group_new_changes(
    st: StateView,
    roster: Seq<PlayerEntry>,
    limits: GroupLimits,
    group: PositionGroup,
)
    requires
        changes_key_unique(st.changes),
    ensures
        ({
            let r = spec_rebalance_group(st, roster, limits, group);
            forall|i: int|
                0 <= i < r.changes.len() ==> st.changes.contains(#[trigger] r.changes[i]) || (
                r.changes[i]).group == group
        }),
{
    let st1 = spec_boundary_step(
        st,
        roster,
        Tier::TopTier,
        limits.top_min as int,
        limits.top_max as int,
        group,
    );
    let st2 = spec_boundary_step(
        st1,
        roster,
        Tier::UpperMid,
        limits.upper_min as int,
        limits.upper_max as int,
        group,
    );
    lemma_boundary_step_new_changes(
        st,
        roster,
        Tier::TopTier,
        limits.top_min as int,
        limits.top_max as int,
        group,
    );
    lemma_boundary_step_protects(
        st,
        roster,
        Tier::TopTier,
        limits.top_min as int,
        limits.top_max as int,
        group,
    );
    lemma_boundary_step_new_changes(
        st1,
        roster,
        Tier::UpperMid,
        limits.upper_min as int,
        limits.upper_max as int,
        group,
    );
    lemma_boundary_step_protects(
        st1,
        roster,
        Tier::UpperMid,
        limits.upper_min as int,
        limits.upper_max as int,
        group,
    );
    lemma_boundary_step_new_changes(
        st2,
        roster,
        Tier::LowerMid,
        limits.lower_min as int,
        limits.lower_max as int,
        group,
    );
}

/// A boundary pass adds only changes that carry its group.
proof fn lemma_boundary_step_new_changes(
    st: StateView,
    roster: Seq<PlayerEntry>,
    boundary: Tier,
    min: int,
    max: int,
    group: PositionGroup,
)
    requires
        changes_key_unique(st.changes),
    ensures
        ({
            let r = spec_boundary_step(st, roster, boundary, min, max, group);
            forall|i: int|
                0 <= i < r.changes.len() ==> st.changes.contains(#[trigger] r.changes[i]) || (
                r.changes[i]).group == group
        }),
{
    let cnt = crate::rebalance::spec_count_at_least(roster, boundary);
    if cnt < min {
        let sel = spec_promote_sel(roster, boundary.spec_below(), st.upgraded, (min - cnt) as nat, 0);
        lemma_apply_promotions_shape(st, roster, sel, group, boundary);
    } else if cnt > max {
        let sel = spec_demote_sel(roster, boundary, st.protected, (cnt - max) as nat, roster.len());
        lemma_apply_demotions_shape(st, roster, sel, group, boundary);
    }
}

/// Determinism: a run's outcome is a pure function of its inputs. Two runs
/// over equal snapshots, stat tables, configuration and factor streams
/// produce the same state, and therefore the same report.
pub proof fn lemma_run_deterministic(
    before1: Seq<Player>,
    after1: Seq<Player>,
    stats1: &StatTables,
    c1: &LeagueConfig,
    factors1: Seq<u32>,
    before2: Seq<Player>,
    after2: Seq<Player>,
    stats2: &StatTables,
    c2: &LeagueConfig,
    factors2: Seq<u32>,
)
    requires
        before1 == before2,
        after1 == after2,
        stats1 == stats2,
        c1 == c2,
        factors1 == factors2,
    ensures
        spec_run(before1, after1, stats1, c1, factors1) == spec_run(
            before2,
            after2,
            stats2,
            c2,
            factors2,
        ),
{
}

} // verus!
