//! Band satisfaction.
//!
//! The effective tier of a roster entry is the new tier of its recorded
//! change, or its original tier when no change carries its key. This module
//! proves that one group pass drives the effective count at every boundary
//! into its configured band, except when too few eligible candidates exist,
//! in which case the count moves as far as the candidates allow.

use crate::position::PositionGroup;
use crate::rebalance::StateView;
use crate::rebalance::demotion_change;
use crate::rebalance::promotion_change;
use crate::rebalance::spec_apply_demotions;
use crate::rebalance::spec_apply_promotions;
use crate::rebalance::spec_count_at_least;
use crate::rebalance::spec_demote_sel;
use crate::config::GroupLimits;
use crate::config::LeagueConfig;
use crate::config::spec_limits_for;
use crate::laws::changes_key_unique;
use crate::pipeline::spec_candidates;
use crate::pipeline::spec_make_entries;
use crate::pipeline::spec_run_group;
use crate::pipeline::spec_run_groups;
use crate::position::spec_group_order;
use crate::protect::spec_protect_pass;
use crate::roster::Player;
use crate::sort::spec_sort_entries;
use crate::stats::StatTables;
use crate::config::limits_wf;
use crate::rebalance::spec_boundary_step;
use crate::rebalance::spec_rebalance_group;
use crate::rebalance::spec_insert_change;
use crate::rebalance::spec_promote_sel;
use crate::roster::ChangeView;
use crate::roster::PlayerEntry;
use crate::roster::change_key_eq;
use crate::tier::Tier;
use vstd::prelude::*;

verus! {

/// The first recorded change carrying the given key.
pub open spec fn spec_find_change(
    cs: Seq<ChangeView>,
    name: Seq<char>,
    team: Seq<char>,
    g: PositionGroup,
) -> Option<ChangeView>
    decreases cs.len(),
{
    if cs.len() == 0 {
        None
    } else if cs[0].name == name && cs[0].team == team && cs[0].group == g {
        Some(cs[0])
    } else {
        spec_find_change(cs.skip(1), name, team, g)
    }
}

/// Recording a change makes it the one found under its own key.
proof fn lemma_find_insert_same(cs: Seq<ChangeView>, c: ChangeView)
    ensures
        spec_find_change(spec_insert_change(cs, c), c.name, c.team, c.group) == Some(c),
    decreases cs.len(),
{
    if cs.len() == 0 {
    } else if change_key_eq(cs[0], c) {
    } else {
        lemma_find_insert_same(cs.skip(1), c);
        assert(spec_insert_change(cs, c) == seq![cs[0]] + spec_insert_change(cs.skip(1), c));
        assert((seq![cs[0]] + spec_insert_change(cs.skip(1), c)).skip(1) =~= spec_insert_change(
            cs.skip(1),
            c,
        ));
    }
}

/// Recording a change leaves every other key's lookup unchanged.
proof fn lemma_find_insert_other(
    cs: Seq<ChangeView>,
    c: ChangeView,
    name: Seq<char>,
    team: Seq<char>,
    g: PositionGroup,
)
    requires
        !(c.name == name && c.team == team && c.group == g),
    ensures
        spec_find_change(spec_insert_change(cs, c), name, team, g) == spec_find_change(
            cs,
            name,
            team,
            g,
        ),
    decreases cs.len(),
{
    if cs.len() == 0 {
        let r = spec_insert_change(cs, c);
        assert(r == seq![c]);
        assert(r[0] == c);
        assert(r.len() == 1);
        assert(r.skip(1) =~= Seq::<ChangeView>::empty());
        assert(spec_find_change(r.skip(1), name, team, g) is None);
        assert(!(r[0].name == name && r[0].team == team && r[0].group == g));
        assert(spec_find_change(r, name, team, g) is None);
    } else if change_key_eq(cs[0], c) {
        let r = spec_insert_change(cs, c);
        assert(r == seq![c] + cs.skip(1));
        assert(r[0] == c);
        assert(r.skip(1) =~= cs.skip(1));
        assert(spec_find_change(r, name, team, g) == spec_find_change(cs.skip(1), name, team, g));
        assert(spec_find_change(cs, name, team, g) == spec_find_change(
            cs.skip(1),
            name,
            team,
            g,
        ));
    } else {
        lemma_find_insert_other(cs.skip(1), c, name, team, g);
        let r = spec_insert_change(cs, c);
        assert(r == seq![cs[0]] + spec_insert_change(cs.skip(1), c));
        assert(r[0] == cs[0]);
        assert(r.skip(1) =~= spec_insert_change(cs.skip(1), c));
    }
}

/// A list with no change of group `g` finds nothing under a `g` key.
proof fn lemma_find_no_group(
    cs: Seq<ChangeView>,
    name: Seq<char>,
    team: Seq<char>,
    g: PositionGroup,
)
    requires
        forall|i: int| 0 <= i < cs.len() ==> (#[trigger] cs[i]).group != g,
    ensures
        spec_find_change(cs, name, team, g) is None,
    decreases cs.len(),
{
    if cs.len() > 0 {
        assert(forall|i: int| 0 <= i < cs.skip(1).len() ==> #[trigger] cs.skip(1)[i] == cs[i + 1]);
        lemma_find_no_group(cs.skip(1), name, team, g);
    }
}

/// The effective rank of a roster entry under the recorded changes.
pub open spec fn eff_rank(e: PlayerEntry, g: PositionGroup, cs: Seq<ChangeView>) -> int {
    match spec_find_change(cs, e.name@, e.team@, g) {
        Some(c) => c.new_tier.rank(),
        None => e.tier.rank(),
    }
}

/// How many roster entries hold an effective tier at least `t`.
pub open spec fn eff_count(
    roster: Seq<PlayerEntry>,
    g: PositionGroup,
    cs: Seq<ChangeView>,
    t: Tier,
) -> int
    decreases roster.len(),
{
    if roster.len() == 0 {
        0
    } else {
        (if eff_rank(roster[0], g, cs) >= t.rank() {
            1int
        } else {
            0int
        }) + eff_count(roster.skip(1), g, cs, t)
    }
}

/// No two roster entries share a (name, team) pair.
pub open spec fn roster_keys_distinct(roster: Seq<PlayerEntry>) -> bool {
    forall|i: int, j: int|
        0 <= i < j < roster.len() ==> !((#[trigger] roster[i]).name@ == (
        #[trigger] roster[j]).name@ && roster[i].team@ == roster[j].team@)
}

/// No recorded change carries group `g`.
pub open spec fn no_group_changes(cs: Seq<ChangeView>, g: PositionGroup) -> bool {
    forall|i: int| 0 <= i < cs.len() ==> (#[trigger] cs[i]).group != g
}

/// Before a group records anything, effective counts are the original tier
/// counts.
proof fn lemma_eff_count_initial(
    roster: Seq<PlayerEntry>,
    g: PositionGroup,
    cs: Seq<ChangeView>,
    t: Tier,
)
    requires
        no_group_changes(cs, g),
    ensures
        eff_count(roster, g, cs, t) == spec_count_at_least(roster, t),
    decreases roster.len(),
{
    if roster.len() > 0 {
        lemma_find_no_group(cs, roster[0].name@, roster[0].team@, g);
        lemma_eff_count_initial(roster.skip(1), g, cs, t);
    }
}

/// When two change lists give every entry except position `p` the same
/// effective rank, the effective counts differ exactly by `p`'s own move.
proof fn lemma_eff_count_pointwise(
    roster: Seq<PlayerEntry>,
    g: PositionGroup,
    cs1: Seq<ChangeView>,
    cs2: Seq<ChangeView>,
    t: Tier,
    p: int,
)
    requires
        0 <= p < roster.len(),
        forall|i: int|
            0 <= i < roster.len() && i != p ==> eff_rank(#[trigger] roster[i], g, cs1) == eff_rank(
                roster[i],
                g,
                cs2,
            ),
    ensures
        eff_count(roster, g, cs2, t) - eff_count(roster, g, cs1, t) == (if eff_rank(
            roster[p],
            g,
            cs2,
        ) >= t.rank() {
            1int
        } else {
            0int
        }) - (if eff_rank(roster[p], g, cs1) >= t.rank() {
            1int
        } else {
            0int
        }),
    decreases roster.len(),
{
    if p == 0 {
        lemma_eff_count_same(roster.skip(1), g, cs1, cs2, t);
    } else {
        assert(forall|i: int|
            0 <= i < roster.skip(1).len() ==> #[trigger] roster.skip(1)[i] == roster[i + 1]);
        lemma_eff_count_pointwise(roster.skip(1), g, cs1, cs2, t, p - 1);
    }
}

/// When two change lists give every entry the same effective rank, the
/// effective counts agree.
proof fn lemma_eff_count_same(
    roster: Seq<PlayerEntry>,
    g: PositionGroup,
    cs1: Seq<ChangeView>,
    cs2: Seq<ChangeView>,
    t: Tier,
)
    requires
        forall|i: int|
            0 <= i < roster.len() ==> eff_rank(#[trigger] roster[i], g, cs1) == eff_rank(
                roster[i],
                g,
                cs2,
            ),
    ensures
        eff_count(roster, g, cs2, t) == eff_count(roster, g, cs1, t),
    decreases roster.len(),
{
    if roster.len() > 0 {
        assert(forall|i: int|
            0 <= i < roster.skip(1).len() ==> #[trigger] roster.skip(1)[i] == roster[i + 1]);
        lemma_eff_count_same(roster.skip(1), g, cs1, cs2, t);
    }
}

/// How many entries from position `i` on are eligible for promotion from
/// tier `from`: they hold that tier and are not upgraded.
pub open spec fn promote_eligible_from(
    roster: Seq<PlayerEntry>,
    from: Tier,
    upgraded: Set<Seq<char>>,
    i: nat,
) -> int
    decreases roster.len() - i,
{
    if i >= roster.len() {
        0
    } else {
        (if roster[i as int].tier == from && !upgraded.contains(roster[i as int].name@) {
            1int
        } else {
            0int
        }) + promote_eligible_from(roster, from, upgraded, i + 1)
    }
}

/// How many entries among the first `i` are eligible for demotion at tier
/// `at`: they hold that tier and are not protected.
pub open spec fn demote_eligible_to(
    roster: Seq<PlayerEntry>,
    at: Tier,
    protected: Set<Seq<char>>,
    i: nat,
) -> int
    decreases i,
{
    if i == 0 || i > roster.len() {
        0
    } else {
        (if roster[i - 1].tier == at && !protected.contains(roster[i - 1].name@) {
            1int
        } else {
            0int
        }) + demote_eligible_to(roster, at, protected, (i - 1) as nat)
    }
}

/// A promotion selection takes as many entries as the quota asks for, or
/// every eligible entry when fewer remain.
proof fn lemma_promote_sel_len(
    roster: Seq<PlayerEntry>,
    from: Tier,
    upgraded: Set<Seq<char>>,
    k: nat,
    i: nat,
)
    ensures
        spec_promote_sel(roster, from, upgraded, k, i).len() == vstd::math::min(
            k as int,
            promote_eligible_from(roster, from, upgraded, i),
        ),
        promote_eligible_from(roster, from, upgraded, i) >= 0,
    decreases roster.len() - i,
{
    if i >= roster.len() || k == 0 {
        if i < roster.len() {
            lemma_promote_sel_len(roster, from, upgraded, 0, i + 1);
        }
    } else if roster[i as int].tier == from && !upgraded.contains(roster[i as int].name@) {
        lemma_promote_sel_len(roster, from, upgraded, (k - 1) as nat, i + 1);
    } else {
        lemma_promote_sel_len(roster, from, upgraded, k, i + 1);
    }
}

/// A demotion selection takes as many entries as the overflow asks for, or
/// every eligible entry when fewer remain.
proof fn lemma_demote_sel_len(
    roster: Seq<PlayerEntry>,
    at: Tier,
    protected: Set<Seq<char>>,
    k: nat,
    i: nat,
)
    ensures
        spec_demote_sel(roster, at, protected, k, i).len() == vstd::math::min(
            k as int,
            demote_eligible_to(roster, at, protected, i),
        ),
        demote_eligible_to(roster, at, protected, i) >= 0,
    decreases i,
{
    if i == 0 || i > roster.len() || k == 0 {
        if 0 < i <= roster.len() {
            lemma_demote_sel_len(roster, at, protected, 0, (i - 1) as nat);
        }
    } else if roster[i - 1].tier == at && !protected.contains(roster[i - 1].name@) {
        lemma_demote_sel_len(roster, at, protected, (k - 1) as nat, (i - 1) as nat);
    } else {
        lemma_demote_sel_len(roster, at, protected, k, (i - 1) as nat);
    }
}

/// Every index a promotion selection picks is in range, holds the source
/// tier, belongs to a non-upgraded name, and the indices strictly increase.
proof fn lemma_promote_sel_filter(
    roster: Seq<PlayerEntry>,
    from: Tier,
    upgraded: Set<Seq<char>>,
    k: nat,
    i: nat,
)
    ensures
        ({
            let sel = spec_promote_sel(roster, from, upgraded, k, i);
            &&& forall|m: int|
                0 <= m < sel.len() ==> i <= #[trigger] sel[m] < roster.len()
                    && roster[sel[m]].tier == from && !upgraded.contains(roster[sel[m]].name@)
            &&& forall|m1: int, m2: int|
                0 <= m1 < m2 < sel.len() ==> #[trigger] sel[m1] < #[trigger] sel[m2]
        }),
    decreases roster.len() - i,
{
    let sel = spec_promote_sel(roster, from, upgraded, k, i);
    if i >= roster.len() || k == 0 {
    } else if roster[i as int].tier == from && !upgraded.contains(roster[i as int].name@) {
        lemma_promote_sel_filter(roster, from, upgraded, (k - 1) as nat, i + 1);
        let tail = spec_promote_sel(roster, from, upgraded, (k - 1) as nat, i + 1);
        assert(forall|m: int| 1 <= m < sel.len() ==> #[trigger] sel[m] == tail[m - 1]);
        assert(sel[0] == i as int);
    } else {
        lemma_promote_sel_filter(roster, from, upgraded, k, i + 1);
    }
}

/// Every index a demotion selection picks is in range, holds the boundary
/// tier, belongs to an unprotected name, and the indices strictly decrease.
proof fn lemma_demote_sel_filter_full(
    roster: Seq<PlayerEntry>,
    at: Tier,
    protected: Set<Seq<char>>,
    k: nat,
    i: nat,
)
    ensures
        ({
            let sel = spec_demote_sel(roster, at, protected, k, i);
            &&& forall|m: int|
                0 <= m < sel.len() ==> 0 <= #[trigger] sel[m] < i && sel[m] < roster.len()
                    && roster[sel[m]].tier == at && !protected.contains(roster[sel[m]].name@)
            &&& forall|m1: int, m2: int|
                0 <= m1 < m2 < sel.len() ==> #[trigger] sel[m1] > #[trigger] sel[m2]
        }),
    decreases i,
{
    let sel = spec_demote_sel(roster, at, protected, k, i);
    if i == 0 || i > roster.len() || k == 0 {
    } else if roster[i - 1].tier == at && !protected.contains(roster[i - 1].name@) {
        lemma_demote_sel_filter_full(roster, at, protected, (k - 1) as nat, (i - 1) as nat);
        let tail = spec_demote_sel(roster, at, protected, (k - 1) as nat, (i - 1) as nat);
        assert(forall|m: int| 1 <= m < sel.len() ==> #[trigger] sel[m] == tail[m - 1]);
        assert(sel[0] == i - 1);
    } else {
        lemma_demote_sel_filter_full(roster, at, protected, k, (i - 1) as nat);
    }
}

/// A promotion pass moves each selected entry's effective tier up to the
/// boundary, raising the boundary's effective count by the selection size
/// and no other boundary's count; selected names join both sets.
proof fn lemma_apply_promotions_eff(
    st: StateView,
    roster: Seq<PlayerEntry>,
    sel: Seq<int>,
    g: PositionGroup,
    b: Tier,
    t: Tier,
)
    requires
        roster_keys_distinct(roster),
        b != Tier::Base,
        forall|m: int| 0 <= m < sel.len() ==> 0 <= #[trigger] sel[m] < roster.len(),
        forall|m: int|
            0 <= m < sel.len() ==> roster[#[trigger] sel[m]].tier == b.spec_below(),
        forall|m: int|
            0 <= m < sel.len() ==> spec_find_change(
                st.changes,
                roster[#[trigger] sel[m]].name@,
                roster[sel[m]].team@,
                g,
            ) is None,
        forall|m1: int, m2: int| 0 <= m1 < m2 < sel.len() ==> sel[m1] != sel[m2],
    ensures
        ({
            let r = spec_apply_promotions(st, roster, sel, g, b);
            &&& eff_count(roster, g, r.changes, t) == eff_count(roster, g, st.changes, t) + (
            if t == b {
                sel.len() as int
            } else {
                0int
            })
            &&& st.protected.subset_of(r.protected)
            &&& st.upgraded.subset_of(r.upgraded)
            &&& forall|i: int|
                0 <= i < roster.len() ==> if (exists|m: int| 0 <= m < sel.len() && sel[m] == i) {
                    spec_find_change(r.changes, (#[trigger] roster[i]).name@, roster[i].team@, g)
                        == Some(promotion_change(roster[i]@, g, b))
                } else {
                    spec_find_change(r.changes, roster[i].name@, roster[i].team@, g)
                        == spec_find_change(st.changes, roster[i].name@, roster[i].team@, g)
                }
            &&& forall|m: int|
                0 <= m < sel.len() ==> r.protected.contains(roster[#[trigger] sel[m]].name@)
                    && r.upgraded.contains(roster[sel[m]].name@)
        }),
    decreases sel.len(),
{
    if sel.len() == 0 {
    } else {
        let p = sel[0];
        let e = roster[p]@;
        let c = promotion_change(e, g, b);
        let st1 = StateView {
            protected: st.protected.insert(e.name),
            upgraded: st.upgraded.insert(e.name),
            changes: spec_insert_change(st.changes, c),
        };
        lemma_find_insert_same(st.changes, c);
        assert forall|i: int| 0 <= i < roster.len() && i != p implies spec_find_change(
            st1.changes,
            (#[trigger] roster[i]).name@,
            roster[i].team@,
            g,
        ) == spec_find_change(st.changes, roster[i].name@, roster[i].team@, g) by {
            assert(!(roster[i].name@ == e.name && roster[i].team@ == e.team));
            lemma_find_insert_other(st.changes, c, roster[i].name@, roster[i].team@, g);
        }
        assert(eff_rank(roster[p], g, st1.changes) == b.rank());
        assert(eff_rank(roster[p], g, st.changes) == b.spec_below().rank());
        lemma_eff_count_pointwise(roster, g, st.changes, st1.changes, t, p);
        assert(eff_count(roster, g, st1.changes, t) - eff_count(roster, g, st.changes, t) == (
        if t == b {
            1int
        } else {
            0int
        }));
        assert(forall|m: int| 1 <= m < sel.len() ==> #[trigger] sel[m] == sel.skip(1)[m - 1]);
        assert(forall|m: int|
            0 <= m < sel.skip(1).len() ==> #[trigger] sel.skip(1)[m] == sel[m + 1]);
        assert forall|m: int| 0 <= m < sel.skip(1).len() implies spec_find_change(
            st1.changes,
            roster[#[trigger] sel.skip(1)[m]].name@,
            roster[sel.skip(1)[m]].team@,
            g,
        ) is None by {
            assert(sel.skip(1)[m] == sel[m + 1]);
            assert(sel[m + 1] != p);
        }
        lemma_apply_promotions_eff(st1, roster, sel.skip(1), g, b, t);
        let r = spec_apply_promotions(st, roster, sel, g, b);
        assert(r == spec_apply_promotions(st1, roster, sel.skip(1), g, b));
        assert forall|i: int| 0 <= i < roster.len() implies (if (exists|m: int|
            0 <= m < sel.len() && sel[m] == i) {
            spec_find_change(r.changes, (#[trigger] roster[i]).name@, roster[i].team@, g) == Some(
                promotion_change(roster[i]@, g, b),
            )
        } else {
            spec_find_change(r.changes, roster[i].name@, roster[i].team@, g) == spec_find_change(
                st.changes,
                roster[i].name@,
                roster[i].team@,
                g,
            )
        }) by {
            if exists|m: int| 0 <= m < sel.len() && sel[m] == i {
                let m = choose|m: int| 0 <= m < sel.len() && sel[m] == i;
                if m == 0 {
                    assert(!(exists|m2: int| 0 <= m2 < sel.skip(1).len() && sel.skip(1)[m2] == i))
                        by {
                        if exists|m2: int| 0 <= m2 < sel.skip(1).len() && sel.skip(1)[m2] == i {
                            let m2 = choose|m2: int|
                                0 <= m2 < sel.skip(1).len() && sel.skip(1)[m2] == i;
                            assert(sel[m2 + 1] == i && sel[0] == i);
                        }
                    }
                } else {
                    assert(sel.skip(1)[m - 1] == i);
                }
            } else {
                assert(!(exists|m2: int| 0 <= m2 < sel.skip(1).len() && sel.skip(1)[m2] == i)) by {
                    if exists|m2: int| 0 <= m2 < sel.skip(1).len() && sel.skip(1)[m2] == i {
                        let m2 = choose|m2: int|
                            0 <= m2 < sel.skip(1).len() && sel.skip(1)[m2] == i;
                        assert(sel[m2 + 1] == i);
                    }
                }
                assert(i != p);
            }
        }
        assert forall|m: int| 0 <= m < sel.len() implies r.protected.contains(
            roster[#[trigger] sel[m]].name@,
        ) && r.upgraded.contains(roster[sel[m]].name@) by {
            if m == 0 {
                assert(st1.protected.contains(e.name) && st1.upgraded.contains(e.name));
            } else {
                assert(sel.skip(1)[m - 1] == sel[m]);
            }
        }
    }
}

/// A demotion pass moves each selected entry's effective tier down from the
/// boundary, lowering the boundary's effective count by the selection size
/// and no other boundary's count; selected names join the protected set.
proof fn lemma_apply_demotions_eff(
    st: StateView,
    roster: Seq<PlayerEntry>,
    sel: Seq<int>,
    g: PositionGroup,
    b: Tier,
    t: Tier,
)
    requires
        roster_keys_distinct(roster),
        b != Tier::Base,
        forall|m: int| 0 <= m < sel.len() ==> 0 <= #[trigger] sel[m] < roster.len(),
        forall|m: int| 0 <= m < sel.len() ==> roster[#[trigger] sel[m]].tier == b,
        forall|m: int|
            0 <= m < sel.len() ==> spec_find_change(
                st.changes,
                roster[#[trigger] sel[m]].name@,
                roster[sel[m]].team@,
                g,
            ) is None,
        forall|m1: int, m2: int| 0 <= m1 < m2 < sel.len() ==> sel[m1] != sel[m2],
    ensures
        ({
            let r = spec_apply_demotions(st, roster, sel, g, b);
            &&& eff_count(roster, g, r.changes, t) == eff_count(roster, g, st.changes, t) - (
            if t == b {
                sel.len() as int
            } else {
                0int
            })
            &&& st.protected.subset_of(r.protected)
            &&& r.upgraded == st.upgraded
            &&& forall|i: int|
                0 <= i < roster.len() ==> if (exists|m: int| 0 <= m < sel.len() && sel[m] == i) {
                    spec_find_change(r.changes, (#[trigger] roster[i]).name@, roster[i].team@, g)
                        == Some(demotion_change(roster[i]@, g, b))
                } else {
                    spec_find_change(r.changes, roster[i].name@, roster[i].team@, g)
                        == spec_find_change(st.changes, roster[i].name@, roster[i].team@, g)
                }
            &&& forall|m: int|
                0 <= m < sel.len() ==> r.protected.contains(roster[#[trigger] sel[m]].name@)
        }),
    decreases sel.len(),
{
    if sel.len() == 0 {
    } else {
        let p = sel[0];
        let e = roster[p]@;
        let c = demotion_change(e, g, b);
        let st1 = StateView {
            protected: st.protected.insert(e.name),
            upgraded: st.upgraded,
            changes: spec_insert_change(st.changes, c),
        };
        lemma_find_insert_same(st.changes, c);
        assert forall|i: int| 0 <= i < roster.len() && i != p implies spec_find_change(
            st1.changes,
            (#[trigger] roster[i]).name@,
            roster[i].team@,
            g,
        ) == spec_find_change(st.changes, roster[i].name@, roster[i].team@, g) by {
            assert(!(roster[i].name@ == e.name && roster[i].team@ == e.team));
            lemma_find_insert_other(st.changes, c, roster[i].name@, roster[i].team@, g);
        }
        assert(eff_rank(roster[p], g, st1.changes) == b.spec_below().rank());
        assert(eff_rank(roster[p], g, st.changes) == b.rank());
        lemma_eff_count_pointwise(roster, g, st.changes, st1.changes, t, p);
        assert(eff_count(roster, g, st1.changes, t) - eff_count(roster, g, st.changes, t) == (
        if t == b {
            -1int
        } else {
            0int
        }));
        assert(forall|m: int|
            0 <= m < sel.skip(1).len() ==> #[trigger] sel.skip(1)[m] == sel[m + 1]);
        assert forall|m: int| 0 <= m < sel.skip(1).len() implies spec_find_change(
            st1.changes,
            roster[#[trigger] sel.skip(1)[m]].name@,
            roster[sel.skip(1)[m]].team@,
            g,
        ) is None by {
            assert(sel.skip(1)[m] == sel[m + 1]);
            assert(sel[m + 1] != p);
        }
        lemma_apply_demotions_eff(st1, roster, sel.skip(1), g, b, t);
        let r = spec_apply_demotions(st, roster, sel, g, b);
        assert(r == spec_apply_demotions(st1, roster, sel.skip(1), g, b));
        assert forall|i: int| 0 <= i < roster.len() implies (if (exists|m: int|
            0 <= m < sel.len() && sel[m] == i) {
            spec_find_change(r.changes, (#[trigger] roster[i]).name@, roster[i].team@, g) == Some(
                demotion_change(roster[i]@, g, b),
            )
        } else {
            spec_find_change(r.changes, roster[i].name@, roster[i].team@, g) == spec_find_change(
                st.changes,
                roster[i].name@,
                roster[i].team@,
                g,
            )
        }) by {
            if exists|m: int| 0 <= m < sel.len() && sel[m] == i {
                let m = choose|m: int| 0 <= m < sel.len() && sel[m] == i;
                if m == 0 {
                    assert(!(exists|m2: int| 0 <= m2 < sel.skip(1).len() && sel.skip(1)[m2] == i))
                        by {
                        if exists|m2: int| 0 <= m2 < sel.skip(1).len() && sel.skip(1)[m2] == i {
                            let m2 = choose|m2: int|
                                0 <= m2 < sel.skip(1).len() && sel.skip(1)[m2] == i;
                            assert(sel[m2 + 1] == i && sel[0] == i);
                        }
                    }
                } else {
                    assert(sel.skip(1)[m - 1] == i);
                }
            } else {
                assert(!(exists|m2: int| 0 <= m2 < sel.skip(1).len() && sel.skip(1)[m2] == i)) by {
                    if exists|m2: int| 0 <= m2 < sel.skip(1).len() && sel.skip(1)[m2] == i {
                        let m2 = choose|m2: int|
                            0 <= m2 < sel.skip(1).len() && sel.skip(1)[m2] == i;
                        assert(sel[m2 + 1] == i);
                    }
                }
                assert(i != p);
            }
        }
        assert forall|m: int| 0 <= m < sel.len() implies r.protected.contains(
            roster[#[trigger] sel[m]].name@,
        ) by {
            if m == 0 {
                assert(st1.protected.contains(e.name));
            } else {
                assert(sel.skip(1)[m - 1] == sel[m]);
            }
        }
    }
}

/// The bookkeeping a group pass maintains: any recorded change for a roster
/// entry's key carries this group, starts from the entry's original tier at
/// or above `bound`, and its player is protected (and upgraded, for a
/// promotion).
pub open spec fn group_inv(
    st: StateView,
    roster: Seq<PlayerEntry>,
    g: PositionGroup,
    bound: int,
) -> bool {
    forall|i: int|
        0 <= i < roster.len() ==> match spec_find_change(
            st.changes,
            (#[trigger] roster[i]).name@,
            roster[i].team@,
            g,
        ) {
            None => true,
            Some(c) => {
                &&& c.old_tier == roster[i].tier
                &&& c.old_tier.rank() >= bound
                &&& st.protected.contains(roster[i].name@)
                &&& (c.new_tier.rank() > c.old_tier.rank() ==> st.upgraded.contains(
                    roster[i].name@,
                ))
            },
        }
}

/// What one boundary pass owes: the boundary's effective count lands at the
/// band edge, or as far as the eligible candidates reach.
pub open spec fn band_outcome(n: int, mn: int, mx: int, cnt: int, avail_up: int, avail_down: int) -> bool {
    if cnt < mn {
        n == cnt + vstd::math::min(mn - cnt, avail_up)
    } else if cnt > mx {
        n == cnt - vstd::math::min(cnt - mx, avail_down)
    } else {
        n == cnt
    }
}

/// One boundary pass: every other boundary's effective count is untouched,
/// the bookkeeping continues one rank lower, and the boundary's own count
/// meets its band outcome relative to the count it started from.
proof fn lemma_boundary_step_band(
    st: StateView,
    roster: Seq<PlayerEntry>,
    b: Tier,
    mn: int,
    mx: int,
    g: PositionGroup,
)
    requires
        roster_keys_distinct(roster),
        b != Tier::Base,
        group_inv(st, roster, g, b.rank()),
        0 <= mn <= mx,
    ensures
        ({
            let r = spec_boundary_step(st, roster, b, mn, mx, g);
            &&& group_inv(r, roster, g, b.rank() - 1)
            &&& forall|t: Tier|
                t != b ==> eff_count(roster, g, r.changes, t) == eff_count(
                    roster,
                    g,
                    st.changes,
                    t,
                )
            &&& eff_count(roster, g, r.changes, b) - eff_count(roster, g, st.changes, b)
                == band_outcome_delta(
                spec_count_at_least(roster, b),
                mn,
                mx,
                promote_eligible_from(roster, b.spec_below(), st.upgraded, 0),
                demote_eligible_to(roster, b, st.protected, roster.len() as nat),
            )
        }),
{
    let cnt = spec_count_at_least(roster, b);
    if cnt < mn {
        let k = (mn - cnt) as nat;
        let sel = spec_promote_sel(roster, b.spec_below(), st.upgraded, k, 0);
        lemma_promote_sel_filter(roster, b.spec_below(), st.upgraded, k, 0);
        lemma_promote_sel_len(roster, b.spec_below(), st.upgraded, k, 0);
        assert forall|m: int| 0 <= m < sel.len() implies spec_find_change(
            st.changes,
            roster[#[trigger] sel[m]].name@,
            roster[sel[m]].team@,
            g,
        ) is None by {
            let i = sel[m];
            match spec_find_change(st.changes, roster[i].name@, roster[i].team@, g) {
                None => {},
                Some(c) => {
                    assert(c.old_tier == roster[i].tier);
                    assert(roster[i].tier == b.spec_below());
                    assert(c.old_tier.rank() >= b.rank());
                    assert(b.spec_below().rank() < b.rank());
                },
            }
        }
        assert forall|m1: int, m2: int| 0 <= m1 < m2 < sel.len() implies sel[m1] != sel[m2] by {
            assert(sel[m1] < sel[m2]);
        }
        let r = spec_apply_promotions(st, roster, sel, g, b);
        assert forall|t: Tier| t != b implies eff_count(roster, g, r.changes, t) == eff_count(
            roster,
            g,
            st.changes,
            t,
        ) by {
            lemma_apply_promotions_eff(st, roster, sel, g, b, t);
        }
        lemma_apply_promotions_eff(st, roster, sel, g, b, b);
        assert forall|i: int|
            0 <= i < roster.len() implies match spec_find_change(
            r.changes,
            (#[trigger] roster[i]).name@,
            roster[i].team@,
            g,
        ) {
            None => true,
            Some(c) => {
                &&& c.old_tier == roster[i].tier
                &&& c.old_tier.rank() >= b.rank() - 1
                &&& r.protected.contains(roster[i].name@)
                &&& (c.new_tier.rank() > c.old_tier.rank() ==> r.upgraded.contains(
                    roster[i].name@,
                ))
            },
        } by {
            if exists|m: int| 0 <= m < sel.len() && sel[m] == i {
                let m = choose|m: int| 0 <= m < sel.len() && sel[m] == i;
                assert(spec_find_change(r.changes, roster[i].name@, roster[i].team@, g) == Some(
                    promotion_change(roster[i]@, g, b),
                ));
            } else {
                assert(spec_find_change(r.changes, roster[i].name@, roster[i].team@, g)
                    == spec_find_change(st.changes, roster[i].name@, roster[i].team@, g));
            }
        }
    } else if cnt > mx {
        let k = (cnt - mx) as nat;
        let sel = spec_demote_sel(roster, b, st.protected, k, roster.len() as nat);
        lemma_demote_sel_filter_full(roster, b, st.protected, k, roster.len() as nat);
        lemma_demote_sel_len(roster, b, st.protected, k, roster.len() as nat);
        assert forall|m: int| 0 <= m < sel.len() implies spec_find_change(
            st.changes,
            roster[#[trigger] sel[m]].name@,
            roster[sel[m]].team@,
            g,
        ) is None by {
            let i = sel[m];
            match spec_find_change(st.changes, roster[i].name@, roster[i].team@, g) {
                None => {},
                Some(c) => {
                    assert(st.protected.contains(roster[i].name@));
                    assert(!st.protected.contains(roster[i].name@));
                },
            }
        }
        assert forall|m1: int, m2: int| 0 <= m1 < m2 < sel.len() implies sel[m1] != sel[m2] by {
            assert(sel[m1] > sel[m2]);
        }
        let r = spec_apply_demotions(st, roster, sel, g, b);
        assert forall|t: Tier| t != b implies eff_count(roster, g, r.changes, t) == eff_count(
            roster,
            g,
            st.changes,
            t,
        ) by {
            lemma_apply_demotions_eff(st, roster, sel, g, b, t);
        }
        lemma_apply_demotions_eff(st, roster, sel, g, b, b);
        assert forall|i: int|
            0 <= i < roster.len() implies match spec_find_change(
            r.changes,
            (#[trigger] roster[i]).name@,
            roster[i].team@,
            g,
        ) {
            None => true,
            Some(c) => {
                &&& c.old_tier == roster[i].tier
                &&& c.old_tier.rank() >= b.rank() - 1
                &&& r.protected.contains(roster[i].name@)
                &&& (c.new_tier.rank() > c.old_tier.rank() ==> r.upgraded.contains(
                    roster[i].name@,
                ))
            },
        } by {
            if exists|m: int| 0 <= m < sel.len() && sel[m] == i {
                let m = choose|m: int| 0 <= m < sel.len() && sel[m] == i;
                assert(spec_find_change(r.changes, roster[i].name@, roster[i].team@, g) == Some(
                    demotion_change(roster[i]@, g, b),
                ));
            } else {
                assert(spec_find_change(r.changes, roster[i].name@, roster[i].team@, g)
                    == spec_find_change(st.changes, roster[i].name@, roster[i].team@, g));
            }
        }
    }
}

/// The signed count adjustment a boundary pass makes.
pub open spec fn band_outcome_delta(cnt: int, mn: int, mx: int, avail_up: int, avail_down: int) -> int {
    if cnt < mn {
        vstd::math::min(mn - cnt, avail_up)
    } else if cnt > mx {
        -vstd::math::min(cnt - mx, avail_down)
    } else {
        0
    }
}

/// Band satisfaction for one group pass. Starting from a state that holds
/// no change of this group, the pass drives the effective count at each of
/// the three boundaries to its band edge, or as far as the eligible
/// candidates allow; the availability of candidates at each boundary is
/// measured against the sets as they stood when that boundary was
/// processed.
pub proof fn lemma_group_band(
    st: StateView,
    roster: Seq<PlayerEntry>,
    limits: GroupLimits,
    g: PositionGroup,
)
    requires
        roster_keys_distinct(roster),
        no_group_changes(st.changes, g),
        limits_wf(limits),
    ensures
        ({
            let r = spec_rebalance_group(st, roster, limits, g);
            let st1 = spec_boundary_step(
                st,
                roster,
                Tier::TopTier,
                limits.top_min as int,
                limits.top_max as int,
                g,
            );
            let st2 = spec_boundary_step(
                st1,
                roster,
                Tier::UpperMid,
                limits.upper_min as int,
                limits.upper_max as int,
                g,
            );
            &&& band_outcome(
                eff_count(roster, g, r.changes, Tier::TopTier),
                limits.top_min as int,
                limits.top_max as int,
                spec_count_at_least(roster, Tier::TopTier),
                promote_eligible_from(roster, Tier::UpperMid, st.upgraded, 0),
                demote_eligible_to(roster, Tier::TopTier, st.protected, roster.len() as nat),
            )
            &&& band_outcome(
                eff_count(roster, g, r.changes, Tier::UpperMid),
                limits.upper_min as int,
                limits.upper_max as int,
                spec_count_at_least(roster, Tier::UpperMid),
                promote_eligible_from(roster, Tier::LowerMid, st1.upgraded, 0),
                demote_eligible_to(roster, Tier::UpperMid, st1.protected, roster.len() as nat),
            )
            &&& band_outcome(
                eff_count(roster, g, r.changes, Tier::LowerMid),
                limits.lower_min as int,
                limits.lower_max as int,
                spec_count_at_least(roster, Tier::LowerMid),
                promote_eligible_from(roster, Tier::Base, st2.upgraded, 0),
                demote_eligible_to(roster, Tier::LowerMid, st2.protected, roster.len() as nat),
            )
        }),
{
    let st1 = spec_boundary_step(
        st,
        roster,
        Tier::TopTier,
        limits.top_min as int,
        limits.top_max as int,
        g,
    );
    let st2 = spec_boundary_step(
        st1,
        roster,
        Tier::UpperMid,
        limits.upper_min as int,
        limits.upper_max as int,
        g,
    );
    let st3 = spec_boundary_step(
        st2,
        roster,
        Tier::LowerMid,
        limits.lower_min as int,
        limits.lower_max as int,
        g,
    );
    assert(group_inv(st, roster, g, Tier::TopTier.rank())) by {
        assert forall|i: int| 0 <= i < roster.len() implies spec_find_change(
            st.changes,
            (#[trigger] roster[i]).name@,
            roster[i].team@,
            g,
        ) is None by {
            lemma_find_no_group(st.changes, roster[i].name@, roster[i].team@, g);
        }
    }
    assert forall|t: Tier| true implies eff_count(roster, g, st.changes, t)
        == spec_count_at_least(roster, t) by {
        lemma_eff_count_initial(roster, g, st.changes, t);
    }
    lemma_boundary_step_band(
        st,
        roster,
        Tier::TopTier,
        limits.top_min as int,
        limits.top_max as int,
        g,
    );
    lemma_boundary_step_band(
        st1,
        roster,
        Tier::UpperMid,
        limits.upper_min as int,
        limits.upper_max as int,
        g,
    );
    lemma_boundary_step_band(
        st2,
        roster,
        Tier::LowerMid,
        limits.lower_min as int,
        limits.lower_max as int,
        g,
    );
    assert(Tier::UpperMid.spec_below() == Tier::LowerMid);
    assert(Tier::TopTier.spec_below() == Tier::UpperMid);
    assert(Tier::LowerMid.spec_below() == Tier::Base);
}

/// A band outcome keeps the count inside the band, unless the eligible
/// candidates ran out, in which case the count stops short on that side.
pub proof fn lemma_band_outcome_bounds(
    n: int,
    mn: int,
    mx: int,
    cnt: int,
    avail_up: int,
    avail_down: int,
)
    requires
        band_outcome(n, mn, mx, cnt, avail_up, avail_down),
        mn <= mx,
        avail_up >= 0,
        avail_down >= 0,
    ensures
        (mn <= n <= mx) || (n < mn && avail_up < mn - cnt) || (n > mx && avail_down < cnt - mx),
{
}

/// A promotion or demotion pass of another group never touches this group's
/// lookups.
proof fn lemma_apply_promotions_other_group(
    st: StateView,
    roster: Seq<PlayerEntry>,
    sel: Seq<int>,
    g2: PositionGroup,
    b: Tier,
    name: Seq<char>,
    team: Seq<char>,
    g: PositionGroup,
)
    requires
        g2 != g,
    ensures
        spec_find_change(spec_apply_promotions(st, roster, sel, g2, b).changes, name, team, g)
            == spec_find_change(st.changes, name, team, g),
    decreases sel.len(),
{
    if sel.len() == 0 {
    } else if !(0 <= sel[0] < roster.len()) {
    } else {
        let e = roster[sel[0]]@;
        let c = promotion_change(e, g2, b);
        let st1 = StateView {
            protected: st.protected.insert(e.name),
            upgraded: st.upgraded.insert(e.name),
            changes: spec_insert_change(st.changes, c),
        };
        lemma_find_insert_other(st.changes, c, name, team, g);
        lemma_apply_promotions_other_group(st1, roster, sel.skip(1), g2, b, name, team, g);
    }
}

/// A demotion pass of another group never touches this group's lookups.
proof fn lemma_apply_demotions_other_group(
    st: StateView,
    roster: Seq<PlayerEntry>,
    sel: Seq<int>,
    g2: PositionGroup,
    b: Tier,
    name: Seq<char>,
    team: Seq<char>,
    g: PositionGroup,
)
    requires
        g2 != g,
    ensures
        spec_find_change(spec_apply_demotions(st, roster, sel, g2, b).changes, name, team, g)
            == spec_find_change(st.changes, name, team, g),
    decreases sel.len(),
{
    if sel.len() == 0 {
    } else if !(0 <= sel[0] < roster.len()) {
    } else {
        let e = roster[sel[0]]@;
        let c = demotion_change(e, g2, b);
        let st1 = StateView {
            protected: st.protected.insert(e.name),
            upgraded: st.upgraded,
            changes: spec_insert_change(st.changes, c),
        };
        lemma_find_insert_other(st.changes, c, name, team, g);
        lemma_apply_demotions_other_group(st1, roster, sel.skip(1), g2, b, name, team, g);
    }
}

/// A protection pass leaves the recorded changes untouched.
proof fn lemma_protect_pass_changes(
    st: StateView,
    cands: Seq<Player>,
    after: Seq<Player>,
    stats: &StatTables,
    max_years: u8,
    min_games: u32,
)
    ensures
        spec_protect_pass(st, cands, after, stats, max_years, min_games).changes == st.changes,
    decreases cands.len(),
{
    if cands.len() > 0 {
        let p = cands[0];
        let st1 = if crate::protect::spec_rookie_protected(p, stats, max_years, min_games) {
            StateView { protected: st.protected.insert(p.name@), ..st }
        } else {
            st
        };
        let st2 = if crate::protect::spec_externally_upgraded(p, after) {
            StateView {
                protected: st1.protected.insert(p.name@),
                upgraded: st1.upgraded.insert(p.name@),
                changes: st1.changes,
            }
        } else {
            st1
        };
        lemma_protect_pass_changes(st2, cands.skip(1), after, stats, max_years, min_games);
    }
}

/// A whole pass of another group never touches this group's lookups.
proof fn lemma_run_group_other_group(
    st: StateView,
    g2: PositionGroup,
    before: Seq<Player>,
    after: Seq<Player>,
    stats: &StatTables,
    c: &LeagueConfig,
    factors: Seq<u32>,
    name: Seq<char>,
    team: Seq<char>,
    g: PositionGroup,
)
    requires
        g2 != g,
    ensures
        spec_find_change(
            spec_run_group(st, g2, before, after, stats, c, factors).changes,
            name,
            team,
            g,
        ) == spec_find_change(st.changes, name, team, g),
{
    let cands = spec_candidates(before, g2, c.scheme_teams@);
    let stp = spec_protect_pass(st, cands, after, stats, c.rookie_max_years, c.rookie_min_games);
    lemma_protect_pass_changes(st, cands, after, stats, c.rookie_max_years, c.rookie_min_games);
    let roster = spec_sort_entries(spec_make_entries(cands, g2, stats, c, factors));
    let limits = spec_limits_for(c, g2);
    let st1 = spec_boundary_step(
        stp,
        roster,
        Tier::TopTier,
        limits.top_min as int,
        limits.top_max as int,
        g2,
    );
    let st2 = spec_boundary_step(
        st1,
        roster,
        Tier::UpperMid,
        limits.upper_min as int,
        limits.upper_max as int,
        g2,
    );
    lemma_boundary_step_other_group(
        stp,
        roster,
        Tier::TopTier,
        limits.top_min as int,
        limits.top_max as int,
        g2,
        name,
        team,
        g,
    );
    lemma_boundary_step_other_group(
        st1,
        roster,
        Tier::UpperMid,
        limits.upper_min as int,
        limits.upper_max as int,
        g2,
        name,
        team,
        g,
    );
    lemma_boundary_step_other_group(
        st2,
        roster,
        Tier::LowerMid,
        limits.lower_min as int,
        limits.lower_max as int,
        g2,
        name,
        team,
        g,
    );
}

/// A boundary pass of another group never touches this group's lookups.
proof fn lemma_boundary_step_other_group(
    st: StateView,
    roster: Seq<PlayerEntry>,
    boundary: Tier,
    min: int,
    max: int,
    g2: PositionGroup,
    name: Seq<char>,
    team: Seq<char>,
    g: PositionGroup,
)
    requires
        g2 != g,
    ensures
        spec_find_change(
            spec_boundary_step(st, roster, boundary, min, max, g2).changes,
            name,
            team,
            g,
        ) == spec_find_change(st.changes, name, team, g),
{
    let cnt = spec_count_at_least(roster, boundary);
    if cnt < min {
        lemma_apply_promotions_other_group(
            st,
            roster,
            spec_promote_sel(roster, boundary.spec_below(), st.upgraded, (min - cnt) as nat, 0),
            g2,
            boundary,
            name,
            team,
            g,
        );
    } else if cnt > max {
        lemma_apply_demotions_other_group(
            st,
            roster,
            spec_demote_sel(roster, boundary, st.protected, (cnt - max) as nat, roster.len()),
            g2,
            boundary,
            name,
            team,
            g,
        );
    }
}

/// The remaining groups of a run, none of them `g`, never touch group `g`'s
/// effective counts over any roster.
proof fn lemma_run_groups_other_group(
    st: StateView,
    groups: Seq<PositionGroup>,
    before: Seq<Player>,
    after: Seq<Player>,
    stats: &StatTables,
    c: &LeagueConfig,
    factors: Seq<u32>,
    name: Seq<char>,
    team: Seq<char>,
    g: PositionGroup,
)
    requires
        forall|j: int| 0 <= j < groups.len() ==> (#[trigger] groups[j]) != g,
    ensures
        spec_find_change(
            spec_run_groups(st, groups, before, after, stats, c, factors).changes,
            name,
            team,
            g,
        ) == spec_find_change(st.changes, name, team, g),
    decreases groups.len(),
{
    if groups.len() > 0 {
        let st1 = spec_run_group(st, groups[0], before, after, stats, c, factors);
        lemma_run_group_other_group(st, groups[0], before, after, stats, c, factors, name, team, g);
        assert(forall|j: int|
            0 <= j < groups.skip(1).len() ==> (#[trigger] groups.skip(1)[j]) == groups[j + 1]);
        lemma_run_groups_other_group(
            st1,
            groups.skip(1),
            before,
            after,
            stats,
            c,
            factors,
            name,
            team,
            g,
        );
    }
}

/// The scored, sorted roster of one group, as the pipeline builds it.
pub open spec fn spec_group_roster(
    g: PositionGroup,
    before: Seq<Player>,
    after: Seq<Player>,
    stats: &StatTables,
    c: &LeagueConfig,
    factors: Seq<u32>,
) -> Seq<PlayerEntry> {
    spec_sort_entries(
        spec_make_entries(spec_candidates(before, g, c.scheme_teams@), g, stats, c, factors),
    )
}

/// The state as it stands when the group at position `gi` comes up.
pub open spec fn spec_state_at(
    st: StateView,
    groups: Seq<PositionGroup>,
    before: Seq<Player>,
    after: Seq<Player>,
    stats: &StatTables,
    c: &LeagueConfig,
    factors: Seq<u32>,
    gi: int,
) -> StateView
    decreases gi,
{
    if gi <= 0 {
        st
    } else {
        spec_state_at(
            spec_run_group(st, groups[0], before, after, stats, c, factors),
            groups.skip(1),
            before,
            after,
            stats,
            c,
            factors,
            gi - 1,
        )
    }
}

/// Band satisfaction for the group at position `gi`, measured against the
/// changes of the whole remaining run.
proof fn lemma_run_groups_band_at(
    st: StateView,
    groups: Seq<PositionGroup>,
    before: Seq<Player>,
    after: Seq<Player>,
    stats: &StatTables,
    c: &LeagueConfig,
    factors: Seq<u32>,
    gi: int,
)
    requires
        0 <= gi < groups.len(),
        forall|j: int| 0 <= j < groups.len() && j != gi ==> (#[trigger] groups[j]) != groups[gi],
        changes_key_unique(st.changes),
        no_group_changes(st.changes, groups[gi]),
        limits_wf(spec_limits_for(c, groups[gi])),
        roster_keys_distinct(spec_group_roster(groups[gi], before, after, stats, c, factors)),
    ensures
        ({
            let g = groups[gi];
            let roster = spec_group_roster(g, before, after, stats, c, factors);
            let limits = spec_limits_for(c, g);
            let stt = spec_state_at(st, groups, before, after, stats, c, factors, gi);
            let cands = spec_candidates(before, g, c.scheme_teams@);
            let stp = spec_protect_pass(
                stt,
                cands,
                after,
                stats,
                c.rookie_max_years,
                c.rookie_min_games,
            );
            let st1 = spec_boundary_step(
                stp,
                roster,
                Tier::TopTier,
                limits.top_min as int,
                limits.top_max as int,
                g,
            );
            let st2 = spec_boundary_step(
                st1,
                roster,
                Tier::UpperMid,
                limits.upper_min as int,
                limits.upper_max as int,
                g,
            );
            let final_changes = spec_run_groups(st, groups, before, after, stats, c, factors).changes;
            &&& band_outcome(
                eff_count(roster, g, final_changes, Tier::TopTier),
                limits.top_min as int,
                limits.top_max as int,
                spec_count_at_least(roster, Tier::TopTier),
                promote_eligible_from(roster, Tier::UpperMid, stp.upgraded, 0),
                demote_eligible_to(roster, Tier::TopTier, stp.protected, roster.len() as nat),
            )
            &&& band_outcome(
                eff_count(roster, g, final_changes, Tier::UpperMid),
                limits.upper_min as int,
                limits.upper_max as int,
                spec_count_at_least(roster, Tier::UpperMid),
                promote_eligible_from(roster, Tier::LowerMid, st1.upgraded, 0),
                demote_eligible_to(roster, Tier::UpperMid, st1.protected, roster.len() as nat),
            )
            &&& band_outcome(
                eff_count(roster, g, final_changes, Tier::LowerMid),
                limits.lower_min as int,
                limits.lower_max as int,
                spec_count_at_least(roster, Tier::LowerMid),
                promote_eligible_from(roster, Tier::Base, st2.upgraded, 0),
                demote_eligible_to(roster, Tier::LowerMid, st2.protected, roster.len() as nat),
            )
        }),
    decreases gi,
{
    let g = groups[gi];
    let roster = spec_group_roster(g, before, after, stats, c, factors);
    let limits = spec_limits_for(c, g);
    if gi == 0 {
        let cands = spec_candidates(before, g, c.scheme_teams@);
        let stp = spec_protect_pass(st, cands, after, stats, c.rookie_max_years, c.rookie_min_games);
        lemma_protect_pass_changes(st, cands, after, stats, c.rookie_max_years, c.rookie_min_games);
        lemma_group_band(stp, roster, limits, g);
        let st_after = spec_rebalance_group(stp, roster, limits, g);
        assert(st_after == spec_run_group(st, g, before, after, stats, c, factors));
        assert(forall|j: int|
            0 <= j < groups.skip(1).len() ==> (#[trigger] groups.skip(1)[j]) == groups[j + 1]);
        assert forall|i: int| 0 <= i < roster.len() implies eff_rank(
            #[trigger] roster[i],
            g,
            spec_run_groups(st, groups, before, after, stats, c, factors).changes,
        ) == eff_rank(roster[i], g, st_after.changes) by {
            lemma_run_groups_other_group(
                st_after,
                groups.skip(1),
                before,
                after,
                stats,
                c,
                factors,
                roster[i].name@,
                roster[i].team@,
                g,
            );
        }
        let final_changes = spec_run_groups(st, groups, before, after, stats, c, factors).changes;
        lemma_eff_count_same(roster, g, st_after.changes, final_changes, Tier::TopTier);
        lemma_eff_count_same(roster, g, st_after.changes, final_changes, Tier::UpperMid);
        lemma_eff_count_same(roster, g, st_after.changes, final_changes, Tier::LowerMid);
    } else {
        let st1 = spec_run_group(st, groups[0], before, after, stats, c, factors);
        crate::laws::lemma_run_group_protects(st, groups[0], before, after, stats, c, factors);
        crate::laws::lemma_run_group_new_changes(st, groups[0], before, after, stats, c, factors);
        assert(no_group_changes(st1.changes, g)) by {
            assert forall|i: int| 0 <= i < st1.changes.len() implies (
            #[trigger] st1.changes[i]).group != g by {
                if st.changes.contains(st1.changes[i]) {
                    let j = choose|j: int|
                        0 <= j < st.changes.len() && st.changes[j] == st1.changes[i];
                } else {
                    assert(st1.changes[i].group == groups[0]);
                }
            }
        }
        assert(forall|j: int|
            0 <= j < groups.skip(1).len() ==> (#[trigger] groups.skip(1)[j]) == groups[j + 1]);
        assert(groups.skip(1)[gi - 1] == g);
        lemma_run_groups_band_at(
            st1,
            groups.skip(1),
            before,
            after,
            stats,
            c,
            factors,
            gi - 1,
        );
    }
}

/// Band satisfaction for a full run: for every position group, the
/// effective count of players at or above each boundary, measured on the
/// run's recorded changes over that group's scored roster, lands inside the
/// configured band or as far toward it as the eligible candidates allowed.
/// Rosters whose entries repeat a (name, team) pair are excluded: two such
/// entries would share one change record.
pub proof fn lemma_run_band_satisfaction(
    before: Seq<Player>,
    after: Seq<Player>,
    stats: &StatTables,
    c: &LeagueConfig,
    factors: Seq<u32>,
    gi: int,
)
    requires
        0 <= gi < spec_group_order().len(),
        crate::config::config_wf(c),
        roster_keys_distinct(
            spec_group_roster(spec_group_order()[gi], before, after, stats, c, factors),
        ),
    ensures
        ({
            let groups = spec_group_order();
            let g = groups[gi];
            let st0 = StateView {
                protected: Set::empty(),
                upgraded: Set::empty(),
                changes: Seq::empty(),
            };
            let roster = spec_group_roster(g, before, after, stats, c, factors);
            let limits = spec_limits_for(c, g);
            let stt = spec_state_at(st0, groups, before, after, stats, c, factors, gi);
            let cands = spec_candidates(before, g, c.scheme_teams@);
            let stp = spec_protect_pass(
                stt,
                cands,
                after,
                stats,
                c.rookie_max_years,
                c.rookie_min_games,
            );
            let st1 = spec_boundary_step(
                stp,
                roster,
                Tier::TopTier,
                limits.top_min as int,
                limits.top_max as int,
                g,
            );
            let st2 = spec_boundary_step(
                st1,
                roster,
                Tier::UpperMid,
                limits.upper_min as int,
                limits.upper_max as int,
                g,
            );
            let final_changes = crate::pipeline::spec_run(before, after, stats, c, factors).changes;
            &&& band_outcome(
                eff_count(roster, g, final_changes, Tier::TopTier),
                limits.top_min as int,
                limits.top_max as int,
                spec_count_at_least(roster, Tier::TopTier),
                promote_eligible_from(roster, Tier::UpperMid, stp.upgraded, 0),
                demote_eligible_to(roster, Tier::TopTier, stp.protected, roster.len() as nat),
            )
            &&& band_outcome(
                eff_count(roster, g, final_changes, Tier::UpperMid),
                limits.upper_min as int,
                limits.upper_max as int,
                spec_count_at_least(roster, Tier::UpperMid),
                promote_eligible_from(roster, Tier::LowerMid, st1.upgraded, 0),
                demote_eligible_to(roster, Tier::UpperMid, st1.protected, roster.len() as nat),
            )
            &&& band_outcome(
                eff_count(roster, g, final_changes, Tier::LowerMid),
                limits.lower_min as int,
                limits.lower_max as int,
                spec_count_at_least(roster, Tier::LowerMid),
                promote_eligible_from(roster, Tier::Base, st2.upgraded, 0),
                demote_eligible_to(roster, Tier::LowerMid, st2.protected, roster.len() as nat),
            )
        }),
{
    let groups = spec_group_order();
    let g = groups[gi];
    let st0 = StateView { protected: Set::empty(), upgraded: Set::empty(), changes: Seq::empty() };
    assert forall|j: int| 0 <= j < groups.len() && j != gi implies (#[trigger] groups[j])
        != groups[gi] by {
        lemma_group_order_distinct(j, gi);
    }
    assert(limits_wf(spec_limits_for(c, g)));
    lemma_run_groups_band_at(st0, groups, before, after, stats, c, factors, gi);
}

/// Distinct positions of the processing order hold distinct groups.
proof fn lemma_group_order_distinct(i: int, j: int)
    requires
        0 <= i < spec_group_order().len(),
        0 <= j < spec_group_order().len(),
        i != j,
    ensures
        spec_group_order()[i] != spec_group_order()[j],
{
    let o = spec_group_order();
    assert(o[0] == PositionGroup::QB);
    assert(o[1] == PositionGroup::HB);
    assert(o[2] == PositionGroup::FB);
    assert(o[3] == PositionGroup::WR);
    assert(o[4] == PositionGroup::TE);
    assert(o[5] == PositionGroup::OL);
    assert(o[6] == PositionGroup::IDL);
    assert(o[7] == PositionGroup::EDGE);
    assert(o[8] == PositionGroup::LB);
    assert(o[9] == PositionGroup::CB);
    assert(o[10] == PositionGroup::S);
    assert(o[11] == PositionGroup::K);
    assert(o[12] == PositionGroup::P);
}

} // verus!
