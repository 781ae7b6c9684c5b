//! The tier rebalancer.
//!
//! For one position group at a time, the rebalancer walks the three tier
//! boundaries top-down over the score-sorted candidate roster. At each
//! boundary it counts the holders of at least the boundary tier; too few, and
//! it promotes the highest-scoring eligible players one tier up to the
//! minimum; too many, and it demotes the lowest-scoring unprotected holders
//! down to the maximum. Every touched player becomes protected, every
//! promoted player also upgraded, and each change is recorded under the
//! player's (name, team, group) key. The protected and upgraded sets persist
//! across groups.

use crate::config::GroupLimits;
use crate::position::PositionGroup;
use crate::roster::ChangeView;
use crate::roster::EntryView;
use crate::roster::PlayerEntry;
use crate::roster::TierChange;
use crate::roster::change_key_eq;
use crate::roster::change_views;
use crate::text::add_name;
use crate::text::contains_name;
use crate::text::name_set;
use crate::text::str_eq;
use crate::tier::Tier;
use vstd::prelude::*;
use vstd::pervasive::VecAdditionalExecFns;

verus! {

/// The rebalancer's running state: the protected and upgraded name sets and
/// the recorded changes, shared across all position groups of a run.
pub struct RebalanceState {
    pub protected: Vec<String>,
    pub upgraded: Vec<String>,
    pub changes: Vec<TierChange>,
}

/// The specification view of the rebalancer state.
pub ghost struct StateView {
    pub protected: Set<Seq<char>>,
    pub upgraded: Set<Seq<char>>,
    pub changes: Seq<ChangeView>,
}

impl View for RebalanceState {
    type V = StateView;

    open spec fn view(&self) -> StateView {
        StateView {
            protected: name_set(self.protected@),
            upgraded: name_set(self.upgraded@),
            changes: change_views(self.changes@),
        }
    }
}

impl RebalanceState {
    /// A fresh state: nothing protected, nothing upgraded, no changes.
    pub fn new() -> (st: RebalanceState)
        ensures
            st@.protected == Set::<Seq<char>>::empty(),
            st@.upgraded == Set::<Seq<char>>::empty(),
            st@.changes == Seq::<ChangeView>::empty(),
    {
        let st = RebalanceState { protected: Vec::new(), upgraded: Vec::new(), changes: Vec::new() };
        proof {
            assert(name_set(st.protected@) =~= Set::<Seq<char>>::empty());
            assert(name_set(st.upgraded@) =~= Set::<Seq<char>>::empty());
            assert(change_views(st.changes@) =~= Seq::<ChangeView>::empty());
        }
        st
    }
}

/// How many roster entries hold at least tier `t`.
pub open spec fn spec_count_at_least(roster: Seq<PlayerEntry>, t: Tier) -> int
    decreases roster.len(),
{
    if roster.len() == 0 {
        0
    } else {
        (if roster[0].tier.rank() >= t.rank() {
            1int
        } else {
            0int
        }) + spec_count_at_least(roster.skip(1), t)
    }
}

/// The count is between zero and the roster size.
pub proof fn lemma_count_at_least_bound(roster: Seq<PlayerEntry>, t: Tier)
    ensures
        0 <= spec_count_at_least(roster, t) <= roster.len(),
    decreases roster.len(),
{
    if roster.len() > 0 {
        lemma_count_at_least_bound(roster.skip(1), t);
    }
}

/// The indices, front to back, of the first `k` roster entries that hold
/// tier `from` and are not yet upgraded: the candidates of a promotion pass,
/// highest score first. `i` is the scan position.
pub open spec fn spec_promote_sel(
    roster: Seq<PlayerEntry>,
    from: Tier,
    upgraded: Set<Seq<char>>,
    k: nat,
    i: nat,
) -> Seq<int>
    decreases roster.len() - i,
{
    if i >= roster.len() || k == 0 {
        Seq::empty()
    } else if roster[i as int].tier == from && !upgraded.contains(roster[i as int].name@) {
        seq![i as int] + spec_promote_sel(roster, from, upgraded, (k - 1) as nat, i + 1)
    } else {
        spec_promote_sel(roster, from, upgraded, k, i + 1)
    }
}

/// The indices, back to front, of the last `k` roster entries that hold
/// tier `at` and are not protected: the candidates of a demotion pass,
/// lowest score first. `i` is the number of entries not yet scanned.
pub open spec fn spec_demote_sel(
    roster: Seq<PlayerEntry>,
    at: Tier,
    protected: Set<Seq<char>>,
    k: nat,
    i: nat,
) -> Seq<int>
    decreases i,
{
    if i == 0 || i > roster.len() || k == 0 {
        Seq::empty()
    } else if roster[i - 1].tier == at && !protected.contains(roster[i - 1].name@) {
        seq![i - 1] + spec_demote_sel(roster, at, protected, (k - 1) as nat, (i - 1) as nat)
    } else {
        spec_demote_sel(roster, at, protected, k, (i - 1) as nat)
    }
}

/// Records a change: a change with the same key replaces the old entry in
/// place, any other key is appended.
pub open spec fn spec_insert_change(changes: Seq<ChangeView>, c: ChangeView) -> Seq<ChangeView>
    decreases changes.len(),
{
    if changes.len() == 0 {
        seq![c]
    } else if change_key_eq(changes[0], c) {
        seq![c] + changes.skip(1)
    } else {
        seq![changes[0]] + spec_insert_change(changes.skip(1), c)
    }
}

/// The change a promotion records for a roster entry: one tier up to the
/// boundary tier.
pub open spec fn promotion_change(e: EntryView, group: PositionGroup, boundary: Tier) -> ChangeView {
    ChangeView {
        name: e.name,
        team: e.team,
        group,
        old_tier: boundary.spec_below(),
        new_tier: boundary,
    }
}

/// The change a demotion records for a roster entry: one tier down from the
/// boundary tier.
pub open spec fn demotion_change(e: EntryView, group: PositionGroup, boundary: Tier) -> ChangeView {
    ChangeView {
        name: e.name,
        team: e.team,
        group,
        old_tier: boundary,
        new_tier: boundary.spec_below(),
    }
}

/// Applies a promotion pass: each selected entry, front first, becomes
/// protected and upgraded and its promotion is recorded.
pub open spec fn spec_apply_promotions(
    st: StateView,
    roster: Seq<PlayerEntry>,
    sel: Seq<int>,
    group: PositionGroup,
    boundary: Tier,
) -> StateView
    decreases sel.len(),
{
    if sel.len() == 0 {
        st
    } else if !(0 <= sel[0] < roster.len()) {
        st
    } else {
        let e = roster[sel[0]]@;
        let st1 = StateView {
            protected: st.protected.insert(e.name),
            upgraded: st.upgraded.insert(e.name),
            changes: spec_insert_change(st.changes, promotion_change(e, group, boundary)),
        };
        spec_apply_promotions(st1, roster, sel.skip(1), group, boundary)
    }
}

/// Applies a demotion pass: each selected entry, backmost first, becomes
/// protected (but not upgraded) and its demotion is recorded.
pub open spec fn spec_apply_demotions(
    st: StateView,
    roster: Seq<PlayerEntry>,
    sel: Seq<int>,
    group: PositionGroup,
    boundary: Tier,
) -> StateView
    decreases sel.len(),
{
    if sel.len() == 0 {
        st
    } else if !(0 <= sel[0] < roster.len()) {
        st
    } else {
        let e = roster[sel[0]]@;
        let st1 = StateView {
            protected: st.protected.insert(e.name),
            upgraded: st.upgraded,
            changes: spec_insert_change(st.changes, demotion_change(e, group, boundary)),
        };
        spec_apply_demotions(st1, roster, sel.skip(1), group, boundary)
    }
}

/// One boundary pass over a roster: promote up to the band minimum, demote
/// down to the band maximum, or leave the state unchanged.
pub open spec fn spec_boundary_step(
    st: StateView,
    roster: Seq<PlayerEntry>,
    boundary: Tier,
    min: int,
    max: int,
    group: PositionGroup,
) -> StateView {
    let cnt = spec_count_at_least(roster, boundary);
    if cnt < min {
        spec_apply_promotions(
            st,
            roster,
            spec_promote_sel(roster, boundary.spec_below(), st.upgraded, (min - cnt) as nat, 0),
            group,
            boundary,
        )
    } else if cnt > max {
        spec_apply_demotions(
            st,
            roster,
            spec_demote_sel(roster, boundary, st.protected, (cnt - max) as nat, roster.len()),
            group,
            boundary,
        )
    } else {
        st
    }
}

/// A full group pass: the three boundaries in fixed top-down order, each
/// seeing the protections and upgrades left by the one before.
pub open spec fn spec_rebalance_group(
    st: StateView,
    roster: Seq<PlayerEntry>,
    limits: GroupLimits,
    group: PositionGroup,
) -> StateView {
    let st1 = spec_boundary_step(
        st,
        roster,
        Tier::TopTier,
        limits.top_min as int,
        limits.top_max as int,
        group,
    );
    let st2 = spec_boundary_step(
        st1,
        roster,
        Tier::UpperMid,
        limits.upper_min as int,
        limits.upper_max as int,
        group,
    );
    spec_boundary_step(
        st2,
        roster,
        Tier::LowerMid,
        limits.lower_min as int,
        limits.lower_max as int,
        group,
    )
}

/// Counts the roster entries holding at least tier `t`.
pub fn count_at_least(roster: &Vec<PlayerEntry>, t: Tier) -> (cnt: usize)
    ensures
        cnt as int == spec_count_at_least(roster@, t),
        cnt <= roster@.len(),
{
    proof {
        lemma_count_at_least_bound(roster@, t);
        assert(roster@.skip(0) =~= roster@);
    }
    let mut cnt: usize = 0;
    let mut i: usize = 0;
    while i < roster.len()
        invariant
            0 <= i <= roster@.len(),
            cnt as int == spec_count_at_least(roster@, t) - spec_count_at_least(
                roster@.skip(i as int),
                t,
            ),
            0 <= spec_count_at_least(roster@, t) <= roster@.len(),
            0 <= spec_count_at_least(roster@.skip(i as int), t) <= roster@.len() - i,
        decreases roster@.len() - i,
    {
        proof {
            assert(roster@.skip(i as int)[0] == roster@[i as int]);
            assert(roster@.skip(i as int).skip(1) =~= roster@.skip(i as int + 1));
            lemma_count_at_least_bound(roster@.skip(i as int + 1), t);
        }
        if roster[i].tier.rank_u8() >= t.rank_u8() {
            cnt = cnt + 1;
        }
        i = i + 1;
    }
    proof {
        assert(roster@.skip(roster@.len() as int) =~= Seq::<PlayerEntry>::empty());
    }
    cnt
}

/// Records a change in the running list, replacing any change with the same
/// key.
fn insert_change(changes: &mut Vec<TierChange>, c: TierChange)
    ensures
        change_views(final(changes)@) == spec_insert_change(change_views(old(changes)@), c@),
{
    let mut j: usize = 0;
    while j < changes.len()
        invariant
            0 <= j <= changes@.len(),
            forall|m: int| 0 <= m < j ==> !change_key_eq(change_views(changes@)[m], c@),
            changes@ == old(changes)@,
        decreases changes@.len() - j,
    {
        let same = str_eq(changes[j].name.as_str(), c.name.as_str()) && str_eq(
            changes[j].team.as_str(),
            c.team.as_str(),
        ) && changes[j].group == c.group;
        if same {
            proof {
                lemma_insert_change_at(change_views(changes@), c@, j as int);
            }
            changes.set(j, c);
            proof {
                assert(change_views(changes@) =~= change_views(old(changes)@).update(
                    j as int,
                    c@,
                ));
            }
            return ;
        }
        j = j + 1;
    }
    proof {
        lemma_insert_change_append(change_views(changes@), c@);
    }
    changes.push(c);
    proof {
        assert(change_views(changes@) =~= change_views(old(changes)@).push(c@));
    }
}

/// When the first `p` changes miss the key and change `p` matches it, the
/// recorded list is the old list with position `p` overwritten.
proof fn lemma_insert_change_at(s: Seq<ChangeView>, c: ChangeView, p: int)
    requires
        0 <= p < s.len(),
        forall|m: int| 0 <= m < p ==> !change_key_eq(#[trigger] s[m], c),
        change_key_eq(s[p], c),
    ensures
        spec_insert_change(s, c) == s.update(p, c),
    decreases p,
{
    if p == 0 {
        assert(seq![c] + s.skip(1) =~= s.update(0, c));
    } else {
        lemma_insert_change_at(s.skip(1), c, p - 1);
        assert(seq![s[0]] + s.skip(1).update(p - 1, c) =~= s.update(p, c));
    }
}

/// When no change matches the key, the recorded list is the old list with
/// the change appended.
proof fn lemma_insert_change_append(s: Seq<ChangeView>, c: ChangeView)
    requires
        forall|m: int| 0 <= m < s.len() ==> !change_key_eq(#[trigger] s[m], c),
    ensures
        spec_insert_change(s, c) == s.push(c),
    decreases s.len(),
{
    if s.len() == 0 {
        assert(seq![c] =~= s.push(c));
    } else {
        lemma_insert_change_append(s.skip(1), c);
        assert(seq![s[0]] + s.skip(1).push(c) =~= s.push(c));
    }
}

/// A sequence of vector indices, as mathematical integers.
pub open spec fn idxs(s: Seq<usize>) -> Seq<int> {
    s.map_values(|x: usize| x as int)
}

/// Collects the promotion candidates of a boundary pass: the first `k`
/// entries, front to back, holding tier `from` and not yet upgraded.
fn select_promotions(
    roster: &Vec<PlayerEntry>,
    from: Tier,
    upgraded: &Vec<String>,
    k: usize,
) -> (sel: Vec<usize>)
    ensures
        idxs(sel@) == spec_promote_sel(roster@, from, name_set(upgraded@), k as nat, 0),
        forall|m: int| 0 <= m < sel@.len() ==> #[trigger] sel@[m] < roster@.len(),
{
    let ghost upg = name_set(upgraded@);
    let mut sel: Vec<usize> = Vec::new();
    let mut i: usize = 0;
    proof {
        assert(idxs(sel@) =~= Seq::<int>::empty());
    }
    while i < roster.len() && sel.len() < k
        invariant
            upg == name_set(upgraded@),
            0 <= i <= roster@.len(),
            sel@.len() <= k,
            spec_promote_sel(roster@, from, upg, k as nat, 0) == idxs(sel@) + spec_promote_sel(
                roster@,
                from,
                upg,
                (k - sel@.len()) as nat,
                i as nat,
            ),
            forall|m: int| 0 <= m < sel@.len() ==> #[trigger] sel@[m] < roster@.len(),
        decreases roster@.len() - i,
    {
        let ghost kk = (k - sel@.len()) as nat;
        let ghost ii = i as nat;
        proof {
            assert(kk >= 1);
            assert(ii < roster@.len());
        }
        let tier_ok = roster[i].tier == from;
        proof {
            assert(tier_ok == (roster@[ii as int].tier == from));
        }
        let upg_ok = !contains_name(upgraded, &roster[i].name);
        proof {
            assert(upg_ok == !upg.contains(roster@[ii as int].name@));
        }
        let eligible = tier_ok && upg_ok;
        if eligible {
            proof {
                assert(roster@[ii as int].tier == from && !upg.contains(roster@[ii as int].name@));
                assert(spec_promote_sel(roster@, from, upg, kk, ii) == seq![ii as int]
                    + spec_promote_sel(roster@, from, upg, (kk - 1) as nat, ii + 1));
                assert(idxs(sel@.push(i)) =~= idxs(sel@) + seq![ii as int]);
                assert((idxs(sel@) + seq![ii as int]) + spec_promote_sel(
                    roster@,
                    from,
                    upg,
                    (kk - 1) as nat,
                    ii + 1,
                ) =~= idxs(sel@) + (seq![ii as int] + spec_promote_sel(
                    roster@,
                    from,
                    upg,
                    (kk - 1) as nat,
                    ii + 1,
                )));
            }
            sel.push(i);
            proof {
                assert((k - sel@.len()) as nat == (kk - 1) as nat);
            }
        } else {
            proof {
                assert(!(roster@[ii as int].tier == from && !upg.contains(
                    roster@[ii as int].name@,
                )));
                assert(spec_promote_sel(roster@, from, upg, kk, ii) == spec_promote_sel(
                    roster@,
                    from,
                    upg,
                    kk,
                    ii + 1,
                ));
            }
        }
        i = i + 1;
        proof {
            assert(i as nat == ii + 1);
        }
    }
    proof {
        assert(spec_promote_sel(roster@, from, upg, (k - sel@.len()) as nat, i as nat)
            =~= Seq::<int>::empty());
        assert(idxs(sel@) + Seq::<int>::empty() =~= idxs(sel@));
    }
    sel
}

/// Collects the demotion candidates of a boundary pass: the last `k`
/// entries, back to front, holding tier `at` and not protected.
fn select_demotions(
    roster: &Vec<PlayerEntry>,
    at: Tier,
    protected: &Vec<String>,
    k: usize,
) -> (sel: Vec<usize>)
    ensures
        idxs(sel@) == spec_demote_sel(roster@, at, name_set(protected@), k as nat, roster@.len() as nat),
        forall|m: int| 0 <= m < sel@.len() ==> #[trigger] sel@[m] < roster@.len(),
{
    let ghost prot = name_set(protected@);
    let mut sel: Vec<usize> = Vec::new();
    let mut i: usize = roster.len();
    proof {
        assert(idxs(sel@) =~= Seq::<int>::empty());
    }
    while i > 0 && sel.len() < k
        invariant
            prot == name_set(protected@),
            0 <= i <= roster@.len(),
            sel@.len() <= k,
            spec_demote_sel(roster@, at, prot, k as nat, roster@.len() as nat) == idxs(sel@)
                + spec_demote_sel(roster@, at, prot, (k - sel@.len()) as nat, i as nat),
            forall|m: int| 0 <= m < sel@.len() ==> #[trigger] sel@[m] < roster@.len(),
        decreases i,
    {
        let ghost kk = (k - sel@.len()) as nat;
        let ghost ii = i as nat;
        proof {
            assert(kk >= 1);
            assert(1 <= ii <= roster@.len());
        }
        let eligible = roster[i - 1].tier == at && !contains_name(protected, &roster[i - 1].name);
        if eligible {
            proof {
                assert(roster@[ii - 1].tier == at && !prot.contains(roster@[ii - 1].name@));
                assert(spec_demote_sel(roster@, at, prot, kk, ii) == seq![ii - 1]
                    + spec_demote_sel(roster@, at, prot, (kk - 1) as nat, (ii - 1) as nat));
                assert(idxs(sel@.push((i - 1) as usize)) =~= idxs(sel@) + seq![ii - 1]);
                assert((idxs(sel@) + seq![ii - 1]) + spec_demote_sel(
                    roster@,
                    at,
                    prot,
                    (kk - 1) as nat,
                    (ii - 1) as nat,
                ) =~= idxs(sel@) + (seq![ii - 1] + spec_demote_sel(
                    roster@,
                    at,
                    prot,
                    (kk - 1) as nat,
                    (ii - 1) as nat,
                )));
            }
            sel.push(i - 1);
            proof {
                assert((k - sel@.len()) as nat == (kk - 1) as nat);
            }
        } else {
            proof {
                assert(!(roster@[ii - 1].tier == at && !prot.contains(roster@[ii - 1].name@)));
                assert(spec_demote_sel(roster@, at, prot, kk, ii) == spec_demote_sel(
                    roster@,
                    at,
                    prot,
                    kk,
                    (ii - 1) as nat,
                ));
            }
        }
        i = i - 1;
        proof {
            assert(i as nat == (ii - 1) as nat);
        }
    }
    proof {
        assert(spec_demote_sel(roster@, at, prot, (k - sel@.len()) as nat, i as nat)
            =~= Seq::<int>::empty());
        assert(idxs(sel@) + Seq::<int>::empty() =~= idxs(sel@));
    }
    sel
}

/// Marks each selected entry protected and upgraded and records its
/// promotion.
fn apply_promotions(
    st: &mut RebalanceState,
    roster: &Vec<PlayerEntry>,
    sel: &Vec<usize>,
    group: PositionGroup,
    boundary: Tier,
)
    requires
        forall|m: int| 0 <= m < sel@.len() ==> #[trigger] sel@[m] < roster@.len(),
    ensures
        final(st)@ == spec_apply_promotions(old(st)@, roster@, idxs(sel@), group, boundary),
{
    let mut j: usize = 0;
    proof {
        assert(idxs(sel@).skip(0) =~= idxs(sel@));
    }
    while j < sel.len()
        invariant
            0 <= j <= sel@.len(),
            forall|m: int| 0 <= m < sel@.len() ==> #[trigger] sel@[m] < roster@.len(),
            spec_apply_promotions(old(st)@, roster@, idxs(sel@), group, boundary)
                == spec_apply_promotions(st@, roster@, idxs(sel@).skip(j as int), group, boundary),
        decreases sel@.len() - j,
    {
        let ghost pre = st@;
        let ghost tail = idxs(sel@).skip(j as int);
        proof {
            assert(tail[0] == sel@[j as int] as int);
            assert(tail.skip(1) =~= idxs(sel@).skip(j as int + 1));
        }
        let e_idx = sel[j];
        let change = TierChange {
            name: roster[e_idx].name.clone(),
            team: roster[e_idx].team.clone(),
            group,
            old_tier: boundary.below(),
            new_tier: boundary,
        };
        add_name(&mut st.protected, &roster[e_idx].name);
        add_name(&mut st.upgraded, &roster[e_idx].name);
        insert_change(&mut st.changes, change);
        proof {
            let e = roster@[sel@[j as int] as int]@;
            assert(st@.protected == pre.protected.insert(e.name));
            assert(st@.upgraded == pre.upgraded.insert(e.name));
            assert(st@.changes == spec_insert_change(pre.changes, promotion_change(e, group, boundary)));
            assert(spec_apply_promotions(pre, roster@, tail, group, boundary)
                == spec_apply_promotions(st@, roster@, tail.skip(1), group, boundary));
        }
        j = j + 1;
    }
    proof {
        assert(idxs(sel@).skip(sel@.len() as int) =~= Seq::<int>::empty());
    }
}

/// Marks each selected entry protected and records its demotion.
fn apply_demotions(
    st: &mut RebalanceState,
    roster: &Vec<PlayerEntry>,
    sel: &Vec<usize>,
    group: PositionGroup,
    boundary: Tier,
)
    requires
        forall|m: int| 0 <= m < sel@.len() ==> #[trigger] sel@[m] < roster@.len(),
    ensures
        final(st)@ == spec_apply_demotions(old(st)@, roster@, idxs(sel@), group, boundary),
{
    let mut j: usize = 0;
    proof {
        assert(idxs(sel@).skip(0) =~= idxs(sel@));
    }
    while j < sel.len()
        invariant
            0 <= j <= sel@.len(),
            forall|m: int| 0 <= m < sel@.len() ==> #[trigger] sel@[m] < roster@.len(),
            spec_apply_demotions(old(st)@, roster@, idxs(sel@), group, boundary)
                == spec_apply_demotions(st@, roster@, idxs(sel@).skip(j as int), group, boundary),
        decreases sel@.len() - j,
    {
        let ghost pre = st@;
        let ghost tail = idxs(sel@).skip(j as int);
        proof {
            assert(tail[0] == sel@[j as int] as int);
            assert(tail.skip(1) =~= idxs(sel@).skip(j as int + 1));
        }
        let e_idx = sel[j];
        let change = TierChange {
            name: roster[e_idx].name.clone(),
            team: roster[e_idx].team.clone(),
            group,
            old_tier: boundary,
            new_tier: boundary.below(),
        };
        add_name(&mut st.protected, &roster[e_idx].name);
        insert_change(&mut st.changes, change);
        proof {
            let e = roster@[sel@[j as int] as int]@;
            assert(st@.protected == pre.protected.insert(e.name));
            assert(st@.upgraded == pre.upgraded);
            assert(st@.changes == spec_insert_change(pre.changes, demotion_change(e, group, boundary)));
            assert(spec_apply_demotions(pre, roster@, tail, group, boundary)
                == spec_apply_demotions(st@, roster@, tail.skip(1), group, boundary));
        }
        j = j + 1;
    }
    proof {
        assert(idxs(sel@).skip(sel@.len() as int) =~= Seq::<int>::empty());
    }
}

/// Runs one boundary pass over a sorted roster.
pub fn process_boundary(
    st: &mut RebalanceState,
    roster: &Vec<PlayerEntry>,
    boundary: Tier,
    min: u32,
    max: u32,
    group: PositionGroup,
)
    ensures
        final(st)@ == spec_boundary_step(
            old(st)@,
            roster@,
            boundary,
            min as int,
            max as int,
            group,
        ),
{
    let cnt = count_at_least(roster, boundary);
    if (cnt as u64) < (min as u64) {
        let k = (min as u64 - cnt as u64) as usize;
        let sel = select_promotions(roster, boundary.below(), &st.upgraded, k);
        apply_promotions(st, roster, &sel, group, boundary);
    } else if (cnt as u64) > (max as u64) {
        let k = cnt - (max as usize);
        let sel = select_demotions(roster, boundary, &st.protected, k);
        apply_demotions(st, roster, &sel, group, boundary);
    }
}

/// Rebalances one position group: the three boundary passes in fixed
/// top-down order over the score-sorted roster.
pub fn rebalance_group(
    st: &mut RebalanceState,
    roster: &Vec<PlayerEntry>,
    limits: GroupLimits,
    group: PositionGroup,
)
    ensures
        final(st)@ == spec_rebalance_group(old(st)@, roster@, limits, group),
{
    process_boundary(st, roster, Tier::TopTier, limits.top_min, limits.top_max, group);
    process_boundary(st, roster, Tier::UpperMid, limits.upper_min, limits.upper_max, group);
    process_boundary(st, roster, Tier::LowerMid, limits.lower_min, limits.lower_max, group);
}

} // verus!
