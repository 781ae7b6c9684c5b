//! Players, scored roster entries and tier changes, with their
//! specification views and the deterministic roster order.

use crate::score::Score;
use crate::score::lemma_score_eq_lt;
use crate::score::lemma_score_eq_trans;
use crate::score::lemma_score_lt_eq;
use crate::score::lemma_score_lt_trans;
use crate::score::score_eq;
use crate::score::score_equal;
use crate::score::score_less;
use crate::score::score_lt;
use crate::score::score_wf;
use crate::position::PositionGroup;
use crate::tier::Tier;
use vstd::prelude::*;

verus! {

/// One player of a roster snapshot.
pub struct Player {
    pub roster_id: u32,
    pub name: String,
    pub team: String,
    /// The raw position label from the roster file.
    pub position: String,
    pub age: u8,
    pub years_pro: u8,
    pub best_overall: u8,
    pub tier: Tier,
    pub retired: bool,
}

/// The specification view of a player.
pub ghost struct PlayerView {
    pub roster_id: u32,
    pub name: Seq<char>,
    pub team: Seq<char>,
    pub position: Seq<char>,
    pub age: u8,
    pub years_pro: u8,
    pub best_overall: u8,
    pub tier: Tier,
    pub retired: bool,
}

impl View for Player {
    type V = PlayerView;

    open spec fn view(&self) -> PlayerView {
        PlayerView {
            roster_id: self.roster_id,
            name: self.name@,
            team: self.team@,
            position: self.position@,
            age: self.age,
            years_pro: self.years_pro,
            best_overall: self.best_overall,
            tier: self.tier,
            retired: self.retired,
        }
    }
}

/// The views of a sequence of players.
pub open spec fn player_views(s: Seq<Player>) -> Seq<PlayerView> {
    s.map_values(|p: Player| p.view())
}

/// A scored entry of one position group's candidate roster.
pub struct PlayerEntry {
    /// The entry's position in the candidate list before sorting; ties in
    /// score keep this order, which makes the roster order deterministic.
    pub idx: usize,
    pub name: String,
    pub team: String,
    pub tier: Tier,
    pub score: Score,
}

/// The specification view of a roster entry.
pub ghost struct EntryView {
    pub idx: int,
    pub name: Seq<char>,
    pub team: Seq<char>,
    pub tier: Tier,
    pub score: Score,
}

impl View for PlayerEntry {
    type V = EntryView;

    open spec fn view(&self) -> EntryView {
        EntryView {
            idx: self.idx as int,
            name: self.name@,
            team: self.team@,
            tier: self.tier,
            score: self.score,
        }
    }
}

/// One proposed tier change: the rebalancer's output unit, keyed by
/// player name, team and position group.
pub struct TierChange {
    pub name: String,
    pub team: String,
    pub group: PositionGroup,
    pub old_tier: Tier,
    pub new_tier: Tier,
}

/// The specification view of a tier change.
pub ghost struct ChangeView {
    pub name: Seq<char>,
    pub team: Seq<char>,
    pub group: PositionGroup,
    pub old_tier: Tier,
    pub new_tier: Tier,
}

impl View for TierChange {
    type V = ChangeView;

    open spec fn view(&self) -> ChangeView {
        ChangeView {
            name: self.name@,
            team: self.team@,
            group: self.group,
            old_tier: self.old_tier,
            new_tier: self.new_tier,
        }
    }
}

/// The views of a sequence of tier changes.
pub open spec fn change_views(s: Seq<TierChange>) -> Seq<ChangeView> {
    s.map_values(|c: TierChange| c.view())
}

/// Two changes share a key when name, team and group all agree.
pub open spec fn change_key_eq(a: ChangeView, b: ChangeView) -> bool {
    a.name == b.name && a.team == b.team && a.group == b.group
}

/// The deterministic roster order: higher scores first; entries with equal
/// scores keep their original relative order.
pub open spec fn entry_le(a: EntryView, b: EntryView) -> bool {
    score_lt(b.score, a.score) || (score_eq(a.score, b.score) && a.idx <= b.idx)
}

/// All entry scores of a sequence are well-formed.
pub open spec fn entries_wf(s: Seq<PlayerEntry>) -> bool {
    forall|i: int| 0 <= i < s.len() ==> score_wf(#[trigger] s[i].score)
}

/// The roster order is total.
pub proof fn lemma_entry_le_total(a: EntryView, b: EntryView)
    requires
        score_wf(a.score),
        score_wf(b.score),
    ensures
        entry_le(a, b) || entry_le(b, a),
{
}

/// The roster order is transitive.
pub proof fn lemma_entry_le_trans(a: EntryView, b: EntryView, c: EntryView)
    requires
        score_wf(a.score),
        score_wf(b.score),
        score_wf(c.score),
        entry_le(a, b),
        entry_le(b, c),
    ensures
        entry_le(a, c),
{
    if score_lt(b.score, a.score) {
        if score_lt(c.score, b.score) {
            lemma_score_lt_trans(c.score, b.score, a.score);
        } else {
            lemma_score_eq_lt(c.score, b.score, a.score);
        }
    } else {
        if score_lt(c.score, b.score) {
            lemma_score_lt_eq(c.score, b.score, a.score);
        } else {
            lemma_score_eq_trans(a.score, b.score, c.score);
        }
    }
}

/// Decides the roster order of two entries.
pub fn entry_le_exec(a: &PlayerEntry, b: &PlayerEntry) -> (r: bool)
    requires
        score_wf(a.score),
        score_wf(b.score),
    ensures
        r == entry_le(a@, b@),
{
    if score_less(&b.score, &a.score) {
        true
    } else {
        score_equal(&a.score, &b.score) && a.idx <= b.idx
    }
}

} // verus!
