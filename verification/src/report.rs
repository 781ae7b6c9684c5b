//! Deterministic report ordering.
//!
//! The recorded tier changes are sorted by team name, then by position-group
//! label, then by player name, all lexicographically, so that repeated runs
//! emit the changes in one fixed order. An empty team name sorts first; the
//! consumer prints it as the free-agent section.

use crate::position::spec_group_label;
use crate::roster::ChangeView;
use crate::roster::TierChange;
use crate::text::lemma_lex_lt_connex;
use crate::text::lemma_lex_lt_trans;
use crate::text::lex_lt;
use crate::text::str_eq;
use crate::text::str_less;
use vstd::prelude::*;

verus! {

/// The report order on changes: by team, then group label, then name.
pub open spec fn report_le(a: ChangeView, b: ChangeView) -> bool {
    ||| lex_lt(a.team, b.team)
    ||| (a.team == b.team && (lex_lt(spec_group_label(a.group), spec_group_label(b.group)) || (
    spec_group_label(a.group) == spec_group_label(b.group) && (lex_lt(a.name, b.name) || a.name
        == b.name))))
}

/// The report order is total.
pub proof fn lemma_report_le_total(a: ChangeView, b: ChangeView)
    ensures
        report_le(a, b) || report_le(b, a),
{
    if !lex_lt(a.team, b.team) && !lex_lt(b.team, a.team) {
        lemma_lex_lt_connex(a.team, b.team);
        let ga = spec_group_label(a.group);
        let gb = spec_group_label(b.group);
        if !lex_lt(ga, gb) && !lex_lt(gb, ga) {
            lemma_lex_lt_connex(ga, gb);
            if !lex_lt(a.name, b.name) && !lex_lt(b.name, a.name) {
                lemma_lex_lt_connex(a.name, b.name);
            }
        }
    }
}

/// The report order is transitive.
pub proof fn lemma_report_le_trans(a: ChangeView, b: ChangeView, c: ChangeView)
    requires
        report_le(a, b),
        report_le(b, c),
    ensures
        report_le(a, c),
{
    if lex_lt(a.team, b.team) {
        if lex_lt(b.team, c.team) {
            lemma_lex_lt_trans(a.team, b.team, c.team);
        }
    } else {
        if lex_lt(b.team, c.team) {
        } else {
            let ga = spec_group_label(a.group);
            let gb = spec_group_label(b.group);
            let gc = spec_group_label(c.group);
            if lex_lt(ga, gb) {
                if lex_lt(gb, gc) {
                    lemma_lex_lt_trans(ga, gb, gc);
                }
            } else {
                if lex_lt(gb, gc) {
                } else {
                    if lex_lt(a.name, b.name) && lex_lt(b.name, c.name) {
                        lemma_lex_lt_trans(a.name, b.name, c.name);
                    }
                }
            }
        }
    }
}

/// Inserts a change into a sorted report, before the first change it
/// precedes or ties.
pub open spec fn spec_insert_report(s: Seq<TierChange>, x: TierChange) -> Seq<TierChange>
    decreases s.len(),
{
    if s.len() == 0 {
        seq![x]
    } else if report_le(x@, s[0]@) {
        seq![x] + s
    } else {
        seq![s[0]] + spec_insert_report(s.skip(1), x)
    }
}

/// The report: all changes, sorted by insertion in list order.
pub open spec fn spec_sort_report(s: Seq<TierChange>) -> Seq<TierChange>
    decreases s.len(),
{
    if s.len() == 0 {
        Seq::empty()
    } else {
        spec_insert_report(spec_sort_report(s.drop_last()), s.last())
    }
}

/// A report is sorted by the report order.
pub open spec fn report_sorted(s: Seq<TierChange>) -> bool {
    forall|i: int, j: int| 0 <= i < j < s.len() ==> report_le(#[trigger] s[i]@, #[trigger] s[j]@)
}

proof fn lemma_insert_report_len(s: Seq<TierChange>, x: TierChange)
    ensures
        spec_insert_report(s, x).len() == s.len() + 1,
    decreases s.len(),
{
    if s.len() > 0 && !report_le(x@, s[0]@) {
        lemma_insert_report_len(s.skip(1), x);
    }
}

/// Every change of an insertion result is the inserted change or one of the
/// old ones.
proof fn lemma_insert_report_from(s: Seq<TierChange>, x: TierChange, i: int)
    requires
        0 <= i < spec_insert_report(s, x).len(),
    ensures
        spec_insert_report(s, x)[i] == x || exists|j: int|
            0 <= j < s.len() && spec_insert_report(s, x)[i] == s[j],
    decreases s.len(),
{
    lemma_insert_report_len(s, x);
    if s.len() == 0 {
    } else if report_le(x@, s[0]@) {
        if i > 0 {
            assert(spec_insert_report(s, x)[i] == s[i - 1]);
        }
    } else {
        if i == 0 {
            assert(spec_insert_report(s, x)[0] == s[0]);
        } else {
            lemma_insert_report_from(s.skip(1), x, i - 1);
            assert(spec_insert_report(s, x)[i] == spec_insert_report(s.skip(1), x)[i - 1]);
            if spec_insert_report(s.skip(1), x)[i - 1] != x {
                let j = choose|j: int|
                    0 <= j < s.skip(1).len() && spec_insert_report(s.skip(1), x)[i - 1] == s.skip(
                        1,
                    )[j];
                assert(s.skip(1)[j] == s[j + 1]);
            }
        }
    }
}

/// Inserting into a sorted report keeps it sorted.
proof fn lemma_insert_report_sorted(s: Seq<TierChange>, x: TierChange)
    requires
        report_sorted(s),
    ensures
        report_sorted(spec_insert_report(s, x)),
    decreases s.len(),
{
    lemma_insert_report_len(s, x);
    let r = spec_insert_report(s, x);
    if s.len() == 0 {
    } else if report_le(x@, s[0]@) {
        assert forall|i: int, j: int| 0 <= i < j < r.len() implies report_le(r[i]@, r[j]@) by {
            if i == 0 {
                if j == 1 {
                    assert(r[j] == s[0]);
                } else {
                    assert(r[j] == s[j - 1]);
                    lemma_report_le_trans(x@, s[0]@, s[j - 1]@);
                }
            } else {
                assert(r[i] == s[i - 1] && r[j] == s[j - 1]);
            }
        }
    } else {
        assert(report_sorted(s.skip(1))) by {
            assert(forall|i: int, j: int|
                0 <= i < j < s.skip(1).len() ==> s.skip(1)[i] == s[i + 1] && s.skip(1)[j] == s[j
                    + 1]);
        }
        lemma_insert_report_sorted(s.skip(1), x);
        let t = spec_insert_report(s.skip(1), x);
        assert(r == seq![s[0]] + t);
        assert forall|i: int, j: int| 0 <= i < j < r.len() implies report_le(r[i]@, r[j]@) by {
            if i == 0 {
                assert(r[j] == t[j - 1]);
                lemma_insert_report_from(s.skip(1), x, j - 1);
                if t[j - 1] == x {
                    lemma_report_le_total(s[0]@, x@);
                } else {
                    let m = choose|m: int| 0 <= m < s.skip(1).len() && t[j - 1] == s.skip(1)[m];
                    assert(s.skip(1)[m] == s[m + 1]);
                    assert(report_le(s[0]@, s[m + 1]@));
                }
            } else {
                assert(r[i] == t[i - 1] && r[j] == t[j - 1]);
            }
        }
    }
}

/// The sorted report is sorted, and it has one row per recorded change.
pub proof fn lemma_sort_report_sorted(s: Seq<TierChange>)
    ensures
        report_sorted(spec_sort_report(s)),
        spec_sort_report(s).len() == s.len(),
    decreases s.len(),
{
    if s.len() > 0 {
        lemma_sort_report_sorted(s.drop_last());
        lemma_insert_report_sorted(spec_sort_report(s.drop_last()), s.last());
        lemma_insert_report_len(spec_sort_report(s.drop_last()), s.last());
    }
}

/// Inserting at the first admissible position matches the recursive
/// specification.
proof fn lemma_insert_report_at(s: Seq<TierChange>, x: TierChange, p: int)
    requires
        0 <= p <= s.len(),
        forall|m: int| 0 <= m < p ==> !report_le(x@, #[trigger] s[m]@),
        p < s.len() ==> report_le(x@, s[p]@),
    ensures
        spec_insert_report(s, x) == s.subrange(0, p) + seq![x] + s.subrange(p, s.len() as int),
    decreases p,
{
    if s.len() == 0 {
        assert(spec_insert_report(s, x) =~= s.subrange(0, p) + seq![x] + s.subrange(
            p,
            s.len() as int,
        ));
    } else if p == 0 {
        assert(s.subrange(0, 0) + seq![x] + s.subrange(0, s.len() as int) =~= seq![x] + s);
    } else {
        lemma_insert_report_at(s.skip(1), x, p - 1);
        assert(spec_insert_report(s, x) == seq![s[0]] + spec_insert_report(s.skip(1), x));
        assert(s.skip(1).subrange(0, p - 1) =~= s.subrange(1, p));
        assert(s.skip(1).subrange(p - 1, s.skip(1).len() as int) =~= s.subrange(
            p,
            s.len() as int,
        ));
        assert(seq![s[0]] + (s.subrange(1, p) + seq![x] + s.subrange(p, s.len() as int))
            =~= s.subrange(0, p) + seq![x] + s.subrange(p, s.len() as int));
    }
}

impl TierChange {
    /// Copies a change field by field.
    pub fn clone_change(&self) -> (r: TierChange)
        ensures
            r == *self,
    {
        TierChange {
            name: self.name.clone(),
            team: self.team.clone(),
            group: self.group,
            old_tier: self.old_tier,
            new_tier: self.new_tier,
        }
    }
}

/// Decides the report order of two changes.
fn report_le_exec(a: &TierChange, b: &TierChange) -> (r: bool)
    ensures
        r == report_le(a@, b@),
{
    if str_less(a.team.as_str(), b.team.as_str()) {
        return true;
    }
    if !str_eq(a.team.as_str(), b.team.as_str()) {
        return false;
    }
    let ga = a.group.label();
    let gb = b.group.label();
    if str_less(ga.as_str(), gb.as_str()) {
        return true;
    }
    if !str_eq(ga.as_str(), gb.as_str()) {
        return false;
    }
    str_less(a.name.as_str(), b.name.as_str()) || str_eq(a.name.as_str(), b.name.as_str())
}

/// Sorts the recorded changes into the deterministic report order.
pub fn sort_report(v: &Vec<TierChange>) -> (r: Vec<TierChange>)
    ensures
        r@ == spec_sort_report(v@),
        report_sorted(r@),
        r@.len() == v@.len(),
        r@.to_multiset() == v@.to_multiset(),
{
    proof {
        lemma_sort_report_sorted(v@);
        lemma_sort_report_multiset(v@);
    }
    let ghost orig = v@;
    let mut r: Vec<TierChange> = Vec::new();
    let n = v.len();
    let mut taken: usize = 0;
    proof {
        assert(orig.subrange(0, 0) =~= Seq::<TierChange>::empty());
    }
    while taken < n
        invariant
            0 <= taken <= n,
            n == orig.len(),
            v@ == orig,
            r@ == spec_sort_report(orig.subrange(0, taken as int)),
        decreases n - taken,
    {
        let x = v[taken].clone_change();
        let mut p: usize = 0;
        while p < r.len() && !report_le_exec(&x, &r[p])
            invariant
                0 <= p <= r@.len(),
                forall|m: int| 0 <= m < p ==> !report_le(x@, #[trigger] r@[m]@),
            decreases r@.len() - p,
        {
            p = p + 1;
        }
        proof {
            lemma_insert_report_at(r@, x, p as int);
        }
        r.insert(p, x);
        proof {
            assert(orig.subrange(0, taken as int) =~= orig.subrange(
                0,
                taken as int + 1,
            ).drop_last());
            assert(orig.subrange(0, taken as int + 1).last() == orig[taken as int]);
            assert(r@ =~= spec_sort_report(orig.subrange(0, taken as int + 1)));
        }
        taken = taken + 1;
    }
    proof {
        assert(orig.subrange(0, n as int) =~= orig);
    }
    r
}

/// Inserting adds exactly the new change to the sequence's multiset.
proof fn lemma_insert_report_multiset(s: Seq<TierChange>, x: TierChange)
    ensures
        spec_insert_report(s, x).to_multiset() =~= s.to_multiset().insert(x),
    decreases s.len(),
{
    broadcast use vstd::seq_lib::group_to_multiset_ensures;

    if s.len() == 0 {
        assert(seq![x] =~= Seq::<TierChange>::empty().push(x));
    } else if report_le(x@, s[0]@) {
        vstd::seq_lib::lemma_multiset_commutative(seq![x], s);
        assert(seq![x] =~= Seq::<TierChange>::empty().push(x));
        assert(seq![x].to_multiset().add(s.to_multiset()) =~= s.to_multiset().insert(x));
    } else {
        lemma_insert_report_multiset(s.skip(1), x);
        vstd::seq_lib::lemma_multiset_commutative(seq![s[0]], spec_insert_report(s.skip(1), x));
        vstd::seq_lib::lemma_multiset_commutative(seq![s[0]], s.skip(1));
        assert(s =~= seq![s[0]] + s.skip(1));
        assert(seq![s[0]].to_multiset().add(s.skip(1).to_multiset().insert(x))
            =~= (seq![s[0]].to_multiset().add(s.skip(1).to_multiset())).insert(x));
    }
}

/// The sorted report holds exactly the recorded changes.
pub proof fn lemma_sort_report_multiset(s: Seq<TierChange>)
    ensures
        spec_sort_report(s).to_multiset() =~= s.to_multiset(),
    decreases s.len(),
{
    broadcast use vstd::seq_lib::group_to_multiset_ensures;

    if s.len() > 0 {
        lemma_sort_report_multiset(s.drop_last());
        lemma_insert_report_multiset(spec_sort_report(s.drop_last()), s.last());
        assert(s =~= s.drop_last().push(s.last()));
    }
}

} // verus!
