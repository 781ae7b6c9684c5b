//! Sorting a candidate roster into the deterministic score order.
//!
//! An insertion sort, specified functionally: the result is exactly the
//! sequence built by inserting each entry, in input order, at the first place
//! where it precedes-or-ties the entry already there. Because the order
//! breaks score ties by the entries' input indices, the result is sorted,
//! stable and unique.

use crate::roster::PlayerEntry;
use crate::roster::entries_wf;
use crate::roster::entry_le;
use crate::roster::entry_le_exec;
use crate::roster::lemma_entry_le_total;
use crate::roster::lemma_entry_le_trans;
use crate::score::score_wf;
use vstd::prelude::*;

verus! {

/// Inserts `x` into a sorted sequence, before the first entry that `x`
/// precedes or ties.
pub open spec fn spec_insert_entry(s: Seq<PlayerEntry>, x: PlayerEntry) -> Seq<PlayerEntry>
    decreases s.len(),
{
    if s.len() == 0 {
        seq![x]
    } else if entry_le(x@, s[0]@) {
        seq![x] + s
    } else {
        seq![s[0]] + spec_insert_entry(s.skip(1), x)
    }
}

/// The roster sorted by insertion, taking entries in input order.
pub open spec fn spec_sort_entries(s: Seq<PlayerEntry>) -> Seq<PlayerEntry>
    decreases s.len(),
{
    if s.len() == 0 {
        Seq::empty()
    } else {
        spec_insert_entry(spec_sort_entries(s.drop_last()), s.last())
    }
}

/// A sequence is sorted by the roster order.
pub open spec fn entries_sorted(s: Seq<PlayerEntry>) -> bool {
    forall|i: int, j: int| 0 <= i < j < s.len() ==> entry_le(#[trigger] s[i]@, #[trigger] s[j]@)
}

/// Inserting keeps the entry multiset: the result holds the old entries and
/// the new one.
proof fn lemma_insert_entry_len(s: Seq<PlayerEntry>, x: PlayerEntry)
    ensures
        spec_insert_entry(s, x).len() == s.len() + 1,
    decreases s.len(),
{
    if s.len() > 0 && !entry_le(x@, s[0]@) {
        lemma_insert_entry_len(s.skip(1), x);
    }
}

/// Every entry of an insertion result is the inserted entry or one of the
/// old ones.
proof fn lemma_insert_entry_from(s: Seq<PlayerEntry>, x: PlayerEntry, i: int)
    requires
        0 <= i < spec_insert_entry(s, x).len(),
    ensures
        spec_insert_entry(s, x)[i] == x || exists|j: int|
            0 <= j < s.len() && spec_insert_entry(s, x)[i] == s[j],
    decreases s.len(),
{
    lemma_insert_entry_len(s, x);
    if s.len() == 0 {
    } else if entry_le(x@, s[0]@) {
        if i > 0 {
            assert(spec_insert_entry(s, x)[i] == s[i - 1]);
        }
    } else {
        if i == 0 {
            assert(spec_insert_entry(s, x)[0] == s[0]);
        } else {
            lemma_insert_entry_from(s.skip(1), x, i - 1);
            assert(spec_insert_entry(s, x)[i] == spec_insert_entry(s.skip(1), x)[i - 1]);
            if spec_insert_entry(s.skip(1), x)[i - 1] != x {
                let j = choose|j: int|
                    0 <= j < s.skip(1).len() && spec_insert_entry(s.skip(1), x)[i - 1] == s.skip(
                        1,
                    )[j];
                assert(s.skip(1)[j] == s[j + 1]);
            }
        }
    }
}

/// Inserting into a sorted, well-formed sequence keeps it sorted.
proof fn lemma_insert_entry_sorted(s: Seq<PlayerEntry>, x: PlayerEntry)
    requires
        entries_sorted(s),
        entries_wf(s),
        score_wf(x.score),
    ensures
        entries_sorted(spec_insert_entry(s, x)),
        entries_wf(spec_insert_entry(s, x)),
    decreases s.len(),
{
    lemma_insert_entry_len(s, x);
    let r = spec_insert_entry(s, x);
    if s.len() == 0 {
    } else if entry_le(x@, s[0]@) {
        assert forall|i: int, j: int| 0 <= i < j < r.len() implies entry_le(r[i]@, r[j]@) by {
            if i == 0 {
                if j == 1 {
                    assert(r[j] == s[0]);
                } else {
                    assert(r[j] == s[j - 1]);
                    lemma_entry_le_trans(x@, s[0]@, s[j - 1]@);
                }
            } else {
                assert(r[i] == s[i - 1] && r[j] == s[j - 1]);
            }
        }
    } else {
        assert(entries_sorted(s.skip(1))) by {
            assert(forall|i: int, j: int|
                0 <= i < j < s.skip(1).len() ==> s.skip(1)[i] == s[i + 1] && s.skip(1)[j] == s[j
                    + 1]);
        }
        assert(entries_wf(s.skip(1)));
        lemma_insert_entry_sorted(s.skip(1), x);
        let t = spec_insert_entry(s.skip(1), x);
        assert(r == seq![s[0]] + t);
        assert forall|i: int, j: int| 0 <= i < j < r.len() implies entry_le(r[i]@, r[j]@) by {
            if i == 0 {
                assert(r[j] == t[j - 1]);
                lemma_insert_entry_from(s.skip(1), x, j - 1);
                if t[j - 1] == x {
                    lemma_entry_le_total(s[0]@, x@);
                } else {
                    let m = choose|m: int| 0 <= m < s.skip(1).len() && t[j - 1] == s.skip(1)[m];
                    assert(s.skip(1)[m] == s[m + 1]);
                    assert(entry_le(s[0]@, s[m + 1]@));
                }
            } else {
                assert(r[i] == t[i - 1] && r[j] == t[j - 1]);
            }
        }
        assert forall|i: int| 0 <= i < r.len() implies score_wf(#[trigger] r[i].score) by {
            if i > 0 {
                assert(r[i] == t[i - 1]);
            } else {
                assert(r[0] == s[0]);
            }
        }
    }
}

/// The sorted roster is sorted and keeps well-formed scores.
pub proof fn lemma_sort_entries_sorted(s: Seq<PlayerEntry>)
    requires
        entries_wf(s),
    ensures
        entries_sorted(spec_sort_entries(s)),
        entries_wf(spec_sort_entries(s)),
        spec_sort_entries(s).len() == s.len(),
    decreases s.len(),
{
    if s.len() > 0 {
        assert(entries_wf(s.drop_last())) by {
            assert(forall|i: int| 0 <= i < s.drop_last().len() ==> s.drop_last()[i] == s[i]);
        }
        lemma_sort_entries_sorted(s.drop_last());
        assert(score_wf(s.last().score));
        lemma_insert_entry_sorted(spec_sort_entries(s.drop_last()), s.last());
        lemma_insert_entry_len(spec_sort_entries(s.drop_last()), s.last());
    }
}

/// Inserting at the first admissible position matches the recursive
/// specification.
proof fn lemma_insert_entry_at(s: Seq<PlayerEntry>, x: PlayerEntry, p: int)
    requires
        0 <= p <= s.len(),
        forall|m: int| 0 <= m < p ==> !entry_le(x@, #[trigger] s[m]@),
        p < s.len() ==> entry_le(x@, s[p]@),
    ensures
        spec_insert_entry(s, x) == s.subrange(0, p) + seq![x] + s.subrange(p, s.len() as int),
    decreases p,
{
    if s.len() == 0 {
        assert(spec_insert_entry(s, x) =~= s.subrange(0, p) + seq![x] + s.subrange(
            p,
            s.len() as int,
        ));
    } else if p == 0 {
        assert(s.subrange(0, 0) + seq![x] + s.subrange(0, s.len() as int) =~= seq![x] + s);
    } else {
        lemma_insert_entry_at(s.skip(1), x, p - 1);
        assert(spec_insert_entry(s, x) == seq![s[0]] + spec_insert_entry(s.skip(1), x));
        assert(s.skip(1).subrange(0, p - 1) =~= s.subrange(1, p));
        assert(s.skip(1).subrange(p - 1, s.skip(1).len() as int) =~= s.subrange(
            p,
            s.len() as int,
        ));
        assert(seq![s[0]] + (s.subrange(1, p) + seq![x] + s.subrange(p, s.len() as int))
            =~= s.subrange(0, p) + seq![x] + s.subrange(p, s.len() as int));
    }
}

/// Sorts a candidate roster into the deterministic score order.
pub fn sort_entries(v: &Vec<PlayerEntry>) -> (r: Vec<PlayerEntry>)
    requires
        entries_wf(v@),
    ensures
        r@ == spec_sort_entries(v@),
        entries_sorted(r@),
        entries_wf(r@),
        r@.len() == v@.len(),
        r@.to_multiset() == v@.to_multiset(),
{
    proof {
        lemma_sort_entries_sorted(v@);
        lemma_sort_entries_multiset(v@);
    }
    let ghost orig = v@;
    let mut r: Vec<PlayerEntry> = Vec::new();
    let n = v.len();
    let mut taken: usize = 0;
    proof {
        assert(orig.subrange(0, 0) =~= Seq::<PlayerEntry>::empty());
    }
    while taken < n
        invariant
            0 <= taken <= n,
            n == orig.len(),
            v@ == orig,
            r@ == spec_sort_entries(orig.subrange(0, taken as int)),
            entries_wf(orig),
        decreases n - taken,
    {
        proof {
            assert(entries_wf(orig.subrange(0, taken as int))) by {
                assert(forall|i: int|
                    0 <= i < taken ==> orig.subrange(0, taken as int)[i] == orig[i]);
            }
            lemma_sort_entries_sorted(orig.subrange(0, taken as int));
        }
        let x = v[taken].clone_entry();
        let mut p: usize = 0;
        while p < r.len() && !entry_le_exec(&x, &r[p])
            invariant
                0 <= p <= r@.len(),
                forall|m: int| 0 <= m < p ==> !entry_le(x@, #[trigger] r@[m]@),
                score_wf(x.score),
                entries_wf(r@),
            decreases r@.len() - p,
        {
            p = p + 1;
        }
        proof {
            lemma_insert_entry_at(r@, x, p as int);
        }
        r.insert(p, x);
        proof {
            assert(orig.subrange(0, taken as int) =~= orig.subrange(0, taken as int + 1).drop_last());
            assert(orig.subrange(0, taken as int + 1).last() == orig[taken as int]);
            assert(r@ =~= spec_sort_entries(orig.subrange(0, taken as int + 1)));
        }
        taken = taken + 1;
    }
    proof {
        assert(orig.subrange(0, n as int) =~= orig);
    }
    r
}

impl PlayerEntry {
    /// Copies an entry field by field.
    pub fn clone_entry(&self) -> (r: PlayerEntry)
        ensures
            r == *self,
    {
        PlayerEntry {
            idx: self.idx,
            name: self.name.clone(),
            team: self.team.clone(),
            tier: self.tier,
            score: self.score,
        }
    }
}

/// Inserting adds exactly the new entry to the sequence's multiset.
proof fn lemma_insert_entry_multiset(s: Seq<PlayerEntry>, x: PlayerEntry)
    ensures
        spec_insert_entry(s, x).to_multiset() =~= s.to_multiset().insert(x),
    decreases s.len(),
{
    broadcast use vstd::seq_lib::group_to_multiset_ensures;

    if s.len() == 0 {
        assert(seq![x] =~= Seq::<PlayerEntry>::empty().push(x));
    } else if entry_le(x@, s[0]@) {
        vstd::seq_lib::lemma_multiset_commutative(seq![x], s);
        assert(seq![x] =~= Seq::<PlayerEntry>::empty().push(x));
        assert(seq![x].to_multiset().add(s.to_multiset()) =~= s.to_multiset().insert(x));
    } else {
        lemma_insert_entry_multiset(s.skip(1), x);
        vstd::seq_lib::lemma_multiset_commutative(seq![s[0]], spec_insert_entry(s.skip(1), x));
        vstd::seq_lib::lemma_multiset_commutative(seq![s[0]], s.skip(1));
        assert(s =~= seq![s[0]] + s.skip(1));
        assert(seq![s[0]].to_multiset().add(s.skip(1).to_multiset().insert(x))
            =~= (seq![s[0]].to_multiset().add(s.skip(1).to_multiset())).insert(x));
    }
}

/// The sorted roster holds exactly the input entries.
pub proof fn lemma_sort_entries_multiset(s: Seq<PlayerEntry>)
    ensures
        spec_sort_entries(s).to_multiset() =~= s.to_multiset(),
    decreases s.len(),
{
    broadcast use vstd::seq_lib::group_to_multiset_ensures;

    if s.len() > 0 {
        lemma_sort_entries_multiset(s.drop_last());
        lemma_insert_entry_multiset(spec_sort_entries(s.drop_last()), s.last());
        assert(s =~= s.drop_last().push(s.last()));
    }
}

} // verus!
