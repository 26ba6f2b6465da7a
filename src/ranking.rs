use crate::model::Entry;
use vstd::prelude::*;

verus! {

/// Scores never increase along the sequence.
pub open spec fn sorted_desc(r: Seq<Entry>) -> bool {
    forall|i: int, j: int| 0 <= i < j < r.len() ==> r[i].0 >= r[j].0
}

/// `r` with `e` placed after every entry whose score is at least `e`'s and
/// before the entries with a lower score: on a descending `r` this is what a
/// stable descending sort of `r.push(e)` gives.
pub open spec fn ranked_insert(r: Seq<Entry>, e: Entry) -> Seq<Entry>
    decreases r.len(),
{
    if r.len() == 0 {
        seq![e]
    } else if r.last().0 >= e.0 {
        r.push(e)
    } else {
        ranked_insert(r.drop_last(), e).push(r.last())
    }
}

/// On a descending sequence, `ranked_insert` splits it at the first entry
/// whose score is below the new one.
pub proof fn lemma_ranked_insert_split(r: Seq<Entry>, e: Entry, k: int)
    requires
        sorted_desc(r),
        0 <= k <= r.len(),
        forall|i: int| 0 <= i < k ==> r[i].0 >= e.0,
        forall|i: int| k <= i < r.len() ==> r[i].0 < e.0,
    ensures
        ranked_insert(r, e) == r.take(k).push(e) + r.skip(k),
    decreases r.len(),
{
    if r.len() == 0 {
        assert(r.take(k).push(e) + r.skip(k) =~= seq![e]);
    } else if r.last().0 >= e.0 {
        assert(k == r.len());
        assert(r.take(k).push(e) + r.skip(k) =~= r.push(e));
    } else {
        let rr = r.drop_last();
        lemma_ranked_insert_split(rr, e, k);
        assert(r.take(k).push(e) + r.skip(k) =~= (rr.take(k).push(e) + rr.skip(k)).push(r.last()));
    }
}

/// Every score in the result is at least any bound met by `e` and by all of `r`.
pub proof fn lemma_ranked_insert_lower(r: Seq<Entry>, e: Entry, b: u64)
    requires
        e.0 >= b,
        forall|i: int| 0 <= i < r.len() ==> r[i].0 >= b,
    ensures
        forall|i: int| 0 <= i < ranked_insert(r, e).len() ==> ranked_insert(r, e)[i].0 >= b,
    decreases r.len(),
{
    if r.len() == 0 {
        assert(ranked_insert(r, e) == seq![e]);
    } else if r.last().0 >= e.0 {
        assert(ranked_insert(r, e) == r.push(e));
    } else {
        let rr = r.drop_last();
        lemma_ranked_insert_lower(rr, e, b);
        assert(r.last() == r[r.len() - 1]);
        assert(ranked_insert(r, e) == ranked_insert(rr, e).push(r.last()));
    }
}

/// The insertion keeps a descending sequence descending, and adds one entry.
pub proof fn lemma_ranked_insert_sorted(r: Seq<Entry>, e: Entry)
    requires
        sorted_desc(r),
    ensures
        sorted_desc(ranked_insert(r, e)),
        ranked_insert(r, e).len() == r.len() + 1,
    decreases r.len(),
{
    if r.len() > 0 && r.last().0 < e.0 {
        let rr = r.drop_last();
        lemma_ranked_insert_sorted(rr, e);
        lemma_ranked_insert_lower(rr, e, r.last().0);
    }
}

/// Places `(score, player)` in `rank` after every entry with a score at least
/// `score`, keeping `rank` in descending order with ties in arrival order.
pub fn insert_ranked(rank: &mut Vec<Entry>, score: u64, player: String)
    requires
        sorted_desc(old(rank)@),
    ensures
        final(rank)@ == ranked_insert(old(rank)@, (score, player)),
        sorted_desc(final(rank)@),
        final(rank)@.len() == old(rank)@.len() + 1,
{
    let mut k: usize = 0;
    while k < rank.len() && rank[k].0 >= score
        invariant
            k <= rank@.len(),
            forall|i: int| 0 <= i < k ==> rank@[i].0 >= score,
        decreases rank@.len() - k,
    {
        k = k + 1;
    }
    proof {
        let r = rank@;
        assert forall|i: int| k <= i < r.len() implies r[i].0 < score by {
            assert(r[k as int].0 < score);
            assert(r[k as int].0 >= r[i].0 || k == i);
        }
        lemma_ranked_insert_split(r, (score, player), k as int);
        lemma_ranked_insert_sorted(r, (score, player));
        assert(r.insert(k as int, (score, player)) =~= r.take(k as int).push((score, player)) + r.skip(k as int));
    }
    rank.insert(k, (score, player));
}

} // verus!
