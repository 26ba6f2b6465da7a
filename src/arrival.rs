use crate::model::Entry;
use crate::ranking::ranked_insert;
use crate::scoreboard::{replay, Submission};
use vstd::prelude::*;

verus! {

/// The ranking line that submission `i` of `subs` contributes.
pub open spec fn line_of(subs: Seq<Submission>, i: int) -> Entry {
    (subs[i].1, subs[i].0)
}

/// `r` (positions into `subs`) with `j` placed as `ranked_insert` places its entry.
pub open spec fn index_insert(r: Seq<int>, subs: Seq<Submission>, j: int) -> Seq<int>
    decreases r.len(),
{
    if r.len() == 0 {
        seq![j]
    } else if subs[r.last()].1 >= subs[j].1 {
        r.push(j)
    } else {
        index_insert(r.drop_last(), subs, j).push(r.last())
    }
}

/// For each ranking line after the games of `subs`, the submission it came from.
pub open spec fn arrival_order(subs: Seq<Submission>) -> Seq<int>
    decreases subs.len(),
{
    if subs.len() == 0 {
        Seq::empty()
    } else {
        index_insert(arrival_order(subs.drop_last()), subs, subs.len() - 1)
    }
}

/// Of two lines with equal scores, the one from the earlier submission comes first.
pub open spec fn ties_in_arrival_order(r: Seq<int>, subs: Seq<Submission>) -> bool {
    forall|m: int, n: int|
        0 <= m < n < r.len() && #[trigger] subs[r[m]].1 == #[trigger] subs[r[n]].1 ==> r[m] < r[n]
}

proof fn lemma_index_insert_elems(r: Seq<int>, subs: Seq<Submission>, j: int)
    ensures
        index_insert(r, subs, j).len() == r.len() + 1,
        forall|m: int|
            0 <= m < r.len() + 1 ==> index_insert(r, subs, j)[m] == j || r.contains(
                #[trigger] index_insert(r, subs, j)[m],
            ),
    decreases r.len(),
{
    if r.len() == 0 {
    } else if subs[r.last()].1 >= subs[j].1 {
        assert forall|m: int| 0 <= m < r.len() + 1 implies index_insert(r, subs, j)[m] == j
            || r.contains(#[trigger] index_insert(r, subs, j)[m]) by {
            if m < r.len() {
                assert(index_insert(r, subs, j)[m] == r[m]);
            }
        }
    } else {
        let rr = r.drop_last();
        lemma_index_insert_elems(rr, subs, j);
        assert forall|m: int| 0 <= m < r.len() + 1 implies index_insert(r, subs, j)[m] == j
            || r.contains(#[trigger] index_insert(r, subs, j)[m]) by {
            let x = index_insert(r, subs, j)[m];
            if m < r.len() {
                if x != j {
                    let p = choose|p: int| 0 <= p < rr.len() && rr[p] == x;
                    assert(r[p] == x);
                }
            } else {
                assert(r[r.len() - 1] == x);
            }
        }
    }
}

proof fn lemma_index_insert_stable(r: Seq<int>, subs: Seq<Submission>, j: int)
    requires
        ties_in_arrival_order(r, subs),
        forall|m: int| 0 <= m < r.len() ==> r[m] < j,
    ensures
        ties_in_arrival_order(index_insert(r, subs, j), subs),
    decreases r.len(),
{
    if r.len() == 0 {
    } else if subs[r.last()].1 >= subs[j].1 {
    } else {
        let rr = r.drop_last();
        assert forall|m: int, n: int|
            0 <= m < n < rr.len() && #[trigger] subs[rr[m]].1 == #[trigger] subs[rr[n]].1 implies rr[m]
            < rr[n] by {
            assert(rr[m] == r[m] && rr[n] == r[n]);
        }
        lemma_index_insert_stable(rr, subs, j);
        lemma_index_insert_elems(rr, subs, j);
        let s = index_insert(rr, subs, j);
        let t = s.push(r.last());
        assert forall|m: int, n: int|
            0 <= m < n < t.len() && #[trigger] subs[t[m]].1 == #[trigger] subs[t[n]].1 implies t[m]
            < t[n] by {
            if n == s.len() {
                let x = s[m];
                assert(t[m] == x);
                if x != j {
                    assert(rr.contains(x));
                    let p = choose|p: int| 0 <= p < rr.len() && rr[p] == x;
                    assert(r[p] == x);
                    assert(r[r.len() - 1] == r.last());
                }
            } else {
                assert(t[m] == s[m] && t[n] == s[n]);
            }
        }
    }
}

proof fn lemma_arrival_order_range(subs: Seq<Submission>)
    ensures
        arrival_order(subs).len() == subs.len(),
        forall|m: int|
            0 <= m < subs.len() ==> 0 <= #[trigger] arrival_order(subs)[m] < subs.len(),
        ties_in_arrival_order(arrival_order(subs), subs),
    decreases subs.len(),
{
    if subs.len() > 0 {
        let d = subs.drop_last();
        let r = arrival_order(d);
        lemma_arrival_order_range(d);
        lemma_index_insert_elems(r, subs, subs.len() - 1);
        assert forall|m: int, n: int|
            0 <= m < n < r.len() && #[trigger] subs[r[m]].1 == #[trigger] subs[r[n]].1 implies r[m]
            < r[n] by {
            assert(subs[r[m]] == d[r[m]] && subs[r[n]] == d[r[n]]);
        }
        lemma_index_insert_stable(r, subs, subs.len() - 1);
        assert forall|m: int| 0 <= m < subs.len() implies 0 <= #[trigger] arrival_order(subs)[m]
            < subs.len() by {
            let x = arrival_order(subs)[m];
            if x != subs.len() - 1 {
                let p = choose|p: int| 0 <= p < r.len() && r[p] == x;
            }
        }
    }
}

proof fn lemma_lines_commute(r: Seq<int>, subs: Seq<Submission>, j: int)
    requires
        0 <= j < subs.len(),
        forall|m: int| 0 <= m < r.len() ==> 0 <= #[trigger] r[m] < subs.len(),
    ensures
        ranked_insert(r.map_values(|i: int| line_of(subs, i)), line_of(subs, j))
            == index_insert(r, subs, j).map_values(|i: int| line_of(subs, i)),
    decreases r.len(),
{
    let f = |i: int| line_of(subs, i);
    if r.len() == 0 {
        assert(r.map_values(f) =~= Seq::<Entry>::empty());
        assert(seq![j].map_values(f) =~= seq![line_of(subs, j)]);
    } else if subs[r.last()].1 >= subs[j].1 {
        assert(r.map_values(f).last() == line_of(subs, r.last()));
        assert(r.push(j).map_values(f) =~= r.map_values(f).push(line_of(subs, j)));
    } else {
        let rr = r.drop_last();
        lemma_lines_commute(rr, subs, j);
        assert(r.map_values(f).drop_last() =~= rr.map_values(f));
        assert(r.map_values(f).last() == line_of(subs, r.last()));
        assert(index_insert(rr, subs, j).push(r.last()).map_values(f) =~= index_insert(
            rr,
            subs,
            j,
        ).map_values(f).push(line_of(subs, r.last())));
    }
}

/// After any sequence of games, each ranking line is the line of one
/// submission (`arrival_order` says which; each submission gives exactly
/// one line), and lines with equal scores stand in the order in which their
/// games were submitted.
pub proof fn lemma_rank_keeps_arrival_order(creator: Seq<char>, subs: Seq<Submission>)
    ensures
        replay(creator, subs).1 == arrival_order(subs).map_values(|i: int| line_of(subs, i)),
        arrival_order(subs).len() == subs.len(),
        forall|m: int|
            0 <= m < subs.len() ==> 0 <= #[trigger] arrival_order(subs)[m] < subs.len(),
        ties_in_arrival_order(arrival_order(subs), subs),
    decreases subs.len(),
{
    lemma_arrival_order_range(subs);
    if subs.len() == 0 {
        assert(arrival_order(subs).map_values(|i: int| line_of(subs, i)) =~= Seq::<Entry>::empty());
    } else {
        let d = subs.drop_last();
        lemma_rank_keeps_arrival_order(creator, d);
        let r = arrival_order(d);
        assert(r.map_values(|i: int| line_of(d, i)) =~= r.map_values(|i: int| line_of(subs, i)))
            by {
            assert forall|m: int| 0 <= m < r.len() implies line_of(d, r[m]) == line_of(subs, r[m]) by {
                assert(d[r[m]] == subs[r[m]]);
            }
        }
        assert(line_of(subs, subs.len() - 1) == (subs.last().1, subs.last().0));
        lemma_lines_commute(r, subs, subs.len() - 1);
    }
}

} // verus!
