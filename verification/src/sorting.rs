//! A stable sort of ranked candidates by `(track_rank, univ_rank)`.
use vstd::prelude::*;
use crate::merge::MergeCand;

verus! {

/// The sort key order: by track rank, then by university rank.
pub open spec fn key_le(a: MergeCand, b: MergeCand) -> bool {
    a.track_rank < b.track_rank || (a.track_rank == b.track_rank && a.univ_rank <= b.univ_rank)
}

/// Inserts `x` into a sorted sequence after every element whose key is not above its key.
pub open spec fn insert_sorted(s: Seq<(i64, MergeCand)>, x: (i64, MergeCand)) -> Seq<(i64, MergeCand)>
    decreases s.len(),
{
    if s.len() == 0 {
        seq![x]
    } else if key_le(s.last().1, x.1) {
        s.push(x)
    } else {
        insert_sorted(s.drop_last(), x).push(s.last())
    }
}

/// The stable sort of `s` by key (an insertion sort: equal keys keep their order).
pub open spec fn stable_sort(s: Seq<(i64, MergeCand)>) -> Seq<(i64, MergeCand)>
    decreases s.len(),
{
    if s.len() == 0 {
        Seq::empty()
    } else {
        insert_sorted(stable_sort(s.drop_last()), s.last())
    }
}

/// `s` is sorted by key.
pub open spec fn sorted_by_key(s: Seq<(i64, MergeCand)>) -> bool {
    forall|i: int, j: int| 0 <= i <= j < s.len() ==> key_le(s[i].1, s[j].1)
}

/// Sorts ranked candidates stably by `(track_rank, univ_rank)`.
pub fn sort_by_track_then_univ(items: &Vec<(i64, MergeCand)>) -> (r: Vec<(i64, MergeCand)>)
    ensures
        r@ == stable_sort(items@),
        r@.len() == items@.len(),
{
    let mut out: Vec<(i64, MergeCand)> = Vec::new();
    let mut i: usize = 0;
    while i < items.len()
        invariant
            i <= items@.len(),
            out@ == stable_sort(items@.take(i as int)),
        decreases items@.len() - i,
    {
        let x = items[i];
        let mut p: usize = out.len();
        assert(out@.take(p as int) =~= out@);
        assert(out@.skip(p as int) =~= Seq::<(i64, MergeCand)>::empty());
        assert(insert_sorted(out@, x) + Seq::<(i64, MergeCand)>::empty() =~= insert_sorted(out@, x));
        while p > 0 && !(out[p - 1].1.track_rank < x.1.track_rank || (out[p - 1].1.track_rank == x.1.track_rank
            && out[p - 1].1.univ_rank <= x.1.univ_rank))
            invariant
                p <= out@.len(),
                insert_sorted(out@, x) == insert_sorted(out@.take(p as int), x) + out@.skip(p as int),
            decreases p,
        {
            let ghost s = out@.take(p as int);
            assert(s.drop_last() =~= out@.take(p - 1));
            assert(out@.skip(p - 1) =~= seq![s.last()] + out@.skip(p as int));
            assert(insert_sorted(s, x) == insert_sorted(out@.take(p - 1), x).push(s.last()));
            assert(insert_sorted(out@.take(p - 1), x).push(s.last()) + out@.skip(p as int) =~= insert_sorted(
                out@.take(p - 1),
                x,
            ) + out@.skip(p - 1));
            p = p - 1;
        }
        proof {
            if p == 0 {
                assert(out@.take(0) =~= Seq::<(i64, MergeCand)>::empty());
            }
            assert(insert_sorted(out@.take(p as int), x) =~= out@.take(p as int).push(x));
            assert(out@.take(p as int).push(x) + out@.skip(p as int) =~= out@.insert(p as int, x));
            assert(items@.take(i + 1).drop_last() =~= items@.take(i as int));
        }
        out.insert(p, x);
        i = i + 1;
    }
    assert(items@.take(items@.len() as int) =~= items@);
    proof {
        lemma_stable_sort(items@);
    }
    out
}

proof fn lemma_insert_bounded(s: Seq<(i64, MergeCand)>, x: (i64, MergeCand), b: MergeCand)
    requires
        forall|i: int| 0 <= i < s.len() ==> key_le(#[trigger] s[i].1, b),
        key_le(x.1, b),
    ensures
        forall|i: int| 0 <= i < insert_sorted(s, x).len() ==> key_le(#[trigger] insert_sorted(s, x)[i].1, b),
    decreases s.len(),
{
    let r = insert_sorted(s, x);
    if s.len() == 0 {
        assert forall|i: int| 0 <= i < r.len() implies key_le(#[trigger] r[i].1, b) by {
            assert(r[i] == x);
        }
    } else if key_le(s.last().1, x.1) {
        assert(r == s.push(x));
        assert forall|i: int| 0 <= i < r.len() implies key_le(#[trigger] r[i].1, b) by {
            if i < s.len() {
                assert(r[i] == s[i]);
            } else {
                assert(r[i] == x);
            }
        }
    } else {
        let d = s.drop_last();
        assert forall|i: int| 0 <= i < d.len() implies key_le(#[trigger] d[i].1, b) by {
            assert(d[i] == s[i]);
        }
        lemma_insert_bounded(d, x, b);
        let ins = insert_sorted(d, x);
        assert(r == ins.push(s.last()));
        assert forall|i: int| 0 <= i < r.len() implies key_le(#[trigger] r[i].1, b) by {
            if i < ins.len() {
                assert(r[i] == ins[i]);
            } else {
                assert(r[i] == s[s.len() - 1]);
            }
        }
    }
}

proof fn lemma_insert_sorted(s: Seq<(i64, MergeCand)>, x: (i64, MergeCand))
    requires
        sorted_by_key(s),
    ensures
        sorted_by_key(insert_sorted(s, x)),
        insert_sorted(s, x).to_multiset() =~= s.to_multiset().insert(x),
        insert_sorted(s, x).len() == s.len() + 1,
    decreases s.len(),
{
    broadcast use vstd::multiset::group_multiset_axioms;
    broadcast use vstd::seq_lib::group_to_multiset_ensures;

    if s.len() == 0 {
        assert(seq![x] =~= Seq::<(i64, MergeCand)>::empty().push(x));
    } else if key_le(s.last().1, x.1) {
        let r = s.push(x);
        assert forall|i: int, j: int| 0 <= i <= j < r.len() implies key_le(r[i].1, r[j].1) by {
            if j == r.len() - 1 && i < j {
                assert(key_le(s[i].1, s[s.len() - 1].1));
            }
        }
    } else {
        let d = s.drop_last();
        let l = s.last();
        assert(sorted_by_key(d)) by {
            assert forall|i: int, j: int| 0 <= i <= j < d.len() implies key_le(d[i].1, d[j].1) by {
                assert(d[i] == s[i] && d[j] == s[j]);
            }
        }
        lemma_insert_sorted(d, x);
        assert forall|i: int| 0 <= i < d.len() implies key_le(#[trigger] d[i].1, l.1) by {
            assert(d[i] == s[i]);
        }
        lemma_insert_bounded(d, x, l.1);
        let ins = insert_sorted(d, x);
        let r = ins.push(l);
        assert forall|i: int, j: int| 0 <= i <= j < r.len() implies key_le(r[i].1, r[j].1) by {
            if j == r.len() - 1 && i < j {
                assert(key_le(ins[i].1, l.1));
            }
        }
        assert(s =~= d.push(l));
    }
}

proof fn lemma_stable_sort(s: Seq<(i64, MergeCand)>)
    ensures
        sorted_by_key(stable_sort(s)),
        stable_sort(s).to_multiset() =~= s.to_multiset(),
        stable_sort(s).len() == s.len(),
    decreases s.len(),
{
    broadcast use vstd::multiset::group_multiset_axioms;
    broadcast use vstd::seq_lib::group_to_multiset_ensures;

    if s.len() > 0 {
        lemma_stable_sort(s.drop_last());
        lemma_insert_sorted(stable_sort(s.drop_last()), s.last());
        assert(s =~= s.drop_last().push(s.last()));
    }
}

/// Law: the sort orders by `(track_rank, univ_rank)` and only rearranges — the
/// result holds exactly the same candidates.
pub proof fn law_sort_orders_and_keeps(s: Seq<(i64, MergeCand)>)
    ensures
        sorted_by_key(stable_sort(s)),
        stable_sort(s).to_multiset() == s.to_multiset(),
{
    lemma_stable_sort(s);
}

} // verus!
