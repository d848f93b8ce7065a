//! How the university cut relates to plain group filling: over the same
//! candidates, arranged by university rank, the two report the same tie and
//! confirm the same candidates.
use vstd::prelude::*;
use vstd::multiset::Multiset;
use crate::fill::{fill_pair, fill_spec, is_boundary, is_group_at, values_of, group_step, GroupStep, TieBoundary};
use crate::merge::{
    advance, best_rank, concat_all, group_items, group_size, has_head, head, left_len, merge_run, prefixes, run_len,
    start_pos, take_len, total_len, valid_pos, MergeCand,
};

verus! {

/// The candidates of `s` ranked above `r` in the university (rank below `r`), in order.
pub open spec fn lows(s: Seq<MergeCand>, r: int) -> Seq<MergeCand>
    decreases s.len(),
{
    if s.len() == 0 {
        Seq::empty()
    } else {
        let p = lows(s.drop_last(), r);
        if s.last().univ_rank < r {
            p.push(s.last())
        } else {
            p
        }
    }
}

proof fn lemma_lows_concat(a: Seq<MergeCand>, b: Seq<MergeCand>, r: int)
    ensures
        lows(a + b, r) == lows(a, r) + lows(b, r),
    decreases b.len(),
{
    if b.len() == 0 {
        assert(a + b =~= a);
        assert(lows(a, r) + lows(b, r) =~= lows(a, r));
    } else {
        lemma_lows_concat(a, b.drop_last(), r);
        assert((a + b).drop_last() =~= a + b.drop_last());
        assert((a + b).last() == b.last());
        if b.last().univ_rank < r {
            assert(lows(a, r) + lows(b, r) =~= (lows(a, r) + lows(b.drop_last(), r)).push(b.last()));
        }
    }
}

proof fn lemma_lows_split(s: Seq<MergeCand>, p: int, r: int)
    requires
        0 <= p <= s.len(),
        forall|k: int| 0 <= k < s.len() ==> (k < p <==> #[trigger] s[k].univ_rank < r),
    ensures
        lows(s, r) == s.take(p),
    decreases s.len(),
{
    if s.len() > 0 {
        let d = s.drop_last();
        if p == s.len() {
            lemma_lows_split(d, p - 1, r);
            assert(d.take(p - 1) =~= d);
            assert(s.take(p) =~= d.push(s.last()));
        } else {
            lemma_lows_split(d, p, r);
            assert(d.take(p) =~= s.take(p));
        }
    } else {
        assert(s.take(p) =~= Seq::<MergeCand>::empty());
    }
}

/// Ordered by university rank.
pub open spec fn univ_sorted(s: Seq<MergeCand>) -> bool {
    forall|i: int, j: int| 0 <= i <= j < s.len() ==> s[i].univ_rank <= s[j].univ_rank
}

proof fn lemma_sorted_split(s: Seq<MergeCand>, r: int)
    requires
        univ_sorted(s),
    ensures
        lows(s, r) == s.take(lows(s, r).len() as int),
        lows(s, r).len() <= s.len(),
        forall|k: int| 0 <= k < s.len() ==> (k < lows(s, r).len() <==> #[trigger] s[k].univ_rank < r),
    decreases s.len(),
{
    if s.len() > 0 {
        let d = s.drop_last();
        assert(univ_sorted(d));
        lemma_sorted_split(d, r);
        let p = lows(d, r).len() as int;
        if s.last().univ_rank < r {
            assert forall|k: int| 0 <= k < s.len() implies (k < lows(s, r).len() <==> #[trigger] s[k].univ_rank < r) by {
                if k < d.len() {
                    assert(s[k] == d[k]);
                    assert(s[k].univ_rank <= s[s.len() - 1].univ_rank);
                }
            }
            assert(p == d.len()) by {
                if p < d.len() {
                    assert(d[p].univ_rank <= s[s.len() - 1].univ_rank);
                    assert(s[p] == d[p]);
                }
            }
            assert(d.take(p) =~= d);
            assert(s.take(p + 1) =~= d.push(s.last()));
        } else {
            assert forall|k: int| 0 <= k < s.len() implies (k < lows(s, r).len() <==> #[trigger] s[k].univ_rank < r) by {
                if k < d.len() {
                    assert(s[k] == d[k]);
                }
            }
            assert(d.take(p) =~= s.take(p));
        }
    }
}

proof fn lemma_lows_perm(a: Seq<MergeCand>, b: Seq<MergeCand>, r: int)
    requires
        a.to_multiset() == b.to_multiset(),
    ensures
        lows(a, r).to_multiset() == lows(b, r).to_multiset(),
    decreases a.len(),
{
    broadcast use vstd::multiset::group_multiset_axioms;
    broadcast use vstd::seq_lib::group_to_multiset_ensures;
    broadcast use vstd::seq_lib::lemma_multiset_commutative;

    if a.len() == 0 {
        assert(b.len() == 0) by {
            vstd::seq_lib::to_multiset_len(a);
            vstd::seq_lib::to_multiset_len(b);
        }
        assert(a =~= b);
    } else {
        let x = a.last();
        let a0 = a.drop_last();
        assert(a =~= a0.push(x));
        vstd::seq_lib::to_multiset_build(a0, x);
        vstd::seq_lib::to_multiset_contains(b, x);
        assert(b.to_multiset().count(x) > 0);
        assert(b.contains(x));
        let k = choose|k: int| 0 <= k < b.len() && b[k] == x;
        let b0 = b.remove(k);
        vstd::seq_lib::to_multiset_remove(b, k);
        assert(b0.to_multiset() =~= a0.to_multiset());
        lemma_lows_perm(a0, b0, r);
        let t = b.take(k);
        let u = b.skip(k + 1);
        assert(b =~= t + seq![x] + u);
        assert(b0 =~= t + u);
        lemma_lows_concat(t + seq![x], u, r);
        lemma_lows_concat(t, seq![x], r);
        lemma_lows_concat(t, u, r);
        assert(seq![x].drop_last() =~= Seq::<MergeCand>::empty());
        assert(seq![x].last() == x);
        assert(lows(Seq::<MergeCand>::empty(), r) == Seq::<MergeCand>::empty());
        assert(lows(seq![x], r) == if x.univ_rank < r {
            lows(seq![x].drop_last(), r).push(x)
        } else {
            lows(seq![x].drop_last(), r)
        });
        let lx = lows(seq![x], r);
        assert(lows(b, r) == lows(t, r) + lx + lows(u, r));
        assert(lows(b0, r) == lows(t, r) + lows(u, r));
        assert((lows(t, r) + lx + lows(u, r)).to_multiset() =~= lows(t, r).to_multiset().add(lx.to_multiset()).add(
            lows(u, r).to_multiset(),
        ));
        assert((lows(t, r) + lows(u, r)).to_multiset() =~= lows(t, r).to_multiset().add(lows(u, r).to_multiset()));
        if x.univ_rank < r {
            assert(lx =~= seq![x]);
            assert(lows(a, r) =~= lows(a0, r).push(x));
            vstd::seq_lib::to_multiset_build(lows(a0, r), x);
            assert(seq![x].to_multiset() =~= Multiset::singleton(x)) by {
                assert(seq![x] =~= Seq::<MergeCand>::empty().push(x));
                vstd::seq_lib::to_multiset_build(Seq::<MergeCand>::empty(), x);
            }
        } else {
            assert(lx =~= Seq::<MergeCand>::empty());
            assert(lows(a, r) =~= lows(a0, r));
        }
    }
}

/// Candidates of equal university rank have equal track rank, and the reverse.
pub open spec fn ranks_agree(s: Seq<MergeCand>) -> bool {
    forall|i: int, j: int|
        0 <= i < s.len() && 0 <= j < s.len() ==> (s[i].univ_rank == s[j].univ_rank <==> s[i].track_rank == s[j].track_rank)
}

/// Every track is ordered by university rank, with ranks that agree.
pub open spec fn lists_ok(tracks: Seq<Seq<MergeCand>>) -> bool {
    forall|t: int| 0 <= t < tracks.len() ==> univ_sorted(#[trigger] tracks[t]) && ranks_agree(tracks[t])
}

/// Every track's candidates before its position rank above `m`, the others not.
pub open spec fn split_at(tracks: Seq<Seq<MergeCand>>, pos: Seq<int>, m: int) -> bool {
    forall|t: int, k: int|
        0 <= t < tracks.len() && 0 <= k < tracks[t].len() ==> (k < pos[t] <==> #[trigger] tracks[t][k].univ_rank < m)
}

proof fn lemma_prefixes_lows(tracks: Seq<Seq<MergeCand>>, pos: Seq<int>, n: int, r: int)
    requires
        valid_pos(tracks, pos),
        split_at(tracks, pos, r),
        0 <= n <= tracks.len(),
    ensures
        prefixes(tracks, pos, n) == lows(concat_all(tracks, n), r).to_multiset(),
    decreases n,
{
    broadcast use vstd::multiset::group_multiset_axioms;
    broadcast use vstd::seq_lib::lemma_multiset_commutative;
    broadcast use vstd::seq_lib::group_to_multiset_ensures;

    if n == 0 {
        assert(lows(concat_all(tracks, n), r) =~= Seq::<MergeCand>::empty());
        vstd::seq_lib::lemma_multiset_commutative(Seq::<MergeCand>::empty(), Seq::<MergeCand>::empty());
        assert(Seq::<MergeCand>::empty().to_multiset() =~= Multiset::<MergeCand>::empty());
    } else {
        lemma_prefixes_lows(tracks, pos, n - 1, r);
        let l = tracks[n - 1];
        assert forall|k: int| 0 <= k < l.len() implies (k < pos[n - 1] <==> #[trigger] l[k].univ_rank < r) by {
            assert(l[k] == tracks[n - 1][k]);
        }
        lemma_lows_split(l, pos[n - 1], r);
        lemma_lows_concat(concat_all(tracks, n - 1), l, r);
        assert((lows(concat_all(tracks, n - 1), r) + lows(l, r)).to_multiset() =~= lows(concat_all(tracks, n - 1), r).to_multiset().add(
            lows(l, r).to_multiset(),
        ));
    }
}

proof fn lemma_run_exact(list: Seq<MergeCand>, q: int, r: i64, tr: i64, p2: int)
    requires
        0 <= q <= p2 <= list.len(),
        forall|k: int| q <= k < p2 ==> #[trigger] list[k].univ_rank == r && list[k].track_rank == tr,
        p2 == list.len() || list[p2].univ_rank != r,
    ensures
        run_len(list, q, r, tr) == p2 - q,
    decreases p2 - q,
{
    if q < p2 {
        assert(list[q].univ_rank == r && list[q].track_rank == tr);
        lemma_run_exact(list, q + 1, r, tr, p2);
    } else if q < list.len() {
        assert(list[q].univ_rank != r);
    }
}

proof fn lemma_take_len(tracks: Seq<Seq<MergeCand>>, pos: Seq<int>, r: i64, t: int)
    requires
        lists_ok(tracks),
        valid_pos(tracks, pos),
        split_at(tracks, pos, r as int),
        0 <= t < tracks.len(),
    ensures
        take_len(tracks, pos, r, t) == lows(tracks[t], r + 1).len() - pos[t],
        lows(tracks[t], r as int).len() == pos[t],
        pos[t] <= lows(tracks[t], r + 1).len() <= tracks[t].len(),
        forall|k: int| 0 <= k < tracks[t].len() ==> (k < lows(tracks[t], r + 1).len() <==> #[trigger] tracks[t][k].univ_rank < r + 1),
{
    let l = tracks[t];
    let p = pos[t];
    assert(univ_sorted(l) && ranks_agree(l));
    lemma_sorted_split(l, r + 1);
    let p2 = lows(l, r + 1).len() as int;
    assert forall|k: int| 0 <= k < l.len() implies (k < p <==> #[trigger] l[k].univ_rank < r) by {
        assert(l[k] == tracks[t][k]);
    }
    lemma_lows_split(l, p, r as int);
    assert(p <= p2) by {
        if p2 < p {
            assert(l[p2].univ_rank < r);
        }
    }
    if p < p2 {
        assert(has_head(tracks, pos, t));
        let tr = l[p].track_rank;
        assert(head(tracks, pos, t) == l[p]);
        assert(l[p].univ_rank == r);
        assert forall|k: int| p <= k < p2 implies #[trigger] l[k].univ_rank == r && l[k].track_rank == tr by {
            assert(l[k].univ_rank < r + 1);
            assert(!(l[k].univ_rank < r));
        }
        if p2 < l.len() {
            assert(!(l[p2].univ_rank < r + 1));
        }
        lemma_run_exact(l, p, r, tr, p2);
    } else {
        if has_head(tracks, pos, t) {
            assert(head(tracks, pos, t) == l[p]);
            assert(!(l[p].univ_rank < r + 1));
        }
    }
}

proof fn lemma_group_count(tracks: Seq<Seq<MergeCand>>, pos: Seq<int>, r: i64, n: int)
    requires
        lists_ok(tracks),
        valid_pos(tracks, pos),
        split_at(tracks, pos, r as int),
        0 <= n <= tracks.len(),
    ensures
        group_size(tracks, pos, r, n) == lows(concat_all(tracks, n), r + 1).len() - lows(concat_all(tracks, n), r as int).len(),
    decreases n,
{
    if n == 0 {
        assert(lows(concat_all(tracks, n), r + 1) =~= Seq::<MergeCand>::empty());
        assert(lows(concat_all(tracks, n), r as int) =~= Seq::<MergeCand>::empty());
    } else {
        lemma_group_count(tracks, pos, r, n - 1);
        lemma_take_len(tracks, pos, r, n - 1);
        lemma_lows_concat(concat_all(tracks, n - 1), tracks[n - 1], r + 1);
        lemma_lows_concat(concat_all(tracks, n - 1), tracks[n - 1], r as int);
    }
}

proof fn lemma_best_min(tracks: Seq<Seq<MergeCand>>, pos: Seq<int>, n: int)
    requires
        0 <= n <= tracks.len(),
        valid_pos(tracks, pos),
    ensures
        best_rank(tracks, pos, n) matches Some(r) ==> forall|t: int|
            0 <= t < n && has_head(tracks, pos, t) ==> r <= #[trigger] head(tracks, pos, t).univ_rank,
    decreases n,
{
    if n > 0 {
        lemma_best_min(tracks, pos, n - 1);
        crate::merge::lemma_best_attained(tracks, pos, n - 1);
    }
}

proof fn lemma_resplit(tracks: Seq<Seq<MergeCand>>, pos: Seq<int>, m: int, r: i64)
    requires
        lists_ok(tracks),
        valid_pos(tracks, pos),
        split_at(tracks, pos, m),
        best_rank(tracks, pos, tracks.len() as int) == Some(r),
    ensures
        split_at(tracks, pos, r as int),
{
    let n = tracks.len() as int;
    crate::merge::lemma_best_attained(tracks, pos, n);
    lemma_best_min(tracks, pos, n);
    let t0 = choose|t: int| 0 <= t < n && has_head(tracks, pos, t) && #[trigger] head(tracks, pos, t).univ_rank == r;
    assert(!(tracks[t0][pos[t0]].univ_rank < m));
    assert forall|t: int, k: int| 0 <= t < tracks.len() && 0 <= k < tracks[t].len() implies (k < pos[t]
        <==> #[trigger] tracks[t][k].univ_rank < r) by {
        if k >= pos[t] {
            assert(has_head(tracks, pos, t));
            assert(r <= head(tracks, pos, t).univ_rank);
            assert(univ_sorted(tracks[t]));
            assert(tracks[t][pos[t]].univ_rank <= tracks[t][k].univ_rank);
        } else {
            assert(tracks[t][k].univ_rank < m);
        }
    }
}

/// What the cut gives in terms of the candidates `c`: the candidates ranked
/// above `m` are confirmed; the group of rank `m` either was not reached
/// (everyone confirmed), does not fit in a quota it leaves no free seat in, or
/// straddles the free seats and is the reported tie.
pub open spec fn cut_outcome(c: Seq<MergeCand>, rem: int, m: int, res: (Seq<MergeCand>, Option<TieBoundary>, Seq<int>)) -> bool {
    let lo = lows(c, m).len() as int;
    let at = lows(c, m + 1).len() - lo;
    &&& res.0.to_multiset() == lows(c, m).to_multiset()
    &&& (lo <= rem || lo == 0)
    &&& match res.1 {
        None => lo == c.len() || (at > 0 && lo + at > rem && rem <= lo),
        Some(tie) => at > 0 && lo + at > rem && rem > lo && tie.rank == m && tie.free == rem - lo && tie.contenders == at,
    }
}

proof fn lemma_merge_outcome(
    tracks: Seq<Seq<MergeCand>>,
    pos: Seq<int>,
    acc: Seq<MergeCand>,
    rem: int,
    fuel: nat,
    m: int,
)
    requires
        lists_ok(tracks),
        valid_pos(tracks, pos),
        split_at(tracks, pos, m),
        acc.to_multiset() == prefixes(tracks, pos, tracks.len() as int),
        acc.len() <= rem || acc.len() == 0,
        fuel >= left_len(tracks, pos, tracks.len() as int),
        left_len(tracks, pos, tracks.len() as int) <= i64::MAX,
        i64::MIN <= rem <= i64::MAX,
    ensures
        exists|ms: int| #[trigger] cut_outcome(concat_all(tracks, tracks.len() as int), rem, ms, merge_run(tracks, pos, acc, rem, fuel)),
    decreases fuel,
{
    broadcast use vstd::multiset::group_multiset_axioms;
    broadcast use vstd::seq_lib::lemma_multiset_commutative;
    broadcast use vstd::seq_lib::to_multiset_len;

    let n = tracks.len() as int;
    let c = concat_all(tracks, n);
    let res = merge_run(tracks, pos, acc, rem, fuel);
    crate::merge::lemma_best_attained(tracks, pos, n);
    match best_rank(tracks, pos, n) {
        None => {
            let mall: int = i64::MAX as int + 1;
            assert forall|t: int, k: int| 0 <= t < tracks.len() && 0 <= k < tracks[t].len() implies (k < pos[t]
                <==> #[trigger] tracks[t][k].univ_rank < mall) by {
                assert(!has_head(tracks, pos, t));
            }
            lemma_prefixes_lows(tracks, pos, n, mall);
            lemma_lows_split(c, c.len() as int, mall);
            assert(c.take(c.len() as int) =~= c);
            assert(res == (acc, None::<TieBoundary>, pos));
            assert(acc.to_multiset().len() == lows(c, mall).to_multiset().len());
            assert(cut_outcome(c, rem, mall, res));
        },
        Some(r) => {
            let t0 = choose|t: int| 0 <= t < n && has_head(tracks, pos, t) && #[trigger] head(tracks, pos, t).univ_rank == r;
            crate::merge::lemma_left_len_positive(tracks, pos, n, t0);
            lemma_resplit(tracks, pos, m, r);
            lemma_prefixes_lows(tracks, pos, n, r as int);
            lemma_group_count(tracks, pos, r, n);
            let g = group_size(tracks, pos, r, n);
            crate::merge::lemma_group_size_ge(tracks, pos, r, n, t0);
            lemma_take_len(tracks, pos, r, t0);
            crate::merge::lemma_group_items_len(tracks, pos, r, n);
            crate::merge::lemma_left_len_bounds(tracks, advance(tracks, pos, r), n);
            assert(acc.to_multiset().len() == lows(c, r as int).to_multiset().len());
            assert(acc.len() == lows(c, r as int).len());
            assert(g >= 1);
            if acc.len() + g <= rem {
                let np = advance(tracks, pos, r);
                let gi = group_items(tracks, pos, r, n);
                crate::merge::lemma_step_prefixes(tracks, pos, r, n);
                assert((acc + gi).to_multiset() =~= acc.to_multiset().add(gi.to_multiset()));
                assert forall|t: int, k: int| 0 <= t < tracks.len() && 0 <= k < tracks[t].len() implies (k < np[t]
                    <==> #[trigger] tracks[t][k].univ_rank < r + 1) by {
                    lemma_take_len(tracks, pos, r, t);
                }
                lemma_merge_outcome(tracks, np, acc + gi, rem, (fuel - 1) as nat, r + 1);
                assert(res == merge_run(tracks, np, acc + gi, rem, (fuel - 1) as nat));
            } else if rem <= acc.len() {
                assert(res == (acc, None::<TieBoundary>, pos));
                assert(cut_outcome(c, rem, r as int, res));
            } else {
                assert(res.1 == Some(TieBoundary { rank: r, free: (rem - acc.len()) as i64, contenders: g as i64 }));
                assert(cut_outcome(c, rem, r as int, res));
            }
        },
    }
}

/// Each track is ordered by `(track_rank, univ_rank)`, and within a track one
/// candidate has the better track rank exactly when it has the better
/// university rank.
pub open spec fn tracks_consistent(tracks: Seq<Seq<MergeCand>>) -> bool {
    &&& forall|t: int, i: int, j: int|
        0 <= t < tracks.len() && 0 <= i < j < tracks[t].len() ==> (#[trigger] tracks[t][i].track_rank
            < #[trigger] tracks[t][j].track_rank || (tracks[t][i].track_rank == tracks[t][j].track_rank
            && tracks[t][i].univ_rank <= tracks[t][j].univ_rank))
    &&& forall|t: int, i: int, j: int|
        0 <= t < tracks.len() && 0 <= i < tracks[t].len() && 0 <= j < tracks[t].len() ==> (
        #[trigger] tracks[t][i].track_rank < #[trigger] tracks[t][j].track_rank <==> tracks[t][i].univ_rank
            < tracks[t][j].univ_rank)
}

/// The candidates ranked for group filling: sorted by rank, each ranked by its
/// university rank, and all the candidates of the tracks (in any order within a rank).
pub open spec fn ranked_by_univ(tracks: Seq<Seq<MergeCand>>, items: Seq<(i64, MergeCand)>) -> bool {
    &&& forall|i: int, j: int| 0 <= i <= j < items.len() ==> items[i].0 <= items[j].0
    &&& forall|k: int| 0 <= k < items.len() ==> (#[trigger] items[k]).0 == items[k].1.univ_rank
    &&& values_of(items).to_multiset() == concat_all(tracks, tracks.len() as int).to_multiset()
}

proof fn lemma_lists_ok(tracks: Seq<Seq<MergeCand>>)
    requires
        tracks_consistent(tracks),
    ensures
        lists_ok(tracks),
{
    assert forall|t: int| 0 <= t < tracks.len() implies univ_sorted(#[trigger] tracks[t]) && ranks_agree(tracks[t]) by {
        let l = tracks[t];
        assert forall|i: int, j: int| 0 <= i <= j < l.len() implies l[i].univ_rank <= l[j].univ_rank by {
            if i < j {
                assert(tracks[t][i].track_rank < tracks[t][j].track_rank || (tracks[t][i].track_rank
                    == tracks[t][j].track_rank && tracks[t][i].univ_rank <= tracks[t][j].univ_rank));
                assert(tracks[t][i].track_rank < tracks[t][j].track_rank ==> tracks[t][i].univ_rank
                    < tracks[t][j].univ_rank);
            }
        }
        assert forall|i: int, j: int| 0 <= i < l.len() && 0 <= j < l.len() implies (l[i].univ_rank == l[j].univ_rank
            <==> l[i].track_rank == l[j].track_rank) by {
            assert(tracks[t][i].track_rank < tracks[t][j].track_rank <==> tracks[t][i].univ_rank
                < tracks[t][j].univ_rank);
            assert(tracks[t][j].track_rank < tracks[t][i].track_rank <==> tracks[t][j].univ_rank
                < tracks[t][i].univ_rank);
        }
    }
}

/// Law (the university cut is group filling over the university ranking): for
/// tracks ordered by `(track_rank, univ_rank)` whose two ranks agree within a
/// track, the cut against a quota reports the same tie as filling, by groups
/// of equal university rank, all their candidates ordered by university rank
/// (the stable sort of the tracks' candidates is one such order), and it
/// confirms the same candidates, up to their order.
pub proof fn law_univ_cut_is_group_filling(tracks: Seq<Seq<MergeCand>>, items: Seq<(i64, MergeCand)>, rem: i64)
    requires
        total_len(tracks, tracks.len() as int) <= i64::MAX,
        tracks_consistent(tracks),
        ranked_by_univ(tracks, items),
    ensures
        ({
            let res = merge_run(tracks, start_pos(tracks.len()), Seq::empty(), rem as int, total_len(tracks, tracks.len() as int));
            let f = fill_spec(items, Some(rem));
            &&& res.1 == f.1
            &&& res.0.to_multiset() == f.0.to_multiset()
        }),
{
    broadcast use vstd::multiset::group_multiset_axioms;
    broadcast use vstd::seq_lib::to_multiset_len;

    let n = tracks.len() as int;
    let p0 = start_pos(tracks.len());
    let fuel = total_len(tracks, n);
    let res = merge_run(tracks, p0, Seq::empty(), rem as int, fuel);
    let c = concat_all(tracks, n);
    lemma_lists_ok(tracks);
    crate::merge::lemma_prefixes_start(tracks, n);
    crate::merge::lemma_left_len_bounds(tracks, p0, n);
    let mlow: int = i64::MIN as int;
    assert(split_at(tracks, p0, mlow));
    lemma_merge_outcome(tracks, p0, Seq::empty(), rem as int, fuel, mlow);
    let m = choose|ms: int| #[trigger] cut_outcome(c, rem as int, ms, res);
    // The same cut seen in the ranked candidates.
    let vs = values_of(items);
    assert forall|k: int| 0 <= k < vs.len() implies #[trigger] vs[k] == items[k].1 by {}
    assert(univ_sorted(vs)) by {
        assert forall|i: int, j: int| 0 <= i <= j < vs.len() implies vs[i].univ_rank <= vs[j].univ_rank by {
            assert(items[i].0 == items[i].1.univ_rank && items[j].0 == items[j].1.univ_rank);
        }
    }
    lemma_sorted_split(vs, m);
    lemma_sorted_split(vs, m + 1);
    lemma_lows_perm(vs, c, m);
    lemma_lows_perm(vs, c, m + 1);
    assert(lows(vs, m).to_multiset().len() == lows(c, m).to_multiset().len());
    assert(lows(vs, m + 1).to_multiset().len() == lows(c, m + 1).to_multiset().len());
    assert(vs.to_multiset().len() == c.to_multiset().len());
    let cut = lows(vs, m).len() as int;
    let c2 = lows(vs, m + 1).len() as int;
    assert(cut <= c2) by {
        if c2 < cut {
            assert(vs[c2].univ_rank < m);
        }
    }
    assert forall|k: int| cut <= k < c2 implies #[trigger] items[k].0 == m by {
        assert(vs[k].univ_rank < m + 1);
        assert(!(vs[k].univ_rank < m));
    }
    let conf = values_of(items.take(cut));
    assert(conf =~= vs.take(cut));
    assert(is_boundary(items, cut)) by {
        if 0 < cut < items.len() {
            assert(vs[cut - 1].univ_rank < m);
            assert(!(vs[cut].univ_rank < m));
        }
    }
    assert forall|b: int| #[trigger] is_boundary(items, b) && b > cut implies b > rem by {
        if cut < items.len() {
            if b < c2 {
                assert(items[b - 1].0 == m && items[b].0 == m);
            }
        }
    }
    if cut < items.len() && cut < rem {
        let tie = res.1->0;
        assert(res.1 is Some);
        assert(is_group_at(items, cut, tie.contenders as int)) by {
            if c2 < items.len() {
                assert(!(vs[c2].univ_rank < m + 1));
            }
        }
    } else {
        assert(res.1 is None);
    }
    assert(fill_pair(items, rem as int, cut, conf, res.1));
    crate::fill::lemma_fill_spec_is(items, rem, cut, conf, res.1);
}

} // verus!
