//! The university quota cut: a k-way merge of per-track candidate lists that
//! never lets the university cut skip a better-ranked candidate of the same
//! track.
use vstd::prelude::*;
use vstd::multiset::Multiset;
use crate::fill::{decide_group, group_step, FillOutcome, GroupStep, TieBoundary};

verus! {

/// A candidate that passed the per-track phase.
#[derive(Debug, Clone, Copy, PartialEq, Eq, Structural)]
pub struct MergeCand {
    pub student_id: i64,
    pub track_id: i64,
    /// Rank inside the track (track priority flag) — decides the order inside a track.
    pub track_rank: i64,
    /// Rank inside the university (university priority flag) — decides between tracks.
    pub univ_rank: i64,
}

/// The contents of per-track candidate vectors.
pub open spec fn lists_view(lists: Seq<Vec<MergeCand>>) -> Seq<Seq<MergeCand>> {
    lists.map_values(|v: Vec<MergeCand>| v@)
}

/// Track `t` still has a candidate at position `pos[t]`.
pub open spec fn has_head(tracks: Seq<Seq<MergeCand>>, pos: Seq<int>, t: int) -> bool {
    0 <= pos[t] < tracks[t].len()
}

/// The head (next unselected candidate) of track `t`.
pub open spec fn head(tracks: Seq<Seq<MergeCand>>, pos: Seq<int>, t: int) -> MergeCand {
    tracks[t][pos[t]]
}

/// The best (smallest) university rank among the heads of tracks `0..n`.
pub open spec fn best_rank(tracks: Seq<Seq<MergeCand>>, pos: Seq<int>, n: int) -> Option<i64>
    decreases n,
{
    if n <= 0 {
        None
    } else {
        let prev = best_rank(tracks, pos, n - 1);
        if has_head(tracks, pos, n - 1) {
            let u = head(tracks, pos, n - 1).univ_rank;
            match prev {
                None => Some(u),
                Some(b) => if u < b { Some(u) } else { Some(b) },
            }
        } else {
            prev
        }
    }
}

/// The number of consecutive candidates from `p` with university rank `r` and track rank `tr`.
pub open spec fn run_len(list: Seq<MergeCand>, p: int, r: i64, tr: i64) -> nat
    decreases list.len() - p,
{
    if 0 <= p < list.len() && list[p].univ_rank == r && list[p].track_rank == tr {
        1 + run_len(list, p + 1, r, tr)
    } else {
        0
    }
}

/// How many candidates track `t` contributes to the tie group of rank `r`:
/// its head, when the head has rank `r`, together with the following candidates
/// tied with the head both in the university and in the track.
pub open spec fn take_len(tracks: Seq<Seq<MergeCand>>, pos: Seq<int>, r: i64, t: int) -> nat {
    if has_head(tracks, pos, t) && head(tracks, pos, t).univ_rank == r {
        run_len(tracks[t], pos[t], r, head(tracks, pos, t).track_rank)
    } else {
        0
    }
}

/// The size of the tie group of rank `r`, over tracks `0..n`.
pub open spec fn group_size(tracks: Seq<Seq<MergeCand>>, pos: Seq<int>, r: i64, n: int) -> nat
    decreases n,
{
    if n <= 0 {
        0
    } else {
        group_size(tracks, pos, r, n - 1) + take_len(tracks, pos, r, n - 1)
    }
}

/// The members of the tie group of rank `r`, track by track, over tracks `0..n`.
pub open spec fn group_items(tracks: Seq<Seq<MergeCand>>, pos: Seq<int>, r: i64, n: int) -> Seq<MergeCand>
    decreases n,
{
    if n <= 0 {
        Seq::empty()
    } else {
        group_items(tracks, pos, r, n - 1) + tracks[n - 1].subrange(
            pos[n - 1],
            pos[n - 1] + take_len(tracks, pos, r, n - 1),
        )
    }
}

/// The positions after the tie group of rank `r` has been confirmed.
pub open spec fn advance(tracks: Seq<Seq<MergeCand>>, pos: Seq<int>, r: i64) -> Seq<int> {
    Seq::new(pos.len(), |t: int| pos[t] + take_len(tracks, pos, r, t))
}

/// The merge from positions `pos`, with `acc` already confirmed, against the
/// quota `rem`: `(confirmed, tie, final positions)`. `fuel` bounds the number
/// of groups; the total number of candidates always suffices.
pub open spec fn merge_run(
    tracks: Seq<Seq<MergeCand>>,
    pos: Seq<int>,
    acc: Seq<MergeCand>,
    rem: int,
    fuel: nat,
) -> (Seq<MergeCand>, Option<TieBoundary>, Seq<int>)
    decreases fuel,
{
    match best_rank(tracks, pos, tracks.len() as int) {
        None => (acc, None, pos),
        Some(r) => if fuel == 0 {
            (acc, None, pos)
        } else {
            let g = group_size(tracks, pos, r, tracks.len() as int);
            match group_step(acc.len() as int, g as int, rem) {
                GroupStep::Take => merge_run(
                    tracks,
                    advance(tracks, pos, r),
                    acc + group_items(tracks, pos, r, tracks.len() as int),
                    rem,
                    (fuel - 1) as nat,
                ),
                GroupStep::StopClean => (acc, None, pos),
                GroupStep::StopTie { free } => (
                    acc,
                    Some(TieBoundary { rank: r, free, contenders: g as i64 }),
                    pos,
                ),
            }
        },
    }
}

/// The starting positions: nothing selected in any of `n` tracks.
pub open spec fn start_pos(n: nat) -> Seq<int> {
    Seq::new(n, |t: int| 0int)
}

/// The total number of candidates in tracks `0..n`.
pub open spec fn total_len(tracks: Seq<Seq<MergeCand>>, n: int) -> nat
    decreases n,
{
    if n <= 0 {
        0
    } else {
        total_len(tracks, n - 1) + tracks[n - 1].len()
    }
}

/// All candidates of tracks `0..n`, track after track.
pub open spec fn concat_all(tracks: Seq<Seq<MergeCand>>, n: int) -> Seq<MergeCand>
    decreases n,
{
    if n <= 0 {
        Seq::empty()
    } else {
        concat_all(tracks, n - 1) + tracks[n - 1]
    }
}

/// The candidates not yet confirmed in tracks `0..n`.
pub open spec fn left_len(tracks: Seq<Seq<MergeCand>>, pos: Seq<int>, n: int) -> int
    decreases n,
{
    if n <= 0 {
        0
    } else {
        left_len(tracks, pos, n - 1) + (tracks[n - 1].len() - pos[n - 1])
    }
}

/// The positions are within their tracks.
pub open spec fn valid_pos(tracks: Seq<Seq<MergeCand>>, pos: Seq<int>) -> bool {
    &&& pos.len() == tracks.len()
    &&& forall|t: int| 0 <= t < pos.len() ==> 0 <= #[trigger] pos[t] <= tracks[t].len()
}

pub(crate) proof fn lemma_run_len_bound(list: Seq<MergeCand>, p: int, r: i64, tr: i64)
    requires
        0 <= p <= list.len(),
    ensures
        p + run_len(list, p, r, tr) <= list.len(),
        forall|k: int| p <= k < p + run_len(list, p, r, tr) ==> #[trigger] list[k].univ_rank == r && list[k].track_rank == tr,
    decreases list.len() - p,
{
    if 0 <= p < list.len() && list[p].univ_rank == r && list[p].track_rank == tr {
        lemma_run_len_bound(list, p + 1, r, tr);
    }
}

pub(crate) proof fn lemma_best_attained(tracks: Seq<Seq<MergeCand>>, pos: Seq<int>, n: int)
    requires
        0 <= n <= tracks.len(),
        valid_pos(tracks, pos),
    ensures
        best_rank(tracks, pos, n) is None <==> forall|t: int| 0 <= t < n ==> !has_head(tracks, pos, t),
        best_rank(tracks, pos, n) matches Some(r) ==> exists|t: int|
            0 <= t < n && has_head(tracks, pos, t) && #[trigger] head(tracks, pos, t).univ_rank == r,
    decreases n,
{
    if n > 0 {
        lemma_best_attained(tracks, pos, n - 1);
        if has_head(tracks, pos, n - 1) {
            assert(head(tracks, pos, n - 1).univ_rank == head(tracks, pos, n - 1).univ_rank);
        }
    }
}

pub(crate) proof fn lemma_group_size_ge(tracks: Seq<Seq<MergeCand>>, pos: Seq<int>, r: i64, n: int, t: int)
    requires
        0 <= t < n,
    ensures
        group_size(tracks, pos, r, n) >= take_len(tracks, pos, r, t),
    decreases n,
{
    if t < n - 1 {
        lemma_group_size_ge(tracks, pos, r, n - 1, t);
    }
}

pub(crate) proof fn lemma_group_items_len(tracks: Seq<Seq<MergeCand>>, pos: Seq<int>, r: i64, n: int)
    requires
        0 <= n <= tracks.len(),
        valid_pos(tracks, pos),
    ensures
        group_items(tracks, pos, r, n).len() == group_size(tracks, pos, r, n),
        left_len(tracks, advance(tracks, pos, r), n) == left_len(tracks, pos, n) - group_size(tracks, pos, r, n),
        valid_pos(tracks, advance(tracks, pos, r)),
    decreases n,
{
    let np = advance(tracks, pos, r);
    assert forall|t: int| 0 <= t < np.len() implies 0 <= #[trigger] np[t] <= tracks[t].len() by {
        if has_head(tracks, pos, t) && head(tracks, pos, t).univ_rank == r {
            lemma_run_len_bound(tracks[t], pos[t], r, head(tracks, pos, t).track_rank);
        }
    }
    if n > 0 {
        lemma_group_items_len(tracks, pos, r, n - 1);
        let t = n - 1;
        if has_head(tracks, pos, t) && head(tracks, pos, t).univ_rank == r {
            lemma_run_len_bound(tracks[t], pos[t], r, head(tracks, pos, t).track_rank);
        }
    }
}

pub(crate) proof fn lemma_left_len_bounds(tracks: Seq<Seq<MergeCand>>, pos: Seq<int>, n: int)
    requires
        0 <= n <= tracks.len(),
        valid_pos(tracks, pos),
    ensures
        0 <= left_len(tracks, pos, n) <= total_len(tracks, n),
        (forall|t: int| 0 <= t < n ==> pos[t] == 0) ==> left_len(tracks, pos, n) == total_len(tracks, n),
    decreases n,
{
    if n > 0 {
        lemma_left_len_bounds(tracks, pos, n - 1);
    }
}

pub(crate) proof fn lemma_left_len_positive(tracks: Seq<Seq<MergeCand>>, pos: Seq<int>, n: int, t: int)
    requires
        0 <= t < n <= tracks.len(),
        valid_pos(tracks, pos),
        has_head(tracks, pos, t),
    ensures
        left_len(tracks, pos, n) >= 1,
    decreases n,
{
    lemma_left_len_bounds(tracks, pos, n - 1);
    if t < n - 1 {
        lemma_left_len_positive(tracks, pos, n - 1, t);
    }
}

/// **University quota cut — a k-way merge that keeps each track's order.**
///
/// `tracks` holds the per-track candidates that passed the track phase, each in
/// `(track_rank, univ_rank)` order. At every step only the heads of the tracks
/// compete: the tie group is formed by the heads of the best university rank,
/// each together with its followers tied with it both in the university and in
/// the track. Groups are taken atomically against the quota, exactly as in
/// `fill_by_rank_groups`; `None` means no university quota.
pub fn merge_univ_cut(tracks: &[Vec<MergeCand>], remaining: Option<i64>) -> (out: FillOutcome<MergeCand>)
    requires
        total_len(lists_view(tracks@), tracks@.len() as int) <= i64::MAX,
    ensures
        remaining is None ==> out.confirmed@ == concat_all(lists_view(tracks@), tracks@.len() as int) && out.tie is None,
        remaining matches Some(rem) ==> ({
            let res = merge_run(
                lists_view(tracks@),
                start_pos(tracks@.len()),
                Seq::empty(),
                rem as int,
                total_len(lists_view(tracks@), tracks@.len() as int),
            );
            out.confirmed@ == res.0 && out.tie == res.1
        }),
{
    let ghost ts = lists_view(tracks@);
    let ghost nt = tracks@.len() as int;
    let rem = match remaining {
        None => {
            let mut all: Vec<MergeCand> = Vec::new();
            let mut t: usize = 0;
            while t < tracks.len()
                invariant
                    ts == lists_view(tracks@),
                    t <= ts.len(),
                    all@ == concat_all(ts, t as int),
                decreases ts.len() - t,
            {
                let mut k: usize = 0;
                let ghost before = all@;
                while k < tracks[t].len()
                    invariant
                        ts == lists_view(tracks@),
                        t < ts.len(),
                        k <= ts[t as int].len(),
                        before == concat_all(ts, t as int),
                        all@ == before + ts[t as int].take(k as int),
                    decreases ts[t as int].len() - k,
                {
                    all.push(tracks[t][k]);
                    k = k + 1;
                    assert(ts[t as int].take(k as int) =~= ts[t as int].take(k - 1).push(ts[t as int][k - 1]));
                    assert(all@ =~= before + ts[t as int].take(k as int));
                }
                assert(ts[t as int].take(k as int) =~= ts[t as int]);
                t = t + 1;
            }
            return FillOutcome { confirmed: all, tie: None };
        },
        Some(r) => r,
    };

    let mut pos: Vec<usize> = Vec::new();
    let mut t0: usize = 0;
    while t0 < tracks.len()
        invariant
            ts == lists_view(tracks@),
            t0 <= ts.len(),
            pos@.len() == t0,
            forall|t: int| 0 <= t < t0 ==> pos@[t] == 0,
        decreases ts.len() - t0,
    {
        pos.push(0);
        t0 = t0 + 1;
    }
    let ghost gpos: Seq<int> = start_pos(tracks@.len());
    let ghost total = total_len(lists_view(tracks@), tracks@.len() as int);
    let ghost fuel: nat = total;
    let mut confirmed: Vec<MergeCand> = Vec::new();
    proof {
        lemma_left_len_bounds(ts, gpos, nt);
    }
    let ghost target = merge_run(ts, gpos, Seq::empty(), rem as int, total);

    loop
        invariant
            ts == lists_view(tracks@),
            nt == ts.len(),
            remaining == Some(rem),
            total == total_len(ts, nt),
            total <= i64::MAX,
            valid_pos(ts, gpos),
            pos@.len() == nt,
            forall|t: int| 0 <= t < nt ==> pos@[t] as int == #[trigger] gpos[t],
            left_len(ts, gpos, nt) <= fuel,
            confirmed@.len() + left_len(ts, gpos, nt) == total,
            target == merge_run(ts, gpos, confirmed@, rem as int, fuel),
            target == merge_run(lists_view(tracks@), start_pos(tracks@.len()), Seq::empty(), rem as int, total),
        decreases fuel,
    {
        // the best university rank among the heads
        let mut best: Option<i64> = None;
        let mut t: usize = 0;
        while t < tracks.len()
            invariant
                ts == lists_view(tracks@),
                nt == ts.len(),
                t <= nt,
                pos@.len() == nt,
                forall|u: int| 0 <= u < nt ==> pos@[u] as int == #[trigger] gpos[u],
                best == best_rank(ts, gpos, t as int),
                gpos.len() == nt,
            decreases nt - t,
        {
            let p = pos[t];
            if p < tracks[t].len() {
                let u = tracks[t][p].univ_rank;
                match best {
                    None => { best = Some(u); },
                    Some(b) => if u < b { best = Some(u); },
                }
            }
            t = t + 1;
        }
        proof {
            lemma_best_attained(ts, gpos, nt);
        }
        let r = match best {
            None => {
                let out = FillOutcome { confirmed, tie: None };
                assert(remaining->0 == rem);
                return out;
            },
            Some(r) => r,
        };
        let ghost tw = choose|tw: int| 0 <= tw < nt && has_head(ts, gpos, tw) && #[trigger] head(ts, gpos, tw).univ_rank == r;
        proof {
            lemma_left_len_positive(ts, gpos, nt, tw);
        }

        // how many candidates each track contributes to the tie group
        let mut takes: Vec<usize> = Vec::new();
        let mut group_len: i64 = 0;
        let mut t: usize = 0;
        while t < tracks.len()
            invariant
                ts == lists_view(tracks@),
                nt == ts.len(),
                t <= nt,
                pos@.len() == nt,
                valid_pos(ts, gpos),
                forall|u: int| 0 <= u < nt ==> pos@[u] as int == #[trigger] gpos[u],
                takes@.len() == t,
                forall|u: int| 0 <= u < t ==> takes@[u] as int == #[trigger] take_len(ts, gpos, r, u),
                group_len == group_size(ts, gpos, r, t as int),
                group_size(ts, gpos, r, t as int) <= left_len(ts, gpos, t as int),
                left_len(ts, gpos, nt) <= total,
                total <= i64::MAX,
            decreases nt - t,
        {
            proof {
                lemma_left_len_bounds(ts, gpos, t as int + 1);
                lemma_left_len_mono(ts, gpos, t as int + 1, nt);
            }
            let p = pos[t];
            let list = &tracks[t];
            let len = list.len();
            let mut n: usize = 0;
            if p < len && list[p].univ_rank == r {
                let tr = list[p].track_rank;
                while p + n < len && list[p + n].univ_rank == r && list[p + n].track_rank == tr
                    invariant
                        ts == lists_view(tracks@),
                        nt == ts.len(),
                        gpos.len() == nt,
                        len == list@.len(),
                        t < nt,
                        list@ == ts[t as int],
                        p as int == gpos[t as int],
                        p < list@.len(),
                        p + n <= list@.len(),
                        tr == list@[p as int].track_rank,
                        run_len(list@, p as int, r, tr) == n + run_len(list@, p + n, r, tr),
                    decreases list@.len() - p - n,
                {
                    n = n + 1;
                }
                assert(run_len(list@, p + n, r, tr) == 0);
            }
            proof {
                lemma_run_len_bound(ts[t as int], gpos[t as int], r, head(ts, gpos, t as int).track_rank);
                assert(n as int == take_len(ts, gpos, r, t as int));
            }
            takes.push(n);
            group_len = group_len + n as i64;
            t = t + 1;
        }

        proof {
            lemma_group_items_len(ts, gpos, r, nt);
            lemma_group_size_ge(ts, gpos, r, nt, tw);
            assert(take_len(ts, gpos, r, tw) >= 1);
            assert(group_len >= 1);
        }
        let step = decide_group(confirmed.len() as i64, group_len, rem);
        match step {
            GroupStep::Take => {
                let ghost np = advance(ts, gpos, r);
                let ghost before = confirmed@;
                let mut t: usize = 0;
                while t < tracks.len()
                    invariant
                        ts == lists_view(tracks@),
                        nt == ts.len(),
                        t <= nt,
                        pos@.len() == nt,
                        takes@.len() == nt,
                        valid_pos(ts, gpos),
                        valid_pos(ts, np),
                        np == advance(ts, gpos, r),
                        forall|u: int| 0 <= u < nt ==> #[trigger] np[u] == gpos[u] + take_len(ts, gpos, r, u),
                        forall|u: int| 0 <= u < nt ==> takes@[u] as int == #[trigger] take_len(ts, gpos, r, u),
                        forall|u: int| 0 <= u < t ==> pos@[u] as int == #[trigger] np[u],
                        forall|u: int| t <= u < nt ==> pos@[u] as int == #[trigger] gpos[u],
                        confirmed@ == before + group_items(ts, gpos, r, t as int),
                    decreases nt - t,
                {
                    let p = pos[t];
                    let n = takes[t];
                    let len = tracks[t].len();
                    let mut k: usize = 0;
                    let ghost mid = confirmed@;
                    assert(np[t as int] == gpos[t as int] + take_len(ts, gpos, r, t as int));
                    while k < n
                        invariant
                            ts == lists_view(tracks@),
                            nt == ts.len(),
                            gpos.len() == nt,
                            len == ts[t as int].len(),
                            t < nt,
                            p as int == gpos[t as int],
                            n as int == take_len(ts, gpos, r, t as int),
                            p + n <= ts[t as int].len(),
                            k <= n,
                            confirmed@ == mid + ts[t as int].subrange(p as int, p + k),
                        decreases n - k,
                    {
                        confirmed.push(tracks[t][p + k]);
                        k = k + 1;
                        assert(ts[t as int].subrange(p as int, p + k) =~= ts[t as int].subrange(p as int, p + k - 1).push(ts[t as int][p + k - 1]));
                    }
                    pos.set(t, p + n);
                    t = t + 1;
                    assert(group_items(ts, gpos, r, t as int) == group_items(ts, gpos, r, t - 1) + ts[t - 1].subrange(gpos[t - 1], gpos[t - 1] + take_len(ts, gpos, r, t - 1)));
                }
                proof {
                    gpos = np;
                    fuel = (fuel - 1) as nat;
                }
            },
            GroupStep::StopClean => {
                let out = FillOutcome { confirmed, tie: None };
                assert(remaining->0 == rem);
                return out;
            },
            GroupStep::StopTie { free } => {
                let out = FillOutcome {
                    confirmed,
                    tie: Some(TieBoundary { rank: r, free, contenders: group_len }),
                };
                assert(remaining->0 == rem);
                return out;
            },
        }
    }
}

/// The candidates of tracks `0..n` that precede their positions, as a multiset.
pub open spec fn prefixes(tracks: Seq<Seq<MergeCand>>, pos: Seq<int>, n: int) -> Multiset<MergeCand>
    decreases n,
{
    if n <= 0 {
        Multiset::empty()
    } else {
        prefixes(tracks, pos, n - 1).add(tracks[n - 1].take(pos[n - 1]).to_multiset())
    }
}

pub(crate) proof fn lemma_step_prefixes(tracks: Seq<Seq<MergeCand>>, pos: Seq<int>, r: i64, n: int)
    requires
        0 <= n <= tracks.len(),
        valid_pos(tracks, pos),
    ensures
        prefixes(tracks, advance(tracks, pos, r), n) =~= prefixes(tracks, pos, n).add(
            group_items(tracks, pos, r, n).to_multiset(),
        ),
    decreases n,
{
    broadcast use vstd::multiset::group_multiset_axioms;
    broadcast use vstd::seq_lib::lemma_multiset_commutative;
    broadcast use vstd::seq_lib::group_to_multiset_ensures;

    lemma_group_items_len(tracks, pos, r, n);
    if n == 0 {
        assert(group_items(tracks, pos, r, n) =~= Seq::<MergeCand>::empty());
    }
    if n > 0 {
        lemma_step_prefixes(tracks, pos, r, n - 1);
        let t = n - 1;
        let np = advance(tracks, pos, r);
        let list = tracks[t];
        assert(np[t] == pos[t] + take_len(tracks, pos, r, t));
        let sub = list.subrange(pos[t], np[t]);
        assert(list.take(np[t]) =~= list.take(pos[t]) + sub);
        assert((list.take(pos[t]) + sub).to_multiset() =~= list.take(pos[t]).to_multiset().add(sub.to_multiset()));
        let gi = group_items(tracks, pos, r, n - 1);
        assert((gi + sub).to_multiset() =~= gi.to_multiset().add(sub.to_multiset()));
    }
}

proof fn lemma_merge_run_shape(
    tracks: Seq<Seq<MergeCand>>,
    pos: Seq<int>,
    acc: Seq<MergeCand>,
    rem: int,
    fuel: nat,
)
    requires
        valid_pos(tracks, pos),
        acc.to_multiset() == prefixes(tracks, pos, tracks.len() as int),
        acc.len() <= rem || acc.len() == 0,
        left_len(tracks, pos, tracks.len() as int) <= i64::MAX,
    ensures
        ({
            let res = merge_run(tracks, pos, acc, rem, fuel);
            &&& valid_pos(tracks, res.2)
            &&& res.0.to_multiset() == prefixes(tracks, res.2, tracks.len() as int)
            &&& (res.0.len() <= rem || res.0.len() == 0)
            &&& (res.1 matches Some(t) ==> 0 < t.free < t.contenders)
        }),
    decreases fuel,
{
    broadcast use vstd::multiset::group_multiset_axioms;
    broadcast use vstd::seq_lib::lemma_multiset_commutative;

    let n = tracks.len() as int;
    match best_rank(tracks, pos, n) {
        None => {},
        Some(r) => {
            if fuel > 0 {
                let g = group_size(tracks, pos, r, n);
                lemma_group_items_len(tracks, pos, r, n);
                lemma_left_len_bounds(tracks, advance(tracks, pos, r), n);
                if acc.len() + g <= rem {
                    lemma_step_prefixes(tracks, pos, r, n);
                    let gi = group_items(tracks, pos, r, n);
                    assert((acc + gi).to_multiset() =~= acc.to_multiset().add(gi.to_multiset()));
                    lemma_merge_run_shape(tracks, advance(tracks, pos, r), acc + gi, rem, (fuel - 1) as nat);
                }
            }
        },
    }
}

/// Law (the university cut never skips within a track): the confirmed
/// candidates are exactly, as a multiset, a prefix of every track's list;
/// a finite quota is never exceeded; a reported tie has fewer free seats than
/// contenders.
pub proof fn law_merge_keeps_track_order(tracks: Seq<Seq<MergeCand>>, rem: int)
    requires
        total_len(tracks, tracks.len() as int) <= i64::MAX,
    ensures
        ({
            let res = merge_run(tracks, start_pos(tracks.len()), Seq::empty(), rem, total_len(tracks, tracks.len() as int));
            &&& valid_pos(tracks, res.2)
            &&& res.0.to_multiset() == prefixes(tracks, res.2, tracks.len() as int)
            &&& (rem >= 0 ==> res.0.len() <= rem)
            &&& (res.1 matches Some(t) ==> 0 < t.free < t.contenders)
            &&& res.0.to_multiset().subset_of(concat_all(tracks, tracks.len() as int).to_multiset())
        }),
{
    let p0 = start_pos(tracks.len());
    lemma_prefixes_start(tracks, tracks.len() as int);
    lemma_left_len_bounds(tracks, p0, tracks.len() as int);
    lemma_merge_run_shape(tracks, p0, Seq::empty(), rem, total_len(tracks, tracks.len() as int));
    let res = merge_run(tracks, p0, Seq::empty(), rem, total_len(tracks, tracks.len() as int));
    lemma_prefixes_within(tracks, res.2, tracks.len() as int);
}

proof fn lemma_prefixes_within(tracks: Seq<Seq<MergeCand>>, pos: Seq<int>, n: int)
    requires
        valid_pos(tracks, pos),
        0 <= n <= tracks.len(),
    ensures
        prefixes(tracks, pos, n).subset_of(concat_all(tracks, n).to_multiset()),
    decreases n,
{
    broadcast use vstd::multiset::group_multiset_axioms;
    broadcast use vstd::seq_lib::lemma_multiset_commutative;

    if n > 0 {
        lemma_prefixes_within(tracks, pos, n - 1);
        let l = tracks[n - 1];
        let p = pos[n - 1];
        assert(l =~= l.take(p) + l.skip(p));
        assert((l.take(p) + l.skip(p)).to_multiset() =~= l.take(p).to_multiset().add(l.skip(p).to_multiset()));
        assert((concat_all(tracks, n - 1) + l).to_multiset() =~= concat_all(tracks, n - 1).to_multiset().add(
            l.to_multiset(),
        ));
    }
}

pub(crate) proof fn lemma_prefixes_start(tracks: Seq<Seq<MergeCand>>, n: int)
    requires
        0 <= n <= tracks.len(),
    ensures
        prefixes(tracks, start_pos(tracks.len()), n) =~= Multiset::<MergeCand>::empty(),
        Seq::<MergeCand>::empty().to_multiset() =~= Multiset::<MergeCand>::empty(),
    decreases n,
{
    broadcast use vstd::multiset::group_multiset_axioms;
    broadcast use vstd::seq_lib::group_to_multiset_ensures;

    if n > 0 {
        lemma_prefixes_start(tracks, n - 1);
        assert(tracks[n - 1].take(0) =~= Seq::<MergeCand>::empty());
    }
}

proof fn lemma_left_len_mono(tracks: Seq<Seq<MergeCand>>, pos: Seq<int>, m: int, n: int)
    requires
        0 <= m <= n <= tracks.len(),
        valid_pos(tracks, pos),
    ensures
        left_len(tracks, pos, m) <= left_len(tracks, pos, n),
    decreases n - m,
{
    if m < n {
        lemma_left_len_mono(tracks, pos, m, n - 1);
    }
}

} // verus!
