//! Automatic recommendation of a closed round, in two phases.
//!
//! Phase one fills every track (recruitment unit) up to its own quota by the
//! track ranking; phase two cuts every university down to its overall quota
//! by the university ranking, without ever skipping a better-ranked candidate
//! of the same track. Ties that straddle a quota boundary, and tracks whose
//! candidates lack a university ranking, are reported for a manual decision.
use vstd::prelude::*;
use crate::fill::{fill_by_rank_groups, fill_spec, is_boundary, lemma_fill_spec_prefix, values_of, TieBoundary};
use crate::merge::{concat_all, lists_view, merge_run, merge_univ_cut, start_pos, total_len, MergeCand};
use crate::sorting::{law_sort_orders_and_keeps, sort_by_track_then_univ, sorted_by_key, stable_sort};
use crate::text::{append_str, i64_text, int_text, push_all, string_of};

verus! {

/// One result row of a track in the round, as the database gives it.
#[derive(Debug, Clone, Copy, PartialEq, Eq)]
pub struct CandidateRow {
    pub student_id: i64,
    /// The university-wide ranking (`None` when scores were never ranked).
    pub ranking: Option<i64>,
    /// The ranking inside the track.
    pub track_rank: i64,
    /// Already recommended (`1`) or not (`0`).
    pub recommended: i64,
    /// Excluded from selection (`1`) or not (`0`).
    pub excluded: i64,
}

/// A track that has results in the round, with its quotas and rows.
#[derive(Debug, Clone)]
pub struct TrackInput {
    pub track_id: i64,
    pub univ_id: i64,
    /// The track quota (`None` = unlimited).
    pub unit_quota: Option<i64>,
    /// The university quota (`None` = unlimited).
    pub total_quota: Option<i64>,
    /// Recommendations already counted against the track quota.
    pub used: i64,
    /// The rows in track-rank order.
    pub candidates: Vec<CandidateRow>,
}

/// Why a track or a university needs a manual decision.
#[derive(Debug, Clone, Copy, PartialEq, Eq)]
pub enum ManualReason {
    /// A candidate of the track has no university ranking.
    RankingMissing,
    /// A tie straddles the track quota.
    TrackTie(TieBoundary),
    /// A tie straddles the university quota.
    UnivTie { tie: TieBoundary, quota: i64, used: i64, remaining: i64 },
}

/// A decision left to the administrator.
#[derive(Debug, Clone, Copy, PartialEq, Eq)]
pub struct ManualItem {
    /// The track concerned (`None` for a university-wide tie).
    pub track_id: Option<i64>,
    pub univ_id: i64,
    pub reason: ManualReason,
}

/// The text shown for a manual decision.
pub open spec fn reason_text(r: ManualReason) -> Seq<char> {
    match r {
        ManualReason::RankingMissing => "순위 미계산 — 점수 재계산 필요"@,
        ManualReason::TrackTie(t) => "모집단위 "@ + int_text(t.rank as int) + "위 동점 — 잔여 "@ + int_text(
            t.free as int,
        ) + "석에 "@ + int_text(t.contenders as int) + "명 경합 (관리자 선택 필요)"@,
        ManualReason::UnivTie { tie, quota, used, remaining } => "대학 전체 "@ + int_text(tie.rank as int)
            + "위 동점 — 잔여 "@ + int_text(tie.free as int) + "석에 "@ + int_text(tie.contenders as int)
            + "명 경합 (경합 대상은 각 모집단위의 다음 차례 지원자에 한함 — 같은 모집단위 상위 지원자에게 막힌 동순위자는 제외 / 대학 정원 "@
            + int_text(quota as int) + "명, 확정 "@ + int_text(used as int) + "명, 잔여 "@ + int_text(
            remaining as int,
        ) + "석 / 관리자 선택 필요)"@,
    }
}

impl ManualReason {
    /// The message shown to the administrator.
    pub fn message(&self) -> (m: String)
        ensures
            m@ == reason_text(*self),
    {
        let mut v: Vec<char> = Vec::new();
        match *self {
            ManualReason::RankingMissing => {
                append_str(&mut v, "순위 미계산 — 점수 재계산 필요");
            },
            ManualReason::TrackTie(t) => {
                append_str(&mut v, "모집단위 ");
                push_all(&mut v, &i64_text(t.rank));
                append_str(&mut v, "위 동점 — 잔여 ");
                push_all(&mut v, &i64_text(t.free));
                append_str(&mut v, "석에 ");
                push_all(&mut v, &i64_text(t.contenders));
                append_str(&mut v, "명 경합 (관리자 선택 필요)");
            },
            ManualReason::UnivTie { tie, quota, used, remaining } => {
                append_str(&mut v, "대학 전체 ");
                push_all(&mut v, &i64_text(tie.rank));
                append_str(&mut v, "위 동점 — 잔여 ");
                push_all(&mut v, &i64_text(tie.free));
                append_str(&mut v, "석에 ");
                push_all(&mut v, &i64_text(tie.contenders));
                append_str(
                    &mut v,
                    "명 경합 (경합 대상은 각 모집단위의 다음 차례 지원자에 한함 — 같은 모집단위 상위 지원자에게 막힌 동순위자는 제외 / 대학 정원 ",
                );
                push_all(&mut v, &i64_text(quota));
                append_str(&mut v, "명, 확정 ");
                push_all(&mut v, &i64_text(used));
                append_str(&mut v, "명, 잔여 ");
                push_all(&mut v, &i64_text(remaining));
                append_str(&mut v, "석 / 관리자 선택 필요)");
            },
        }
        assert(v@ =~= reason_text(*self));
        string_of(&v)
    }
}

/// A row still open for automatic selection: neither recommended nor excluded.
pub open spec fn is_eligible(c: CandidateRow) -> bool {
    c.recommended == 0 && c.excluded == 0
}

/// The eligible rows, in their order.
pub open spec fn eligible(cs: Seq<CandidateRow>) -> Seq<CandidateRow>
    decreases cs.len(),
{
    if cs.len() == 0 {
        Seq::empty()
    } else if is_eligible(cs.last()) {
        eligible(cs.drop_last()).push(cs.last())
    } else {
        eligible(cs.drop_last())
    }
}

/// Some row lacks a university ranking.
pub open spec fn missing_ranking(cs: Seq<CandidateRow>) -> bool {
    exists|k: int| 0 <= k < cs.len() && (#[trigger] cs[k]).ranking is None
}

/// The remaining track quota (`None` = unlimited).
pub open spec fn remaining_of(t: TrackInput) -> Option<i64> {
    match t.unit_quota {
        Some(q) => Some((q - t.used) as i64),
        None => None,
    }
}

/// The track has nothing to fill: no eligible row, or no seat left.
pub open spec fn track_skipped(t: TrackInput) -> bool {
    ||| eligible(t.candidates@).len() == 0
    ||| (remaining_of(t) matches Some(r) && r <= 0)
}

/// An eligible row as a ranked merge candidate of track `track_id`.
pub open spec fn ranked(track_id: i64, c: CandidateRow) -> (i64, MergeCand) {
    (
        c.track_rank,
        MergeCand { student_id: c.student_id, track_id, track_rank: c.track_rank, univ_rank: c.ranking->0 },
    )
}

/// The ranked candidates of a track, sorted stably by `(track_rank, univ_rank)`.
pub open spec fn track_items(t: TrackInput) -> Seq<(i64, MergeCand)> {
    stable_sort(eligible(t.candidates@).map_values(|c: CandidateRow| ranked(t.track_id, c)))
}

/// The atomic group filling of a track against its remaining quota.
pub open spec fn track_fill(t: TrackInput) -> (Seq<MergeCand>, Option<TieBoundary>) {
    fill_spec(track_items(t), remaining_of(t))
}

/// The manual decision a track asks for, if any.
pub open spec fn track_manual(t: TrackInput) -> Option<ManualItem> {
    if missing_ranking(eligible(t.candidates@)) {
        Some(ManualItem { track_id: Some(t.track_id), univ_id: t.univ_id, reason: ManualReason::RankingMissing })
    } else if track_skipped(t) {
        None
    } else {
        match track_fill(t).1 {
            Some(tie) => Some(ManualItem { track_id: Some(t.track_id), univ_id: t.univ_id, reason: ManualReason::TrackTie(tie) }),
            None => None,
        }
    }
}

/// The candidates a track confirms in phase one.
pub open spec fn track_confirmed(t: TrackInput) -> Seq<MergeCand> {
    if missing_ranking(eligible(t.candidates@)) || track_skipped(t) {
        Seq::empty()
    } else {
        track_fill(t).0
    }
}

/// The track's quota arithmetic fits in `i64`.
pub open spec fn track_fits(t: TrackInput) -> bool {
    t.unit_quota matches Some(q) ==> i64::MIN <= q - t.used <= i64::MAX
}

proof fn lemma_eligible_members(cs: Seq<CandidateRow>)
    ensures
        forall|i: int| 0 <= i < eligible(cs).len() ==> exists|j: int|
            0 <= j < cs.len() && #[trigger] cs[j] == #[trigger] eligible(cs)[i] && is_eligible(cs[j]),
    decreases cs.len(),
{
    if cs.len() > 0 {
        let d = cs.drop_last();
        lemma_eligible_members(d);
        assert forall|i: int| 0 <= i < eligible(cs).len() implies exists|j: int|
            0 <= j < cs.len() && #[trigger] cs[j] == #[trigger] eligible(cs)[i] && is_eligible(cs[j]) by {
            if i < eligible(d).len() {
                assert(eligible(cs)[i] == eligible(d)[i]);
                let j = choose|j: int| 0 <= j < d.len() && #[trigger] d[j] == #[trigger] eligible(d)[i] && is_eligible(d[j]);
                assert(cs[j] == d[j]);
            } else {
                assert(cs[cs.len() - 1] == eligible(cs)[i]);
            }
        }
    }
}

proof fn lemma_eligible_len(cs: Seq<CandidateRow>)
    ensures
        eligible(cs).len() <= cs.len(),
    decreases cs.len(),
{
    if cs.len() > 0 {
        lemma_eligible_len(cs.drop_last());
    }
}

/// Phase one for one track: the manual decision it asks for, if any, and the
/// candidates it confirms. A track with an unranked eligible row is reported
/// and confirms nobody; a track with no eligible row or no seat left is
/// skipped silently; otherwise its eligible rows, sorted by
/// `(track_rank, univ_rank)`, are filled atomically by groups of equal track
/// rank, and a straddling tie is reported.
pub fn plan_track(t: &TrackInput) -> (r: (Option<ManualItem>, Vec<MergeCand>))
    requires
        track_fits(*t),
        t.candidates@.len() <= i64::MAX,
    ensures
        r.0 == track_manual(*t),
        r.1@ == track_confirmed(*t),
        r.1@.len() <= t.candidates@.len(),
        remaining_of(*t) matches Some(rem) ==> r.1@.len() == 0 || r.1@.len() <= rem,
        t.unit_quota matches Some(q) ==> (t.used <= q ==> t.used + r.1@.len() <= q),
        forall|k: int| 0 <= k < r.1@.len() ==> exists|j: int|
            #![trigger t.candidates@[j]]
            0 <= j < t.candidates@.len() && t.candidates@[j].recommended == 0 && t.candidates@[j].excluded == 0
                && #[trigger] r.1@[k] == ranked(
                t.track_id,
                t.candidates@[j],
            ).1,
{
    let ghost cs = t.candidates@;
    let mut cands: Vec<CandidateRow> = Vec::new();
    let mut missing = false;
    let mut i: usize = 0;
    while i < t.candidates.len()
        invariant
            cs == t.candidates@,
            i <= cs.len(),
            cands@ == eligible(cs.take(i as int)),
            missing <==> missing_ranking(cands@),
        decreases cs.len() - i,
    {
        let c = t.candidates[i];
        assert(cs.take(i + 1).drop_last() =~= cs.take(i as int));
        if c.recommended == 0 && c.excluded == 0 {
            if c.ranking.is_none() {
                missing = true;
                assert(cands@.push(c)[cands@.len() as int] == c);
            }
            proof {
                let nc = cands@.push(c);
                if missing_ranking(nc) {
                    let k = choose|k: int| 0 <= k < nc.len() && (#[trigger] nc[k]).ranking is None;
                    if k < cands@.len() {
                        assert(cands@[k] == nc[k]);
                    }
                }
                if missing_ranking(cands@) {
                    let k = choose|k: int| 0 <= k < cands@.len() && (#[trigger] cands@[k]).ranking is None;
                    assert(nc[k] == cands@[k]);
                }
            }
            cands.push(c);
        }
        i = i + 1;
    }
    assert(cs.take(cs.len() as int) =~= cs);
    proof {
        lemma_eligible_len(cs);
    }
    if missing {
        return (
            Some(ManualItem { track_id: Some(t.track_id), univ_id: t.univ_id, reason: ManualReason::RankingMissing }),
            Vec::new(),
        );
    }
    let remaining: Option<i64> = match t.unit_quota {
        Some(q) => Some(q - t.used),
        None => None,
    };
    let no_seat = match remaining {
        Some(r) => r <= 0,
        None => false,
    };
    if cands.len() == 0 || no_seat {
        return (None, Vec::new());
    }
    let ghost tid = t.track_id;
    let mut items: Vec<(i64, MergeCand)> = Vec::new();
    let mut k: usize = 0;
    while k < cands.len()
        invariant
            k <= cands@.len(),
            tid == t.track_id,
            !missing_ranking(cands@),
            items@.len() == k,
            forall|j: int| 0 <= j < k ==> #[trigger] items@[j] == ranked(tid, cands@[j]),
        decreases cands@.len() - k,
    {
        let c = cands[k];
        let u: i64 = match c.ranking {
            Some(u) => u,
            None => {
                assert(cands@[k as int].ranking is None);
                0
            },
        };
        items.push((
            c.track_rank,
            MergeCand { student_id: c.student_id, track_id: t.track_id, track_rank: c.track_rank, univ_rank: u },
        ));
        k = k + 1;
    }
    assert(items@ =~= cands@.map_values(|c: CandidateRow| ranked(tid, c)));
    let sorted = sort_by_track_then_univ(&items);
    let out = fill_by_rank_groups(sorted.as_slice(), remaining);
    proof {
        broadcast use vstd::seq_lib::group_to_multiset_ensures;

        law_sort_orders_and_keeps(items@);
        lemma_eligible_members(cs);
        let ghost cut: int = match remaining {
            Some(rem) => choose|cut: int| crate::fill::fill_result(sorted@, rem as int, cut, out),
            None => sorted@.len() as int,
        };
        assert(out.confirmed@ == values_of(sorted@.take(cut))) by {
            if remaining is None {
                assert(sorted@.take(cut) =~= sorted@);
            }
        }
        assert forall|k: int| 0 <= k < out.confirmed@.len() implies exists|j: int|
            #![trigger t.candidates@[j]]
            0 <= j < t.candidates@.len() && t.candidates@[j].recommended == 0 && t.candidates@[j].excluded == 0
                && #[trigger] out.confirmed@[k] == ranked(
                t.track_id,
                t.candidates@[j],
            ).1 by {
            let x = sorted@[k];
            assert(out.confirmed@[k] == sorted@.take(cut)[k].1);
            assert(sorted@.to_multiset().count(x) > 0);
            assert(items@.contains(x));
            let i = choose|i: int| 0 <= i < items@.len() && items@[i] == x;
            assert(items@[i] == ranked(tid, cands@[i]));
            let j = choose|j: int| 0 <= j < cs.len() && #[trigger] cs[j] == #[trigger] eligible(cs)[i] && is_eligible(cs[j]);
            assert(t.candidates@[j] == cands@[i]);
        }
    }
    proof {
        if let Some(rem) = remaining {
            let cut = choose|cut: int| crate::fill::fill_result(sorted@, rem as int, cut, out);
            crate::fill::law_fill_respects_quota(sorted@, rem as int, cut, out);
        }
    }
    let manual = match out.tie {
        Some(tie) => Some(ManualItem { track_id: Some(t.track_id), univ_id: t.univ_id, reason: ManualReason::TrackTie(tie) }),
        None => None,
    };
    (manual, out.confirmed)
}

/// The phase-one candidates of one university: its quota and the confirmed
/// list of each of its tracks, in track order.
#[derive(Debug, Clone)]
pub struct UnivPool {
    pub univ_id: i64,
    /// The university quota (`None` = unlimited).
    pub total_quota: Option<i64>,
    pub lists: Vec<Vec<MergeCand>>,
}

/// A pool as plain values: `(univ_id, total_quota, lists)`.
pub open spec fn pool_view(p: UnivPool) -> (i64, Option<i64>, Seq<Seq<MergeCand>>) {
    (p.univ_id, p.total_quota, lists_view(p.lists@))
}

/// The pools as plain values.
pub open spec fn pools_view(ps: Seq<UnivPool>) -> Seq<(i64, Option<i64>, Seq<Seq<MergeCand>>)> {
    ps.map_values(|p: UnivPool| pool_view(p))
}

/// Adds the confirmed list `l` of a track of university `u` to pools kept in
/// increasing university order: appended to the pool of `u`, or in a new pool
/// (with quota `q`) at its place.
pub open spec fn pool_add(
    ps: Seq<(i64, Option<i64>, Seq<Seq<MergeCand>>)>,
    u: i64,
    q: Option<i64>,
    l: Seq<MergeCand>,
) -> Seq<(i64, Option<i64>, Seq<Seq<MergeCand>>)>
    decreases ps.len(),
{
    if ps.len() == 0 {
        seq![(u, q, seq![l])]
    } else if ps.last().0 == u {
        ps.drop_last().push((u, ps.last().1, ps.last().2.push(l)))
    } else if ps.last().0 < u {
        ps.push((u, q, seq![l]))
    } else {
        pool_add(ps.drop_last(), u, q, l).push(ps.last())
    }
}

/// The index of the first track of university `u` from `i` on.
pub open spec fn first_track_of(tracks: Seq<TrackInput>, u: i64, i: int) -> int
    decreases tracks.len() - i,
{
    if i < 0 || i >= tracks.len() || tracks[i].univ_id == u {
        i
    } else {
        first_track_of(tracks, u, i + 1)
    }
}

/// The pools after phase one over tracks `0..n`. A university's quota is the
/// one given with its first track.
pub open spec fn phase_pools(tracks: Seq<TrackInput>, n: int) -> Seq<(i64, Option<i64>, Seq<Seq<MergeCand>>)>
    decreases n,
{
    if n <= 0 {
        Seq::empty()
    } else {
        let ps = phase_pools(tracks, n - 1);
        let t = tracks[n - 1];
        let c = track_confirmed(t);
        if c.len() == 0 {
            ps
        } else {
            pool_add(ps, t.univ_id, tracks[first_track_of(tracks, t.univ_id, 0)].total_quota, c)
        }
    }
}

/// The manual decisions of phase one over tracks `0..n`, in track order.
pub open spec fn phase_manual(tracks: Seq<TrackInput>, n: int) -> Seq<ManualItem>
    decreases n,
{
    if n <= 0 {
        Seq::empty()
    } else {
        match track_manual(tracks[n - 1]) {
            Some(m) => phase_manual(tracks, n - 1).push(m),
            None => phase_manual(tracks, n - 1),
        }
    }
}

/// The number of rows of tracks `0..n`.
pub open spec fn candidates_total(tracks: Seq<TrackInput>, n: int) -> nat
    decreases n,
{
    if n <= 0 {
        0
    } else {
        candidates_total(tracks, n - 1) + tracks[n - 1].candidates@.len()
    }
}

/// The number of candidates in a pool's lists.
pub open spec fn pool_total(p: (i64, Option<i64>, Seq<Seq<MergeCand>>)) -> nat {
    total_len(p.2, p.2.len() as int)
}

proof fn lemma_total_len_push_prefix(ls: Seq<Seq<MergeCand>>, l: Seq<MergeCand>, n: int)
    requires
        0 <= n <= ls.len(),
    ensures
        total_len(ls.push(l), n) == total_len(ls, n),
    decreases n,
{
    if n > 0 {
        lemma_total_len_push_prefix(ls, l, n - 1);
    }
}

proof fn lemma_total_len_push(ls: Seq<Seq<MergeCand>>, l: Seq<MergeCand>)
    ensures
        total_len(ls.push(l), ls.len() + 1int) == total_len(ls, ls.len() as int) + l.len(),
{
    lemma_total_len_push_prefix(ls, l, ls.len() as int);
    assert(ls.push(l)[ls.len() as int] == l);
}

proof fn lemma_pool_add_bound(
    ps: Seq<(i64, Option<i64>, Seq<Seq<MergeCand>>)>,
    u: i64,
    q: Option<i64>,
    l: Seq<MergeCand>,
    b: int,
)
    requires
        forall|k: int| 0 <= k < ps.len() ==> pool_total(#[trigger] ps[k]) + l.len() <= b,
        l.len() <= b,
    ensures
        forall|k: int|
            0 <= k < pool_add(ps, u, q, l).len() ==> pool_total(#[trigger] pool_add(ps, u, q, l)[k]) <= b,
    decreases ps.len(),
{
    let r = pool_add(ps, u, q, l);
    let one: Seq<Seq<MergeCand>> = seq![l];
    assert(total_len(one, 1) == total_len(one, 0) + l.len());
    if ps.len() == 0 {
        assert forall|k: int| 0 <= k < r.len() implies pool_total(#[trigger] r[k]) <= b by {
            assert(r[k] == (u, q, one));
        }
    } else if ps.last().0 == u {
        let last = ps.last();
        lemma_total_len_push(last.2, l);
        assert(pool_total(ps[ps.len() - 1]) + l.len() <= b);
        assert forall|k: int| 0 <= k < r.len() implies pool_total(#[trigger] r[k]) <= b by {
            if k < ps.len() - 1 {
                assert(r[k] == ps[k]);
            }
        }
    } else if ps.last().0 < u {
        assert forall|k: int| 0 <= k < r.len() implies pool_total(#[trigger] r[k]) <= b by {
            if k < ps.len() {
                assert(r[k] == ps[k]);
            } else {
                assert(r[k] == (u, q, one));
            }
        }
    } else {
        let d = ps.drop_last();
        assert forall|k: int| 0 <= k < d.len() implies pool_total(#[trigger] d[k]) + l.len() <= b by {
            assert(d[k] == ps[k]);
        }
        lemma_pool_add_bound(d, u, q, l, b);
        let inner = pool_add(d, u, q, l);
        assert(pool_total(ps[ps.len() - 1]) + l.len() <= b);
        assert forall|k: int| 0 <= k < r.len() implies pool_total(#[trigger] r[k]) <= b by {
            if k < inner.len() {
                assert(r[k] == inner[k]);
            } else {
                assert(r[k] == ps[ps.len() - 1]);
            }
        }
    }
}

proof fn lemma_candidates_total_ge(tracks: Seq<TrackInput>, i: int, n: int)
    requires
        0 <= i < n <= tracks.len(),
    ensures
        tracks[i].candidates@.len() <= candidates_total(tracks, n),
        candidates_total(tracks, i) + tracks[i].candidates@.len() <= candidates_total(tracks, n),
    decreases n,
{
    if i < n - 1 {
        lemma_candidates_total_ge(tracks, i, n - 1);
    }
}

/// Adds a confirmed list to the pools (see `pool_add`).
fn pool_insert(pools: &mut Vec<UnivPool>, u: i64, q: Option<i64>, l: Vec<MergeCand>)
    ensures
        pools_view(final(pools)@) == pool_add(pools_view(old(pools)@), u, q, l@),
{
    let ghost ps = pools_view(pools@);
    let ghost lv = l@;
    let mut p: usize = pools.len();
    assert(ps.take(p as int) =~= ps);
    assert(ps.skip(p as int) =~= Seq::<(i64, Option<i64>, Seq<Seq<MergeCand>>)>::empty());
    assert(pool_add(ps, u, q, lv) + ps.skip(p as int) =~= pool_add(ps, u, q, lv));
    while p > 0 && pools[p - 1].univ_id > u
        invariant
            ps == pools_view(pools@),
            p <= pools@.len(),
            pool_add(ps, u, q, lv) == pool_add(ps.take(p as int), u, q, lv) + ps.skip(p as int),
        decreases p,
    {
        let ghost s = ps.take(p as int);
        assert(s.last() == ps[p - 1]);
        assert(s.drop_last() =~= ps.take(p - 1));
        assert(ps.skip(p - 1) =~= seq![s.last()] + ps.skip(p as int));
        assert(pool_add(s, u, q, lv) == pool_add(ps.take(p - 1), u, q, lv).push(s.last()));
        assert(pool_add(ps.take(p - 1), u, q, lv).push(s.last()) + ps.skip(p as int) =~= pool_add(
            ps.take(p - 1),
            u,
            q,
            lv,
        ) + ps.skip(p - 1));
        p = p - 1;
    }
    if p > 0 && pools[p - 1].univ_id == u {
        let ghost s = ps.take(p as int);
        let mut e = pools.remove(p - 1);
        let ghost e0 = e;
        assert(s.last() == pool_view(e0));
        e.lists.push(l);
        assert(lists_view(e.lists@) =~= lists_view(e0.lists@).push(lv));
        pools.insert(p - 1, e);
        assert(s.drop_last() =~= ps.take(p - 1));
        assert(pools_view(pools@) =~= pool_add(s, u, q, lv) + ps.skip(p as int));
    } else {
        let ghost s = ps.take(p as int);
        let mut lists: Vec<Vec<MergeCand>> = Vec::new();
        lists.push(l);
        let e = UnivPool { univ_id: u, total_quota: q, lists };
        assert(lists_view(e.lists@) =~= seq![lv]);
        pools.insert(p, e);
        if p == 0 {
            assert(s =~= Seq::<(i64, Option<i64>, Seq<Seq<MergeCand>>)>::empty());
        }
        assert(pools_view(pools@) =~= pool_add(s, u, q, lv) + ps.skip(p as int));
    }
}

/// The result of phase one.
#[derive(Debug)]
pub struct TrackPhase {
    /// The manual decisions of the tracks, in track order.
    pub manual: Vec<ManualItem>,
    /// The confirmed candidates, pooled by university in increasing id order.
    pub pools: Vec<UnivPool>,
}

/// Phase one of the automatic recommendation over the round's tracks (in
/// track order): every track is planned by `plan_track`; its manual decision
/// is recorded, and its confirmed candidates, when there are any, are added to
/// the pool of its university.
pub fn plan_track_phase(tracks: &Vec<TrackInput>) -> (r: TrackPhase)
    requires
        forall|i: int| 0 <= i < tracks@.len() ==> track_fits(#[trigger] tracks@[i]),
        candidates_total(tracks@, tracks@.len() as int) <= i64::MAX,
    ensures
        r.manual@ == phase_manual(tracks@, tracks@.len() as int),
        pools_view(r.pools@) == phase_pools(tracks@, tracks@.len() as int),
        forall|k: int| 0 <= k < r.pools@.len() ==> pool_total(#[trigger] pools_view(r.pools@)[k]) <= i64::MAX,
{
    let ghost ts = tracks@;
    let ghost n = tracks@.len() as int;
    let mut manual: Vec<ManualItem> = Vec::new();
    let mut pools: Vec<UnivPool> = Vec::new();
    let mut i: usize = 0;
    while i < tracks.len()
        invariant
            ts == tracks@,
            n == ts.len(),
            i <= n,
            forall|j: int| 0 <= j < n ==> track_fits(#[trigger] ts[j]),
            candidates_total(ts, n) <= i64::MAX,
            manual@ == phase_manual(ts, i as int),
            pools_view(pools@) == phase_pools(ts, i as int),
            forall|k: int|
                0 <= k < pools@.len() ==> pool_total(#[trigger] pools_view(pools@)[k]) <= candidates_total(ts, i as int),
        decreases n - i,
    {
        let t = &tracks[i];
        proof {
            lemma_candidates_total_ge(ts, i as int, n);
        }
        let (m, confirmed) = plan_track(t);
        match m {
            Some(item) => {
                manual.push(item);
            },
            None => {},
        }
        if confirmed.len() > 0 {
            let u = t.univ_id;
            let mut f: usize = 0;
            while tracks[f].univ_id != u
                invariant
                    ts == tracks@,
                    n == ts.len(),
                    f <= i < n,
                    ts[i as int].univ_id == u,
                    first_track_of(ts, u, 0) == first_track_of(ts, u, f as int),
                decreases i - f,
            {
                f = f + 1;
            }
            let q = tracks[f].total_quota;
            let ghost before = pools_view(pools@);
            proof {
                let b = candidates_total(ts, i + 1) as int;
                assert forall|k: int| 0 <= k < before.len() implies pool_total(#[trigger] before[k]) + confirmed@.len() <= b by {
                }
                lemma_pool_add_bound(before, u, q, confirmed@, b);
            }
            pool_insert(&mut pools, u, q, confirmed);
        } else {
            proof {
                let ps = pools_view(pools@);
                assert forall|k: int| 0 <= k < pools@.len() implies pool_total(#[trigger] ps[k]) <= candidates_total(ts, i + 1) by {
                }
            }
        }
        i = i + 1;
    }
    TrackPhase { manual, pools }
}

/// The result of phase two for one university.
#[derive(Debug)]
pub struct UnivCut {
    /// The finally confirmed candidates.
    pub confirmed: Vec<MergeCand>,
    /// The manual decision asked for, when a tie straddles the university quota.
    pub manual: Option<ManualItem>,
}

/// The manual decision for a university-wide tie.
pub open spec fn univ_manual(univ_id: i64, tie: Option<TieBoundary>, quota: i64, used: i64) -> Option<ManualItem> {
    match tie {
        Some(tie) => Some(
            ManualItem {
                track_id: None,
                univ_id,
                reason: ManualReason::UnivTie { tie, quota, used, remaining: (quota - used) as i64 },
            },
        ),
        None => None,
    }
}

/// Phase two for one university: with no university quota every phase-one
/// candidate stays confirmed; otherwise the pool is cut by `merge_univ_cut`
/// against the quota less the `univ_used` recommendations already counted
/// against it, and a straddling tie is reported.
pub fn cut_university(pool: &UnivPool, univ_used: i64) -> (r: UnivCut)
    requires
        pool_total(pool_view(*pool)) <= i64::MAX,
        pool.total_quota matches Some(tq) ==> i64::MIN <= tq - univ_used <= i64::MAX,
    ensures
        ({
            let ls = lists_view(pool.lists@);
            match pool.total_quota {
                None => r.confirmed@ == concat_all(ls, ls.len() as int) && r.manual is None,
                Some(tq) => {
                    let res = merge_run(ls, start_pos(ls.len()), Seq::empty(), tq - univ_used, total_len(ls, ls.len() as int));
                    &&& r.confirmed@ == res.0
                    &&& r.manual == univ_manual(pool.univ_id, res.1, tq, univ_used)
                },
            }
        }),
        pool.total_quota matches Some(tq) ==> (univ_used <= tq ==> univ_used + r.confirmed@.len() <= tq),
        r.confirmed@.to_multiset().subset_of(
            concat_all(lists_view(pool.lists@), lists_view(pool.lists@).len() as int).to_multiset(),
        ),
{
    proof {
        let ls = lists_view(pool.lists@);
        if let Some(tq) = pool.total_quota {
            crate::merge::law_merge_keeps_track_order(ls, tq - univ_used);
        }
    }
    match pool.total_quota {
        None => {
            let out = merge_univ_cut(pool.lists.as_slice(), None);
            UnivCut { confirmed: out.confirmed, manual: None }
        },
        Some(tq) => {
            let remaining = tq - univ_used;
            let out = merge_univ_cut(pool.lists.as_slice(), Some(remaining));
            let manual = match out.tie {
                Some(tie) => Some(
                    ManualItem {
                        track_id: None,
                        univ_id: pool.univ_id,
                        reason: ManualReason::UnivTie { tie, quota: tq, used: univ_used, remaining },
                    },
                ),
                None => None,
            };
            UnivCut { confirmed: out.confirmed, manual }
        },
    }
}

/// How many candidates were confirmed in one track.
#[derive(Debug, Clone, Copy, PartialEq, Eq, Structural)]
pub struct TrackCount {
    pub track_id: i64,
    pub count: i64,
}

/// The number of picks of track `tid`.
pub open spec fn count_in(picks: Seq<MergeCand>, tid: i64) -> nat
    decreases picks.len(),
{
    if picks.len() == 0 {
        0
    } else {
        count_in(picks.drop_last(), tid) + if picks.last().track_id == tid {
            1nat
        } else {
            0nat
        }
    }
}

/// `r` lists every track of `picks` once, in increasing id order, with its
/// number of picks.
pub open spec fn counts_ok(picks: Seq<MergeCand>, r: Seq<TrackCount>) -> bool {
    &&& forall|a: int, b: int| 0 <= a < b < r.len() ==> r[a].track_id < r[b].track_id
    &&& forall|k: int| 0 <= k < r.len() ==> (#[trigger] r[k]).count == count_in(picks, r[k].track_id) && r[k].count >= 1
    &&& forall|j: int| 0 <= j < picks.len() ==> exists|k: int| 0 <= k < r.len() && (#[trigger] r[k]).track_id == (#[trigger] picks[j]).track_id
}

proof fn lemma_count_in(picks: Seq<MergeCand>, tid: i64)
    ensures
        count_in(picks, tid) <= picks.len(),
        count_in(picks, tid) > 0 ==> exists|j: int| 0 <= j < picks.len() && (#[trigger] picks[j]).track_id == tid,
    decreases picks.len(),
{
    if picks.len() > 0 {
        let d = picks.drop_last();
        lemma_count_in(d, tid);
        if count_in(d, tid) > 0 {
            let j = choose|j: int| 0 <= j < d.len() && (#[trigger] d[j]).track_id == tid;
            assert(picks[j] == d[j]);
        } else if count_in(picks, tid) > 0 {
            assert(picks[picks.len() - 1].track_id == tid);
        }
    }
}

/// Counts the final picks per track, in increasing track order.
pub fn count_per_track(picks: &Vec<MergeCand>) -> (r: Vec<TrackCount>)
    requires
        picks@.len() <= i64::MAX,
    ensures
        counts_ok(picks@, r@),
{
    let ghost ps = picks@;
    let mut r: Vec<TrackCount> = Vec::new();
    let mut i: usize = 0;
    while i < picks.len()
        invariant
            ps == picks@,
            ps.len() <= i64::MAX,
            i <= ps.len(),
            counts_ok(ps.take(i as int), r@),
        decreases ps.len() - i,
    {
        let x = picks[i].track_id;
        let ghost pre = ps.take(i as int);
        let ghost post = ps.take(i + 1);
        let ghost r0 = r@;
        assert(post.drop_last() =~= pre);
        assert(post.last() == ps[i as int]);
        assert forall|y: i64| #[trigger] count_in(post, y) == count_in(pre, y) + if y == x {
            1nat
        } else {
            0nat
        } by {}
        let mut k: usize = 0;
        while k < r.len() && r[k].track_id < x
            invariant
                r@ == r0,
                k <= r0.len(),
                forall|j: int| 0 <= j < k ==> (#[trigger] r0[j]).track_id < x,
            decreases r0.len() - k,
        {
            k = k + 1;
        }
        if k < r.len() && r[k].track_id == x {
            let c = r[k].count;
            proof {
                lemma_count_in(pre, x);
            }
            r.set(k, TrackCount { track_id: x, count: c + 1 });
            assert forall|k2: int| 0 <= k2 < r@.len() implies (#[trigger] r@[k2]).count == count_in(post, r@[k2].track_id)
                && r@[k2].count >= 1 by {
                if k2 != k {
                    assert(r@[k2] == r0[k2]);
                    assert(r0[k2].track_id != x);
                }
            }
            assert forall|j: int| 0 <= j < post.len() implies exists|k2: int|
                0 <= k2 < r@.len() && (#[trigger] r@[k2]).track_id == (#[trigger] post[j]).track_id by {
                if j < pre.len() {
                    assert(post[j] == pre[j]);
                    let k3 = choose|k3: int| 0 <= k3 < r0.len() && (#[trigger] r0[k3]).track_id == pre[j].track_id;
                    assert(r@[k3].track_id == r0[k3].track_id);
                } else {
                    assert(r@[k as int].track_id == x);
                }
            }
        } else {
            proof {
                lemma_count_in(pre, x);
                if count_in(pre, x) > 0 {
                    let j = choose|j: int| 0 <= j < pre.len() && (#[trigger] pre[j]).track_id == x;
                    let k3 = choose|k3: int| 0 <= k3 < r0.len() && (#[trigger] r0[k3]).track_id == pre[j].track_id;
                    if k3 < k {
                        assert(r0[k3].track_id < x);
                    } else if k3 > k {
                        assert(r0[k as int].track_id < r0[k3].track_id);
                    }
                }
            }
            r.insert(k, TrackCount { track_id: x, count: 1 });
            assert(forall|k2: int| 0 <= k2 < k ==> r@[k2] == r0[k2]);
            assert(forall|k2: int| k < k2 < r@.len() ==> r@[k2] == r0[k2 - 1]);
            assert forall|a: int, b: int| 0 <= a < b < r@.len() implies r@[a].track_id < r@[b].track_id by {
                if b > k && a != k {
                    let a0 = if a < k { a } else { a - 1 };
                    assert(r0[a0].track_id < r0[b - 1].track_id);
                }
                if a == k && b > k {
                    assert(r0[k as int].track_id >= x);
                    assert(r0[b - 1].track_id >= r0[k as int].track_id);
                }
            }
            assert forall|k2: int| 0 <= k2 < r@.len() implies (#[trigger] r@[k2]).count == count_in(post, r@[k2].track_id)
                && r@[k2].count >= 1 by {
                if k2 < k {
                    assert(r0[k2].track_id != x);
                } else if k2 > k {
                    assert(r0[k2 - 1].track_id != x) by {
                        assert(r0[k as int].track_id != x);
                        if k2 - 1 > k {
                            assert(r0[k as int].track_id < r0[k2 - 1].track_id);
                        }
                    }
                }
            }
            assert forall|j: int| 0 <= j < post.len() implies exists|k2: int|
                0 <= k2 < r@.len() && (#[trigger] r@[k2]).track_id == (#[trigger] post[j]).track_id by {
                if j < pre.len() {
                    assert(post[j] == pre[j]);
                    let k3 = choose|k3: int| 0 <= k3 < r0.len() && (#[trigger] r0[k3]).track_id == pre[j].track_id;
                    if k3 < k {
                        assert(r@[k3].track_id == r0[k3].track_id);
                    } else {
                        assert(r@[k3 + 1].track_id == r0[k3].track_id);
                    }
                } else {
                    assert(r@[k as int].track_id == x);
                }
            }
        }
        i = i + 1;
    }
    assert(ps.take(ps.len() as int) =~= ps);
    r
}

// ── the response ──────────────────────────────────────────────────

/// A track's names, as the round's tracks list them.
#[derive(Debug, Clone)]
pub struct TrackLabel {
    pub track_id: i64,
    pub univ_id: i64,
    pub univ_name: String,
    pub track_name: String,
}

/// A track whose candidates were recommended, with how many.
#[derive(Debug, Clone)]
pub struct AutoRecommendItem {
    pub track_id: i64,
    pub univ_name: String,
    pub track_name: String,
    pub count: i64,
}

/// A decision left to the administrator, by name; without a track it concerns
/// the whole university.
#[derive(Debug, Clone)]
pub struct AutoRecommendManualItem {
    pub track_id: Option<i64>,
    pub univ_name: String,
    pub track_name: Option<String>,
    pub reason: String,
}

/// What the automatic recommendation did and what it left to the administrator.
#[derive(Debug, Clone)]
pub struct AutoRecommendResponse {
    pub confirmed: Vec<AutoRecommendItem>,
    pub manual: Vec<AutoRecommendManualItem>,
}

/// The last label of track `tid` among labels `0..n` (later labels replace earlier ones).
pub open spec fn track_label_at(labels: Seq<TrackLabel>, tid: i64, n: int) -> Option<int>
    decreases n,
{
    if n <= 0 {
        None
    } else if labels[n - 1].track_id == tid {
        Some(n - 1)
    } else {
        track_label_at(labels, tid, n - 1)
    }
}

/// The first label of university `uid` from index `i` on (the first one names it).
pub open spec fn univ_label_from(labels: Seq<TrackLabel>, uid: i64, i: int) -> Option<int>
    decreases labels.len() - i,
{
    if i < 0 || i >= labels.len() {
        None
    } else if labels[i].univ_id == uid {
        Some(i)
    } else {
        univ_label_from(labels, uid, i + 1)
    }
}

/// A manual decision by name: (track, university name, track name, message),
/// or the message of a missing name.
pub open spec fn manual_entry(m: ManualItem, labels: Seq<TrackLabel>) -> Result<
    (Option<i64>, Seq<char>, Option<Seq<char>>, Seq<char>),
    Seq<char>,
> {
    match m.track_id {
        Some(tid) => match track_label_at(labels, tid, labels.len() as int) {
            Some(k) => Ok((Some(tid), labels[k].univ_name@, Some(labels[k].track_name@), reason_text(m.reason))),
            None => Err("모집단위 정보 누락"@),
        },
        None => match univ_label_from(labels, m.univ_id, 0) {
            Some(k) => Ok((None, labels[k].univ_name@, None, reason_text(m.reason))),
            None => Err("대학 정보 누락"@),
        },
    }
}

/// A confirmed track by name: (track, university name, track name, count).
pub open spec fn confirmed_entry(c: TrackCount, labels: Seq<TrackLabel>) -> Result<
    (i64, Seq<char>, Seq<char>, i64),
    Seq<char>,
> {
    match track_label_at(labels, c.track_id, labels.len() as int) {
        Some(k) => Ok((c.track_id, labels[k].univ_name@, labels[k].track_name@, c.count)),
        None => Err("모집단위 정보 누락"@),
    }
}

/// The entries of `0..n`, or the first missing name.
pub open spec fn all_manual(ms: Seq<ManualItem>, labels: Seq<TrackLabel>, n: int) -> Result<
    Seq<(Option<i64>, Seq<char>, Option<Seq<char>>, Seq<char>)>,
    Seq<char>,
>
    decreases n,
{
    if n <= 0 {
        Ok(Seq::empty())
    } else {
        match all_manual(ms, labels, n - 1) {
            Err(e) => Err(e),
            Ok(s) => match manual_entry(ms[n - 1], labels) {
                Err(e) => Err(e),
                Ok(x) => Ok(s.push(x)),
            },
        }
    }
}

/// The entries of `0..n`, or the first missing name.
pub open spec fn all_confirmed(cs: Seq<TrackCount>, labels: Seq<TrackLabel>, n: int) -> Result<
    Seq<(i64, Seq<char>, Seq<char>, i64)>,
    Seq<char>,
>
    decreases n,
{
    if n <= 0 {
        Ok(Seq::empty())
    } else {
        match all_confirmed(cs, labels, n - 1) {
            Err(e) => Err(e),
            Ok(s) => match confirmed_entry(cs[n - 1], labels) {
                Err(e) => Err(e),
                Ok(x) => Ok(s.push(x)),
            },
        }
    }
}

/// A manual item as plain values.
pub open spec fn manual_item_view(m: AutoRecommendManualItem) -> (Option<i64>, Seq<char>, Option<Seq<char>>, Seq<char>) {
    (
        m.track_id,
        m.univ_name@,
        match m.track_name {
            Some(t) => Some(t@),
            None => None,
        },
        m.reason@,
    )
}

/// A confirmed item as plain values.
pub open spec fn confirmed_item_view(c: AutoRecommendItem) -> (i64, Seq<char>, Seq<char>, i64) {
    (c.track_id, c.univ_name@, c.track_name@, c.count)
}

proof fn lemma_manual_err_stays(ms: Seq<ManualItem>, labels: Seq<TrackLabel>, a: int, b: int, e: Seq<char>)
    requires
        0 <= a <= b,
        all_manual(ms, labels, a) == Err::<Seq<(Option<i64>, Seq<char>, Option<Seq<char>>, Seq<char>)>, Seq<char>>(e),
    ensures
        all_manual(ms, labels, b) == Err::<Seq<(Option<i64>, Seq<char>, Option<Seq<char>>, Seq<char>)>, Seq<char>>(e),
    decreases b - a,
{
    if a < b {
        lemma_manual_err_stays(ms, labels, a, b - 1, e);
    }
}

proof fn lemma_confirmed_err_stays(cs: Seq<TrackCount>, labels: Seq<TrackLabel>, a: int, b: int, e: Seq<char>)
    requires
        0 <= a <= b,
        all_confirmed(cs, labels, a) == Err::<Seq<(i64, Seq<char>, Seq<char>, i64)>, Seq<char>>(e),
    ensures
        all_confirmed(cs, labels, b) == Err::<Seq<(i64, Seq<char>, Seq<char>, i64)>, Seq<char>>(e),
    decreases b - a,
{
    if a < b {
        lemma_confirmed_err_stays(cs, labels, a, b - 1, e);
    }
}

fn find_track_label(labels: &Vec<TrackLabel>, tid: i64) -> (r: Option<usize>)
    ensures
        r matches Some(k) ==> k < labels@.len() && track_label_at(labels@, tid, labels@.len() as int) == Some(k as int),
        r is None ==> track_label_at(labels@, tid, labels@.len() as int) is None,
{
    let mut n: usize = labels.len();
    while n > 0
        invariant
            n <= labels@.len(),
            track_label_at(labels@, tid, labels@.len() as int) == track_label_at(labels@, tid, n as int),
        decreases n,
    {
        if labels[n - 1].track_id == tid {
            return Some(n - 1);
        }
        n = n - 1;
    }
    None
}

fn find_univ_label(labels: &Vec<TrackLabel>, uid: i64) -> (r: Option<usize>)
    ensures
        r matches Some(k) ==> k < labels@.len() && univ_label_from(labels@, uid, 0) == Some(k as int),
        r is None ==> univ_label_from(labels@, uid, 0) is None,
{
    let mut i: usize = 0;
    while i < labels.len()
        invariant
            i <= labels@.len(),
            univ_label_from(labels@, uid, 0) == univ_label_from(labels@, uid, i as int),
        decreases labels@.len() - i,
    {
        if labels[i].univ_id == uid {
            return Some(i);
        }
        i = i + 1;
    }
    None
}

/// The response of an automatic recommendation: the manual decisions (in the
/// order they were made) and the confirmed tracks (in the order counted), by
/// name; a name missing from the labels is a fault, manual decisions checked first.
pub fn auto_recommend_response(
    manual: &Vec<ManualItem>,
    counts: &Vec<TrackCount>,
    labels: &Vec<TrackLabel>,
) -> (r: Result<AutoRecommendResponse, String>)
    ensures
        match all_manual(manual@, labels@, manual@.len() as int) {
            Err(e) => r matches Err(m) && m@ == e,
            Ok(ms) => match all_confirmed(counts@, labels@, counts@.len() as int) {
                Err(e) => r matches Err(m) && m@ == e,
                Ok(cs) => r matches Ok(resp) && resp.manual@.map_values(|x: AutoRecommendManualItem| manual_item_view(x))
                    == ms && resp.confirmed@.map_values(|x: AutoRecommendItem| confirmed_item_view(x)) == cs,
            },
        },
{
    let mut out_manual: Vec<AutoRecommendManualItem> = Vec::new();
    assert(out_manual@.map_values(|x: AutoRecommendManualItem| manual_item_view(x)) =~= Seq::empty());
    let mut i: usize = 0;
    while i < manual.len()
        invariant
            i <= manual@.len(),
            all_manual(manual@, labels@, i as int) == Ok::<
                Seq<(Option<i64>, Seq<char>, Option<Seq<char>>, Seq<char>)>,
                Seq<char>,
            >(out_manual@.map_values(|x: AutoRecommendManualItem| manual_item_view(x))),
        decreases manual@.len() - i,
    {
        let m = manual[i];
        let item = match m.track_id {
            Some(tid) => match find_track_label(labels, tid) {
                Some(k) => AutoRecommendManualItem {
                    track_id: Some(tid),
                    univ_name: labels[k].univ_name.clone(),
                    track_name: Some(labels[k].track_name.clone()),
                    reason: m.reason.message(),
                },
                None => {
                    proof {
                        lemma_manual_err_stays(manual@, labels@, i + 1, manual@.len() as int, "모집단위 정보 누락"@);
                    }
                    return Err("모집단위 정보 누락".to_owned());
                },
            },
            None => match find_univ_label(labels, m.univ_id) {
                Some(k) => AutoRecommendManualItem {
                    track_id: None,
                    univ_name: labels[k].univ_name.clone(),
                    track_name: None,
                    reason: m.reason.message(),
                },
                None => {
                    proof {
                        lemma_manual_err_stays(manual@, labels@, i + 1, manual@.len() as int, "대학 정보 누락"@);
                    }
                    return Err("대학 정보 누락".to_owned());
                },
            },
        };
        let ghost before = out_manual@.map_values(|x: AutoRecommendManualItem| manual_item_view(x));
        out_manual.push(item);
        assert(out_manual@.map_values(|x: AutoRecommendManualItem| manual_item_view(x)) =~= before.push(
            manual_entry(manual@[i as int], labels@)->Ok_0,
        ));
        i = i + 1;
    }
    let mut out_confirmed: Vec<AutoRecommendItem> = Vec::new();
    assert(out_confirmed@.map_values(|x: AutoRecommendItem| confirmed_item_view(x)) =~= Seq::empty());
    let mut j: usize = 0;
    while j < counts.len()
        invariant
            j <= counts@.len(),
            all_manual(manual@, labels@, manual@.len() as int) == Ok::<
                Seq<(Option<i64>, Seq<char>, Option<Seq<char>>, Seq<char>)>,
                Seq<char>,
            >(out_manual@.map_values(|x: AutoRecommendManualItem| manual_item_view(x))),
            all_confirmed(counts@, labels@, j as int) == Ok::<Seq<(i64, Seq<char>, Seq<char>, i64)>, Seq<char>>(
                out_confirmed@.map_values(|x: AutoRecommendItem| confirmed_item_view(x)),
            ),
        decreases counts@.len() - j,
    {
        let c = counts[j];
        match find_track_label(labels, c.track_id) {
            Some(k) => {
                let ghost before = out_confirmed@.map_values(|x: AutoRecommendItem| confirmed_item_view(x));
                out_confirmed.push(
                    AutoRecommendItem {
                        track_id: c.track_id,
                        univ_name: labels[k].univ_name.clone(),
                        track_name: labels[k].track_name.clone(),
                        count: c.count,
                    },
                );
                assert(out_confirmed@.map_values(|x: AutoRecommendItem| confirmed_item_view(x)) =~= before.push(
                    confirmed_entry(counts@[j as int], labels@)->Ok_0,
                ));
            },
            None => {
                proof {
                    lemma_confirmed_err_stays(counts@, labels@, j + 1, counts@.len() as int, "모집단위 정보 누락"@);
                }
                return Err("모집단위 정보 누락".to_owned());
            },
        }
        j = j + 1;
    }
    Ok(AutoRecommendResponse { confirmed: out_confirmed, manual: out_manual })
}

/// Law (a track confirms only rows still open): every candidate a track
/// confirms in phase one is the student of one of its rows that is neither
/// recommended already nor excluded, placed in that track; rows already
/// recommended or excluded are never confirmed again.
pub proof fn law_track_confirms_only_open_rows(t: TrackInput)
    requires
        t.candidates@.len() <= i64::MAX,
    ensures
        forall|k: int| 0 <= k < track_confirmed(t).len() ==> exists|j: int|
            #![trigger t.candidates@[j]]
            0 <= j < t.candidates@.len() && t.candidates@[j].recommended == 0 && t.candidates@[j].excluded == 0
                && #[trigger] track_confirmed(t)[k].student_id == t.candidates@[j].student_id
                && track_confirmed(t)[k].track_id == t.track_id,
{
    broadcast use vstd::seq_lib::group_to_multiset_ensures;

    let cs = t.candidates@;
    if missing_ranking(eligible(cs)) || track_skipped(t) {
        return;
    }
    let el = eligible(cs);
    let mapped = el.map_values(|c: CandidateRow| ranked(t.track_id, c));
    let items = track_items(t);
    law_sort_orders_and_keeps(mapped);
    lemma_eligible_members(cs);
    lemma_eligible_len(cs);
    assert(items.len() == mapped.len()) by {
        vstd::seq_lib::to_multiset_len(items);
        vstd::seq_lib::to_multiset_len(mapped);
    }
    let c: int = match remaining_of(t) {
        Some(rem) => {
            lemma_fill_spec_prefix(items, rem);
            choose|c: int| 0 <= c <= items.len() && fill_spec(items, Some(rem)).0 == values_of(#[trigger] items.take(c))
        },
        None => items.len() as int,
    };
    assert(track_confirmed(t) == values_of(items.take(c))) by {
        if remaining_of(t) is None {
            assert(items.take(c) =~= items);
        }
    }
    assert forall|k: int| 0 <= k < track_confirmed(t).len() implies exists|j: int|
        #![trigger t.candidates@[j]]
        0 <= j < t.candidates@.len() && t.candidates@[j].recommended == 0 && t.candidates@[j].excluded == 0
            && #[trigger] track_confirmed(t)[k].student_id == t.candidates@[j].student_id
            && track_confirmed(t)[k].track_id == t.track_id by {
        let x = items[k];
        assert(track_confirmed(t)[k] == items.take(c)[k].1);
        assert(items.to_multiset().count(x) > 0);
        assert(mapped.contains(x));
        let i = choose|i: int| 0 <= i < mapped.len() && mapped[i] == x;
        assert(mapped[i] == ranked(t.track_id, el[i]));
        let j = choose|j: int| 0 <= j < cs.len() && #[trigger] cs[j] == #[trigger] eligible(cs)[i] && is_eligible(cs[j]);
        assert(t.candidates@[j] == el[i]);
    }
}

proof fn lemma_eligible_complete(cs: Seq<CandidateRow>)
    ensures
        forall|j: int| 0 <= j < cs.len() && is_eligible(#[trigger] cs[j]) ==> exists|i: int|
            0 <= i < eligible(cs).len() && eligible(cs)[i] == cs[j],
    decreases cs.len(),
{
    if cs.len() > 0 {
        let d = cs.drop_last();
        lemma_eligible_complete(d);
        assert forall|j: int| 0 <= j < cs.len() && is_eligible(#[trigger] cs[j]) implies exists|i: int|
            0 <= i < eligible(cs).len() && eligible(cs)[i] == cs[j] by {
            if j < d.len() {
                assert(d[j] == cs[j]);
                let i = choose|i: int| 0 <= i < eligible(d).len() && eligible(d)[i] == d[j];
                assert(eligible(cs)[i] == eligible(d)[i]);
            } else {
                assert(eligible(cs)[eligible(d).len() as int] == cs[j]);
            }
        }
    }
}

/// Law (a track takes its best rows, by whole groups): every row of the track
/// still open (neither recommended nor excluded) either is confirmed, or has a
/// strictly worse track rank than every candidate the track confirms; so a
/// better-ranked open row is never passed over, and a group of equal track
/// rank is never split.
pub proof fn law_track_takes_best_rows(t: TrackInput)
    requires
        t.candidates@.len() <= i64::MAX,
    ensures
        forall|j: int, k: int|
            0 <= j < t.candidates@.len() && 0 <= k < track_confirmed(t).len() && (#[trigger] t.candidates@[j]).recommended
                == 0 && t.candidates@[j].excluded == 0 ==> track_confirmed(t).contains(ranked(t.track_id, t.candidates@[j]).1)
                || (#[trigger] track_confirmed(t)[k]).track_rank < t.candidates@[j].track_rank,
{
    broadcast use vstd::seq_lib::group_to_multiset_ensures;

    let cs = t.candidates@;
    if missing_ranking(eligible(cs)) || track_skipped(t) {
        return;
    }
    let el = eligible(cs);
    let mapped = el.map_values(|c: CandidateRow| ranked(t.track_id, c));
    let items = track_items(t);
    law_sort_orders_and_keeps(mapped);
    lemma_eligible_complete(cs);
    lemma_eligible_len(cs);
    assert(items.len() == mapped.len()) by {
        vstd::seq_lib::to_multiset_len(items);
        vstd::seq_lib::to_multiset_len(mapped);
    }
    let c: int = match remaining_of(t) {
        Some(rem) => {
            lemma_fill_spec_prefix(items, rem);
            choose|c: int| 0 <= c <= items.len() && fill_spec(items, Some(rem)).0 == values_of(#[trigger] items.take(c))
                && is_boundary(items, c)
        },
        None => items.len() as int,
    };
    assert(track_confirmed(t) == values_of(items.take(c))) by {
        if remaining_of(t) is None {
            assert(items.take(c) =~= items);
        }
    }
    assert(is_boundary(items, c));
    assert forall|m: int| 0 <= m < items.len() implies (#[trigger] items[m]).0 == items[m].1.track_rank by {
        assert(items.to_multiset().count(items[m]) > 0);
        assert(mapped.contains(items[m]));
        let i = choose|i: int| 0 <= i < mapped.len() && mapped[i] == items[m];
        assert(mapped[i] == ranked(t.track_id, el[i]));
    }
    assert(sorted_by_key(items));
    assert forall|j: int, k: int|
        0 <= j < t.candidates@.len() && 0 <= k < track_confirmed(t).len() && (#[trigger] t.candidates@[j]).recommended
            == 0 && t.candidates@[j].excluded == 0 implies track_confirmed(t).contains(ranked(t.track_id, t.candidates@[j]).1)
            || (#[trigger] track_confirmed(t)[k]).track_rank < t.candidates@[j].track_rank by {
        assert(is_eligible(cs[j]));
        let i = choose|i: int| 0 <= i < el.len() && el[i] == cs[j];
        let y = ranked(t.track_id, cs[j]);
        assert(mapped[i] == y);
        assert(mapped.to_multiset().count(y) > 0);
        assert(items.contains(y));
        let m = choose|m: int| 0 <= m < items.len() && items[m] == y;
        if m < c {
            assert(track_confirmed(t)[m] == y.1);
        } else {
            assert(track_confirmed(t)[k] == items[k].1);
            assert(items[k].0 == items[k].1.track_rank);
            assert(items[c - 1].0 == items[c - 1].1.track_rank);
            assert(items[c].0 == items[c].1.track_rank);
            assert(items[m].0 == items[m].1.track_rank);
            assert(crate::sorting::key_le(items[k].1, items[c - 1].1));
            assert(crate::sorting::key_le(items[c].1, items[m].1));
            assert(crate::sorting::key_le(items[c - 1].1, items[c].1));
        }
    }
}

} // verus!
