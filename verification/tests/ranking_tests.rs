use pcm_core::enums::{MatchMode, RoundStatus};
use pcm_core::fill::fill_by_rank_groups;
use pcm_core::lookup::{find_numeric_matched_threshold, lookup_range_score};
use pcm_core::merge::{merge_univ_cut, MergeCand};
use pcm_core::ranking::{competition_ranks, RankEntry};
use pcm_core::rounds::{check_can_open, round_step, RoundStep};
use pcm_core::score::Score;
use pcm_core::sorting::sort_by_track_then_univ;

fn table() -> Vec<(i64, i64)> {
    vec![(0, 10), (50, 20), (80, 30)]
}

#[test]
fn upper_picks_the_largest_threshold_not_above() {
    assert_eq!(lookup_range_score(65, &table(), MatchMode::Upper), Ok(20));
    assert_eq!(lookup_range_score(80, &table(), MatchMode::Upper), Ok(30));
    assert_eq!(find_numeric_matched_threshold(65, &table(), MatchMode::Upper), Some(50));
}

#[test]
fn upper_below_every_threshold_is_an_error() {
    assert_eq!(
        lookup_range_score(-100_000, &table(), MatchMode::Upper).unwrap_err(),
        "UPPER 매칭 실패: 값 -1에 해당하는 구간 항목이 없습니다 (모든 하한치보다 낮습니다)"
    );
    assert_eq!(find_numeric_matched_threshold(-100_000, &table(), MatchMode::Upper), None);
}

#[test]
fn lower_picks_the_smallest_threshold_not_below_else_the_largest() {
    assert_eq!(lookup_range_score(65, &table(), MatchMode::Lower), Ok(30));
    assert_eq!(lookup_range_score(40, &table(), MatchMode::Lower), Ok(20));
    assert_eq!(lookup_range_score(90, &table(), MatchMode::Lower), Ok(30));
    assert_eq!(
        lookup_range_score(5, &vec![], MatchMode::Lower).unwrap_err(),
        "LOWER 매칭 실패: 구간 테이블이 비어 있습니다"
    );
}

#[test]
fn exact_needs_an_equal_threshold() {
    assert_eq!(lookup_range_score(50, &table(), MatchMode::Exact), Ok(20));
    assert_eq!(
        lookup_range_score(150_000, &table(), MatchMode::Exact).unwrap_err(),
        "EXACT 매칭 실패: 값 1.5에 해당하는 구간 항목이 없습니다"
    );
}

#[test]
fn upper_scores_are_monotone_on_a_monotone_table() {
    let rows = table();
    let mut last = i64::MIN;
    for v in [0i64, 10, 49, 50, 79, 80, 1000] {
        let s = lookup_range_score(v, &rows, MatchMode::Upper).unwrap();
        assert!(s >= last);
        last = s;
    }
}

#[test]
fn lower_scores_never_rise_on_a_falling_table() {
    let rows = vec![(10, 50), (20, 40), (30, 10)];
    let mut last = i64::MAX;
    for v in [-5i64, 10, 11, 20, 25, 30, 99] {
        let s = lookup_range_score(v, &rows, MatchMode::Lower).unwrap();
        assert!(s <= last);
        last = s;
    }
    assert_eq!(lookup_range_score(99, &rows, MatchMode::Lower), Ok(10));
}

fn entry(student_id: i64, total: i64, enrolled: bool) -> RankEntry {
    RankEntry { student_id, track_id: 1, total_score: Score(total), is_enrolled: enrolled }
}

#[test]
fn competition_ranking_shares_ranks_on_ties() {
    let e = vec![entry(1, 100, true), entry(2, 200, true), entry(3, 200, true), entry(4, 50, true)];
    assert_eq!(competition_ranks(&e, false), vec![3, 1, 1, 4]);
}

#[test]
fn enrolled_priority_ranks_enrolled_students_first() {
    let e = vec![entry(1, 100, true), entry(2, 200, false), entry(3, 90, true)];
    assert_eq!(competition_ranks(&e, true), vec![1, 3, 2]);
    assert_eq!(competition_ranks(&e, false), vec![2, 1, 3]);
}

#[test]
fn fill_takes_whole_groups_only() {
    let items = vec![(1i64, 'a'), (2, 'b'), (3, 'c'), (3, 'd')];
    let out = fill_by_rank_groups(&items, Some(3));
    assert_eq!(out.confirmed, vec!['a', 'b']);
    let tie = out.tie.unwrap();
    assert_eq!((tie.rank, tie.free, tie.contenders), (3, 1, 2));
}

#[test]
fn fill_without_quota_takes_everyone() {
    let items = vec![(1i64, 'a'), (1, 'b'), (2, 'c')];
    let out = fill_by_rank_groups(&items, None);
    assert_eq!(out.confirmed, vec!['a', 'b', 'c']);
    assert!(out.tie.is_none());
}

#[test]
fn fill_quota_ending_between_groups_has_no_tie() {
    let items = vec![(1i64, 'a'), (2, 'b'), (2, 'c'), (4, 'd')];
    let out = fill_by_rank_groups(&items, Some(3));
    assert_eq!(out.confirmed, vec!['a', 'b', 'c']);
    assert!(out.tie.is_none());
}

#[test]
fn fill_is_monotone_in_the_quota() {
    let items = vec![(1i64, 1), (2, 2), (2, 3), (4, 4), (5, 5)];
    let mut prev: Vec<i32> = vec![];
    for q in 0..6 {
        let out = fill_by_rank_groups(&items, Some(q));
        assert!(out.confirmed.len() as i64 <= q);
        assert_eq!(&out.confirmed[..prev.len()], &prev[..]);
        prev = out.confirmed;
    }
}

fn cand(student_id: i64, track_id: i64, track_rank: i64, univ_rank: i64) -> MergeCand {
    MergeCand { student_id, track_id, track_rank, univ_rank }
}

#[test]
fn merge_takes_heads_by_university_rank() {
    let tracks = vec![
        vec![cand(1, 1, 1, 1), cand(2, 1, 2, 3)],
        vec![cand(3, 2, 1, 2)],
    ];
    let out = merge_univ_cut(&tracks, Some(2));
    let ids: Vec<i64> = out.confirmed.iter().map(|c| c.student_id).collect();
    assert_eq!(ids, vec![1, 3]);
    assert!(out.tie.is_none());
}

#[test]
fn merge_never_skips_a_higher_track_rank() {
    // Student 2 has the better university rank but sits behind student 1 in its track.
    let tracks = vec![vec![cand(1, 1, 1, 5), cand(2, 1, 2, 1)], vec![cand(3, 2, 1, 3)]];
    let out = merge_univ_cut(&tracks, Some(1));
    let ids: Vec<i64> = out.confirmed.iter().map(|c| c.student_id).collect();
    assert_eq!(ids, vec![3]);
}

#[test]
fn merge_reports_a_straddling_tie() {
    let tracks = vec![vec![cand(1, 1, 1, 1)], vec![cand(2, 2, 1, 1)]];
    let out = merge_univ_cut(&tracks, Some(1));
    assert!(out.confirmed.is_empty());
    let tie = out.tie.unwrap();
    assert_eq!((tie.rank, tie.free, tie.contenders), (1, 1, 2));
}

#[test]
fn sort_orders_by_track_rank_then_univ_rank_stably() {
    let items = vec![
        (10i64, cand(1, 1, 2, 1)),
        (11, cand(2, 1, 1, 4)),
        (12, cand(3, 1, 1, 2)),
        (13, cand(4, 1, 1, 2)),
    ];
    let out = sort_by_track_then_univ(&items);
    let keys: Vec<i64> = out.iter().map(|x| x.0).collect();
    assert_eq!(keys, vec![12, 13, 11, 10]);
}

#[test]
fn round_lifecycle_steps() {
    assert_eq!(round_step(Some(RoundStatus::Open), RoundStep::Close, 1), Ok(RoundStatus::Closed));
    assert_eq!(round_step(Some(RoundStatus::Closed), RoundStep::Reopen, 1), Ok(RoundStatus::Open));
    assert_eq!(round_step(Some(RoundStatus::Closed), RoundStep::Finalize, 1), Ok(RoundStatus::Finalized));
    let e = round_step(Some(RoundStatus::Closed), RoundStep::Close, 7).unwrap_err();
    assert_eq!((e.status, e.message.as_str()), (404, "라운드 id=7 없거나 이미 CLOSED"));
    let e = round_step(Some(RoundStatus::Finalized), RoundStep::Reopen, 7).unwrap_err();
    assert_eq!(e.message, "라운드를 찾을 수 없거나 CLOSED 상태가 아닙니다");
    assert!(round_step(None, RoundStep::Finalize, 2).is_err());
}

#[test]
fn reopen_undoes_close_on_values() {
    let closed = round_step(Some(RoundStatus::Open), RoundStep::Close, 1).unwrap();
    assert_eq!(round_step(Some(closed), RoundStep::Reopen, 1), Ok(RoundStatus::Open));
}

#[test]
fn a_finalized_round_accepts_no_step() {
    for step in [RoundStep::Close, RoundStep::Reopen, RoundStep::Finalize] {
        assert!(round_step(Some(RoundStatus::Finalized), step, 3).is_err());
    }
}

#[test]
fn a_new_round_needs_every_round_finalized() {
    assert!(check_can_open(&vec![RoundStatus::Finalized, RoundStatus::Finalized]).is_ok());
    assert!(check_can_open(&vec![]).is_ok());
    let e = check_can_open(&vec![RoundStatus::Finalized, RoundStatus::Closed]).unwrap_err();
    assert_eq!(e.status, 409);
    assert_eq!(
        e.message,
        "진행 중인 라운드가 있습니다. 모든 라운드가 마감된 후에만 새 라운드를 열 수 있습니다"
    );
}

#[test]
fn university_cut_matches_group_filling_by_university_rank() {
    let tracks = vec![
        vec![cand(1, 10, 1, 1), cand(2, 10, 2, 3), cand(3, 10, 3, 4)],
        vec![cand(4, 20, 1, 2), cand(5, 20, 2, 3), cand(6, 20, 3, 5)],
    ];
    let mut items: Vec<(i64, MergeCand)> = tracks.concat().into_iter().map(|c| (c.univ_rank, c)).collect();
    items.sort_by_key(|p| p.0);
    for rem in 0..8 {
        let cut = merge_univ_cut(&tracks, Some(rem));
        let fill = fill_by_rank_groups(&items, Some(rem));
        assert_eq!(cut.tie, fill.tie);
        let mut a: Vec<i64> = cut.confirmed.iter().map(|c| c.student_id).collect();
        let mut b: Vec<i64> = fill.confirmed.iter().map(|c| c.student_id).collect();
        a.sort();
        b.sort();
        assert_eq!(a, b);
    }
    // Quota 3: ranks 1 and 2 fit, the two candidates of rank 3 straddle one seat.
    let cut = merge_univ_cut(&tracks, Some(3));
    assert_eq!(cut.tie.map(|t| (t.rank, t.free, t.contenders)), Some((3, 1, 2)));
}
