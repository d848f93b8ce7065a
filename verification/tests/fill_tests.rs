use pcm_core::fill::{decide_group, fill_by_rank_groups, GroupStep};

#[test]
fn decide_group_takes_a_fitting_group() {
    assert_eq!(decide_group(2, 3, 5), GroupStep::Take);
}

#[test]
fn fill_stops_at_a_straddling_tie() {
    let items = vec![(1i64, 10i64), (2, 20), (2, 21), (3, 30)];
    let out = fill_by_rank_groups(&items, Some(2));
    assert_eq!(out.confirmed, vec![10]);
    let tie = out.tie.unwrap();
    assert_eq!((tie.rank, tie.free, tie.contenders), (2, 1, 2));
}

#[test]
fn decide_group_on_any_counts() {
    // A quota already overrun leaves nothing to take.
    assert_eq!(decide_group(0, 0, -1), GroupStep::StopClean);
    assert_eq!(decide_group(-2, 1, 0), GroupStep::Take);
    assert_eq!(decide_group(1, 3, 2), GroupStep::StopTie { free: 1 });
}
