//! The administrator's dashboard: the round in progress, each class's
//! submissions, each university's tracks with their applicants, and totals.
use vstd::prelude::*;

verus! {

/// The round in progress.
#[derive(Debug, Clone)]
pub struct OverviewRound {
    pub id: i64,
    pub status: String,
    pub opened_at: String,
}

/// A class and how many of its students applied in the round.
#[derive(Debug, Clone)]
pub struct OverviewClass {
    pub grade: i64,
    pub class_no: i64,
    pub teacher_name: Option<String>,
    pub submitted: i64,
}

/// A track and its number of applicants in the round.
#[derive(Debug, Clone)]
pub struct OverviewTrack {
    pub track_id: i64,
    pub track_name: String,
    pub unit_quota: Option<i64>,
    pub applicants: i64,
}

/// A university with its tracks.
#[derive(Debug, Clone)]
pub struct OverviewUniversity {
    pub univ_id: i64,
    pub univ_name: String,
    pub total_quota: Option<i64>,
    pub tracks: Vec<OverviewTrack>,
}

/// Totals over all rounds.
#[derive(Debug, Clone, Copy)]
pub struct OverviewAllTime {
    pub total_rounds: i64,
    pub total_applicants: i64,
    pub confirmed: i64,
    pub abandoned: i64,
}

/// The dashboard.
#[derive(Debug, Clone)]
pub struct OverviewResponse {
    pub server_addr: String,
    pub version: String,
    pub round: Option<OverviewRound>,
    pub classes: Vec<OverviewClass>,
    pub universities: Vec<OverviewUniversity>,
    pub all_time: OverviewAllTime,
}

/// One row of the university–track join (a university without tracks gives one
/// row with no track), ordered by university then track.
#[derive(Debug, Clone)]
pub struct UnivTrackRow {
    pub univ_id: i64,
    pub univ_name: String,
    pub total_quota: Option<i64>,
    pub track_id: Option<i64>,
    pub track_name: Option<String>,
    pub unit_quota: Option<i64>,
    pub applicants: i64,
}

/// A track as plain values: id, name, quota, applicants.
pub type TrackView = (i64, Seq<char>, Option<i64>, i64);

/// A university as plain values: id, name, quota, tracks.
pub type UnivView = (i64, Seq<char>, Option<i64>, Seq<TrackView>);

/// The plain view of a track.
pub open spec fn track_view(t: OverviewTrack) -> TrackView {
    (t.track_id, t.track_name@, t.unit_quota, t.applicants)
}

/// The plain view of a university.
pub open spec fn univ_view(u: OverviewUniversity) -> UnivView {
    (u.univ_id, u.univ_name@, u.total_quota, u.tracks@.map_values(|t: OverviewTrack| track_view(t)))
}

/// The plain view of a list of universities.
pub open spec fn univs_view(us: Seq<OverviewUniversity>) -> Seq<UnivView> {
    us.map_values(|u: OverviewUniversity| univ_view(u))
}

/// Rows folded into universities: a row opens a new university unless it continues
/// the last one, and a row with a track adds that track to the last university.
pub open spec fn grouped(rows: Seq<UnivTrackRow>) -> Seq<UnivView>
    decreases rows.len(),
{
    if rows.len() == 0 {
        Seq::empty()
    } else {
        let g = grouped(rows.drop_last());
        let r = rows.last();
        let g2 = if g.len() > 0 && g.last().0 == r.univ_id {
            g
        } else {
            g.push((r.univ_id, r.univ_name@, r.total_quota, Seq::empty()))
        };
        match (r.track_id, r.track_name) {
            (Some(t), Some(n)) => {
                let u = g2.last();
                g2.update(g2.len() - 1, (u.0, u.1, u.2, u.3.push((t, n@, r.unit_quota, r.applicants))))
            },
            _ => g2,
        }
    }
}

/// Folds the joined rows into universities with their tracks, in row order.
pub fn group_universities(rows: &Vec<UnivTrackRow>) -> (r: Vec<OverviewUniversity>)
    ensures
        univs_view(r@) == grouped(rows@),
{
    let mut out: Vec<OverviewUniversity> = Vec::new();
    let mut i: usize = 0;
    while i < rows.len()
        invariant
            i <= rows@.len(),
            univs_view(out@) == grouped(rows@.take(i as int)),
        decreases rows@.len() - i,
    {
        let row = &rows[i];
        let ghost before = out@;
        assert(rows@.take(i + 1).drop_last() =~= rows@.take(i as int));
        assert(rows@.take(i + 1).last() == rows@[i as int]);
        let continues = out.len() > 0 && out[out.len() - 1].univ_id == row.univ_id;
        if !continues {
            let tracks: Vec<OverviewTrack> = Vec::new();
            let name = row.univ_name.clone();
            let u = OverviewUniversity { univ_id: row.univ_id, univ_name: name, total_quota: row.total_quota, tracks };
            assert(univ_view(u) =~= (row.univ_id, row.univ_name@, row.total_quota, Seq::<TrackView>::empty()));
            out.push(u);
            assert(univs_view(out@) =~= univs_view(before).push((row.univ_id, row.univ_name@, row.total_quota, Seq::empty())));
        }
        let ghost mid = out@;
        match (&row.track_id, &row.track_name) {
            (Some(t), Some(n)) => {
                let mut last = out.pop().unwrap();
                let ghost lv = univ_view(last);
                last.tracks.push(OverviewTrack {
                    track_id: *t,
                    track_name: n.clone(),
                    unit_quota: row.unit_quota,
                    applicants: row.applicants,
                });
                assert(univ_view(last).3 =~= lv.3.push((*t, n@, row.unit_quota, row.applicants)));
                out.push(last);
                assert(univs_view(out@) =~= univs_view(mid).update(
                    univs_view(mid).len() - 1,
                    (lv.0, lv.1, lv.2, lv.3.push((*t, n@, row.unit_quota, row.applicants))),
                ));
            },
            _ => {},
        }
        i = i + 1;
    }
    assert(rows@.take(rows@.len() as int) =~= rows@);
    out
}

/// The dashboard from what the database gave: the round, the classes, the
/// university–track rows (folded by `group_universities`) and the totals.
pub fn get_overview(
    server_addr: String,
    version: String,
    round: Option<OverviewRound>,
    classes: Vec<OverviewClass>,
    univ_rows: &Vec<UnivTrackRow>,
    all_time: OverviewAllTime,
) -> (r: OverviewResponse)
    ensures
        r.server_addr == server_addr,
        r.version == version,
        r.round == round,
        r.classes == classes,
        univs_view(r.universities@) == grouped(univ_rows@),
        r.all_time == all_time,
{
    let universities = group_universities(univ_rows);
    OverviewResponse { server_addr, version, round, classes, universities, all_time }
}

} // verus!
