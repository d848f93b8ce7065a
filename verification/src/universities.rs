//! Universities and tracks: the checks on their creation, update and
//! deletion, and the quota statistics.
use vstd::prelude::*;
use crate::guards::{is_refusal, refuse, refuse_chars, Refusal};
use crate::text::{append_str, chars_of, i64_text, int_text, push_all, string_of, trim, trim_chars};

verus! {

/// A university to create. `total_quota`: absent or null = unlimited.
#[derive(Debug, Clone)]
pub struct CreateUnivBody {
    pub univ_name: String,
    pub total_quota: Option<Option<i64>>,
    pub prioritize_enrolled: bool,
}

/// Changes to a university; an absent field is left as it is, and a null
/// quota clears it.
#[derive(Debug, Clone)]
pub struct UpdateUnivBody {
    pub univ_name: Option<String>,
    pub total_quota: Option<Option<i64>>,
    pub prioritize_enrolled: Option<bool>,
}

/// A track to create.
#[derive(Debug, Clone)]
pub struct CreateTrackBody {
    pub track_name: String,
    pub unit_quota: Option<Option<i64>>,
    pub prioritize_enrolled: bool,
}

/// Changes to a track.
#[derive(Debug, Clone)]
pub struct UpdateTrackBody {
    pub track_name: Option<String>,
    pub unit_quota: Option<Option<i64>>,
    pub prioritize_enrolled: Option<bool>,
}

/// The values to store for a new university or track: the trimmed name, the
/// quota (`None` = unlimited) and the flag as `0`/`1`.
#[derive(Debug, Clone)]
pub struct NewEntity {
    pub name: String,
    pub quota: Option<i64>,
    pub prioritize: i64,
}

fn flatten(q: Option<Option<i64>>) -> (r: Option<i64>)
    ensures
        r == match q {
            Some(Some(v)) => Some(v),
            _ => None::<i64>,
        },
{
    match q {
        Some(Some(v)) => Some(v),
        _ => None,
    }
}

/// Checks a new university: the name is required (trimmed).
pub fn check_create_univ(body: &CreateUnivBody) -> (r: Result<NewEntity, Refusal>)
    ensures
        trim(body.univ_name@).len() == 0 ==> is_refusal(r, 400, "대학명은 필수입니다"@),
        trim(body.univ_name@).len() > 0 ==> (r matches Ok(e) && e.name@ == trim(body.univ_name@) && e.quota == match body.total_quota {
            Some(Some(v)) => Some(v),
            _ => None::<i64>,
        } && e.prioritize == if body.prioritize_enrolled { 1i64 } else { 0i64 }),
{
    let name = trim_chars(&chars_of(body.univ_name.as_str()));
    if name.len() == 0 {
        return Err(refuse(400, "대학명은 필수입니다"));
    }
    Ok(NewEntity { name: string_of(&name), quota: flatten(body.total_quota), prioritize: if body.prioritize_enrolled { 1 } else { 0 } })
}

/// Checks a new track: the name is required (trimmed). The flag check
/// against the university is `check_track_prioritize`.
pub fn check_create_track(body: &CreateTrackBody) -> (r: Result<NewEntity, Refusal>)
    ensures
        trim(body.track_name@).len() == 0 ==> is_refusal(r, 400, "모집단위명은 필수입니다"@),
        trim(body.track_name@).len() > 0 ==> (r matches Ok(e) && e.name@ == trim(body.track_name@) && e.quota == match body.unit_quota {
            Some(Some(v)) => Some(v),
            _ => None::<i64>,
        } && e.prioritize == if body.prioritize_enrolled { 1i64 } else { 0i64 }),
{
    let name = trim_chars(&chars_of(body.track_name.as_str()));
    if name.len() == 0 {
        return Err(refuse(400, "모집단위명은 필수입니다"));
    }
    Ok(NewEntity { name: string_of(&name), quota: flatten(body.unit_quota), prioritize: if body.prioritize_enrolled { 1 } else { 0 } })
}

/// Checks a university update: something must change, and a given name may not be blank.
pub fn check_update_univ(body: &UpdateUnivBody) -> (r: Result<(), Refusal>)
    ensures
        body.univ_name is None && body.total_quota is None && body.prioritize_enrolled is None ==> is_refusal(
            r,
            400,
            "수정할 내용이 없습니다"@,
        ),
        !(body.univ_name is None && body.total_quota is None && body.prioritize_enrolled is None) ==> match body.univ_name {
            Some(n) if trim(n@).len() == 0 => is_refusal(r, 400, "대학명은 필수입니다"@),
            _ => r is Ok,
        },
{
    if body.univ_name.is_none() && body.total_quota.is_none() && body.prioritize_enrolled.is_none() {
        return Err(refuse(400, "수정할 내용이 없습니다"));
    }
    match &body.univ_name {
        Some(n) => {
            if trim_chars(&chars_of(n.as_str())).len() == 0 {
                return Err(refuse(400, "대학명은 필수입니다"));
            }
        },
        None => {},
    }
    Ok(())
}

/// Checks a track update: something must change, and a given name may not be blank.
pub fn check_update_track(body: &UpdateTrackBody) -> (r: Result<(), Refusal>)
    ensures
        body.track_name is None && body.unit_quota is None && body.prioritize_enrolled is None ==> is_refusal(
            r,
            400,
            "수정할 내용이 없습니다"@,
        ),
        !(body.track_name is None && body.unit_quota is None && body.prioritize_enrolled is None) ==> match body.track_name {
            Some(n) if trim(n@).len() == 0 => is_refusal(r, 400, "모집단위명은 필수입니다"@),
            _ => r is Ok,
        },
{
    if body.track_name.is_none() && body.unit_quota.is_none() && body.prioritize_enrolled.is_none() {
        return Err(refuse(400, "수정할 내용이 없습니다"));
    }
    match &body.track_name {
        Some(n) => {
            if trim_chars(&chars_of(n.as_str())).len() == 0 {
                return Err(refuse(400, "모집단위명은 필수입니다"));
            }
        },
        None => {},
    }
    Ok(())
}

/// The tracks of an enrolled-first university must be enrolled-first too:
/// a new track (`updating == false`) or an update may not set the flag off
/// under such a university.
pub fn check_track_prioritize(track_prioritize: bool, univ_prioritize: bool, updating: bool) -> (r: Result<(), Refusal>)
    ensures
        track_prioritize || !univ_prioritize ==> r is Ok,
        !track_prioritize && univ_prioritize && !updating ==> is_refusal(
            r,
            400,
            "재학생 우선 대학의 모집단위는 재학생 우선이어야 합니다"@,
        ),
        !track_prioritize && univ_prioritize && updating ==> is_refusal(
            r,
            400,
            "재학생 우선 대학의 모집단위는 재학생 우선을 해제할 수 없습니다"@,
        ),
{
    if !track_prioritize && univ_prioritize {
        if updating {
            return Err(refuse(400, "재학생 우선 대학의 모집단위는 재학생 우선을 해제할 수 없습니다"));
        }
        return Err(refuse(400, "재학생 우선 대학의 모집단위는 재학생 우선이어야 합니다"));
    }
    Ok(())
}

/// A university or track with applications cannot be deleted (409).
pub fn check_deletable(app_count: i64, is_track: bool) -> (r: Result<(), Refusal>)
    ensures
        app_count <= 0 ==> r is Ok,
        app_count > 0 ==> is_refusal(
            r,
            409,
            "지원 기록 "@ + int_text(app_count as int) + (if is_track {
                "건이 있어 모집단위를 삭제할 수 없습니다."@
            } else {
                "건이 있어 대학을 삭제할 수 없습니다."@
            }),
        ),
{
    if app_count > 0 {
        let mut v = chars_of("지원 기록 ");
        push_all(&mut v, &i64_text(app_count));
        if is_track {
            append_str(&mut v, "건이 있어 모집단위를 삭제할 수 없습니다.");
        } else {
            append_str(&mut v, "건이 있어 대학을 삭제할 수 없습니다.");
        }
        return Err(refuse_chars(409, &v));
    }
    Ok(())
}

/// The labels of closed rounds: `"<id>차"`.
pub open spec fn round_label(id: i64) -> Seq<char> {
    int_text(id as int) + "차"@
}

/// The labels of rounds `0..n`, joined by `", "`.
pub open spec fn joined_labels(ids: Seq<i64>, n: int) -> Seq<char>
    decreases n,
{
    if n <= 0 {
        Seq::empty()
    } else if n == 1 {
        round_label(ids[0])
    } else {
        joined_labels(ids, n - 1) + ", "@ + round_label(ids[n - 1])
    }
}

/// The labels of the given rounds.
pub fn round_labels(ids: &Vec<i64>) -> (r: Vec<String>)
    ensures
        r@.len() == ids@.len(),
        forall|i: int| 0 <= i < ids@.len() ==> (#[trigger] r@[i])@ == round_label(ids@[i]),
{
    let mut r: Vec<String> = Vec::new();
    let mut i: usize = 0;
    while i < ids.len()
        invariant
            i <= ids@.len(),
            r@.len() == i,
            forall|j: int| 0 <= j < i ==> (#[trigger] r@[j])@ == round_label(ids@[j]),
        decreases ids@.len() - i,
    {
        let mut v = i64_text(ids[i]);
        append_str(&mut v, "차");
        r.push(string_of(&v));
        i = i + 1;
    }
    r
}

/// The message refusing an enrolled-first change while rounds are closed.
pub open spec fn prioritize_blocked_text(ids: Seq<i64>) -> Seq<char> {
    "마감된 라운드("@ + joined_labels(ids, ids.len() as int)
        + ")가 있어 재학생 우선 설정을 바꿀 수 없습니다. 저장된 대학 순위는 마감 시점 기준이므로 설정만 바꾸면 순위와 어긋납니다. 변경하려면 해당 라운드를 다시 열고(재오픈) 설정을 바꾼 뒤 다시 마감하세요 (마감 시 순위가 재계산됩니다). 정원 변경은 지금도 가능합니다."@
}

/// While any round is closed (`closed_ids`, in id order), an enrolled-first
/// flag may not change: the stored university rankings were computed with
/// the old flags.
pub fn check_prioritize_change(closed_ids: &Vec<i64>) -> (r: Result<(), Refusal>)
    ensures
        closed_ids@.len() == 0 ==> r is Ok,
        closed_ids@.len() > 0 ==> is_refusal(r, 409, prioritize_blocked_text(closed_ids@)),
{
    if closed_ids.len() == 0 {
        return Ok(());
    }
    let mut v = chars_of("마감된 라운드(");
    let ghost start = v@;
    let mut i: usize = 0;
    while i < closed_ids.len()
        invariant
            i <= closed_ids@.len(),
            v@ == start + joined_labels(closed_ids@, i as int),
        decreases closed_ids@.len() - i,
    {
        if i > 0 {
            append_str(&mut v, ", ");
        }
        push_all(&mut v, &i64_text(closed_ids[i]));
        append_str(&mut v, "차");
        i = i + 1;
        assert(v@ =~= start + joined_labels(closed_ids@, i as int));
    }
    append_str(
        &mut v,
        ")가 있어 재학생 우선 설정을 바꿀 수 없습니다. 저장된 대학 순위는 마감 시점 기준이므로 설정만 바꾸면 순위와 어긋납니다. 변경하려면 해당 라운드를 다시 열고(재오픈) 설정을 바꾼 뒤 다시 마감하세요 (마감 시 순위가 재계산됩니다). 정원 변경은 지금도 가능합니다.",
    );
    Err(refuse_chars(409, &v))
}

/// A track with its university, as listed.
#[derive(Debug, Clone)]
pub struct TrackWithUnivRow {
    pub id: i64,
    pub univ_id: i64,
    pub univ_name: String,
    pub total_quota: Option<i64>,
    pub track_name: String,
    pub unit_quota: Option<i64>,
    pub prioritize_enrolled: i64,
}

/// A recommended applicant of a track, as listed.
#[derive(Debug, Clone)]
pub struct RecommendedEntry {
    pub round_id: i64,
    pub student_id: i64,
    pub student_code: String,
    pub name: String,
    pub grade: Option<i64>,
    pub class_no: Option<i64>,
    pub seq_no: Option<i64>,
    pub is_enrolled: bool,
    pub abandoned: bool,
    pub ranking: Option<i64>,
}

/// The university filter of the quota statistics export.
#[derive(Debug, Clone, Copy)]
pub struct ExportQuotaQuery {
    pub univ_id: Option<i64>,
}

/// A university for the quota statistics.
#[derive(Debug, Clone)]
pub struct UnivBasic {
    pub id: i64,
    pub univ_name: String,
    pub total_quota: Option<i64>,
}

/// A track with the recommendations counted against its quota.
#[derive(Debug, Clone)]
pub struct TrackUsage {
    pub id: i64,
    pub univ_id: i64,
    pub track_name: String,
    pub unit_quota: Option<i64>,
    pub unit_used: i64,
}

/// The recommendations of one track in one round.
#[derive(Debug, Clone, Copy)]
pub struct TrackRoundCount {
    pub track_id: i64,
    pub round_id: i64,
    pub count: i64,
}

/// Recommendations in one round.
#[derive(Debug, Clone, Copy, PartialEq, Eq)]
pub struct RoundCount {
    pub round_id: i64,
    pub count: i64,
}

/// A track's quota and use, round by round.
#[derive(Debug, Clone)]
pub struct TrackStat {
    pub track_id: i64,
    pub track_name: String,
    pub unit_quota: Option<i64>,
    pub unit_used: i64,
    pub by_round: Vec<RoundCount>,
}

/// A university's quota and use, with its tracks.
#[derive(Debug, Clone)]
pub struct UnivStat {
    pub univ_id: i64,
    pub univ_name: String,
    pub total_quota: Option<i64>,
    pub total_used: i64,
    pub tracks: Vec<TrackStat>,
}

/// The quota statistics: every round with recommendations, and every university.
#[derive(Debug, Clone)]
pub struct QuotaStatsResponse {
    pub all_round_ids: Vec<i64>,
    pub univs: Vec<UnivStat>,
}

/// The per-round counts of track `tid` among rows `0..n`, in row order.
pub open spec fn counts_of(rows: Seq<TrackRoundCount>, tid: i64, n: int) -> Seq<(i64, i64)>
    decreases n,
{
    if n <= 0 {
        Seq::empty()
    } else if rows[n - 1].track_id == tid {
        counts_of(rows, tid, n - 1).push((rows[n - 1].round_id, rows[n - 1].count))
    } else {
        counts_of(rows, tid, n - 1)
    }
}

/// Row `k` repeats the id of an earlier track (such a row gets no round counts).
pub open spec fn track_repeated(tracks: Seq<TrackUsage>, k: int) -> bool {
    exists|j: int| 0 <= j < k && (#[trigger] tracks[j]).id == tracks[k].id
}

/// A track statistic as plain values.
pub open spec fn track_stat_view(t: TrackStat) -> (i64, Seq<char>, Option<i64>, i64, Seq<(i64, i64)>) {
    (t.track_id, t.track_name@, t.unit_quota, t.unit_used, t.by_round@.map_values(|c: RoundCount| (c.round_id, c.count)))
}

/// The statistic of track row `k`.
pub open spec fn expected_track(tracks: Seq<TrackUsage>, rounds: Seq<TrackRoundCount>, k: int) -> (
    i64,
    Seq<char>,
    Option<i64>,
    i64,
    Seq<(i64, i64)>,
) {
    let t = tracks[k];
    (
        t.id,
        t.track_name@,
        t.unit_quota,
        t.unit_used,
        if track_repeated(tracks, k) {
            Seq::empty()
        } else {
            counts_of(rounds, t.id, rounds.len() as int)
        },
    )
}

/// The track statistics of university `uid` among track rows `0..n`.
pub open spec fn tracks_of(tracks: Seq<TrackUsage>, rounds: Seq<TrackRoundCount>, uid: i64, n: int) -> Seq<
    (i64, Seq<char>, Option<i64>, i64, Seq<(i64, i64)>),
>
    decreases n,
{
    if n <= 0 {
        Seq::empty()
    } else if tracks[n - 1].univ_id == uid {
        tracks_of(tracks, rounds, uid, n - 1).push(expected_track(tracks, rounds, n - 1))
    } else {
        tracks_of(tracks, rounds, uid, n - 1)
    }
}

/// The sum of the uses of track rows `0..n` of university `uid`.
pub open spec fn used_of(tracks: Seq<TrackUsage>, uid: i64, n: int) -> int
    decreases n,
{
    if n <= 0 {
        0
    } else if tracks[n - 1].univ_id == uid {
        used_of(tracks, uid, n - 1) + tracks[n - 1].unit_used
    } else {
        used_of(tracks, uid, n - 1)
    }
}

/// University row `k` repeats the id of an earlier one (it gets no tracks).
pub open spec fn univ_repeated(univs: Seq<UnivBasic>, k: int) -> bool {
    exists|j: int| 0 <= j < k && (#[trigger] univs[j]).id == univs[k].id
}

/// The statistic of university row `k` as plain values.
pub open spec fn expected_univ(
    univs: Seq<UnivBasic>,
    tracks: Seq<TrackUsage>,
    rounds: Seq<TrackRoundCount>,
    k: int,
) -> (i64, Seq<char>, Option<i64>, int, Seq<(i64, Seq<char>, Option<i64>, i64, Seq<(i64, i64)>)>) {
    let u = univs[k];
    if univ_repeated(univs, k) {
        (u.id, u.univ_name@, u.total_quota, 0, Seq::empty())
    } else {
        (u.id, u.univ_name@, u.total_quota, used_of(tracks, u.id, tracks.len() as int), tracks_of(tracks, rounds, u.id, tracks.len() as int))
    }
}

pub open spec fn univ_stat_view(u: UnivStat) -> (i64, Seq<char>, Option<i64>, int, Seq<(i64, Seq<char>, Option<i64>, i64, Seq<(i64, i64)>)>) {
    (u.univ_id, u.univ_name@, u.total_quota, u.total_used as int, u.tracks@.map_values(|t: TrackStat| track_stat_view(t)))
}

/// The uses are counts, and all of them together fit in `i64`.
pub open spec fn usage_fits(tracks: Seq<TrackUsage>, n: int) -> bool
    decreases n,
{
    if n <= 0 {
        true
    } else {
        usage_fits(tracks, n - 1) && tracks[n - 1].unit_used >= 0
    }
}

/// The total of the uses of rows `0..n`.
pub open spec fn usage_total(tracks: Seq<TrackUsage>, n: int) -> int
    decreases n,
{
    if n <= 0 {
        0
    } else {
        usage_total(tracks, n - 1) + tracks[n - 1].unit_used
    }
}

proof fn lemma_used_bounds(tracks: Seq<TrackUsage>, uid: i64, n: int)
    requires
        0 <= n <= tracks.len(),
        usage_fits(tracks, n),
    ensures
        0 <= used_of(tracks, uid, n) <= usage_total(tracks, n),
        usage_total(tracks, n) >= 0,
    decreases n,
{
    if n > 0 {
        lemma_used_bounds(tracks, uid, n - 1);
    }
}

proof fn lemma_usage_prefix(tracks: Seq<TrackUsage>, m: int, n: int)
    requires
        0 <= m <= n <= tracks.len(),
        usage_fits(tracks, n),
    ensures
        usage_fits(tracks, m),
        usage_total(tracks, m) <= usage_total(tracks, n),
    decreases n - m,
{
    if m < n {
        lemma_usage_prefix(tracks, m, n - 1);
    }
}

fn counts_of_exec(rounds: &Vec<TrackRoundCount>, tid: i64) -> (r: Vec<RoundCount>)
    ensures
        r@.map_values(|c: RoundCount| (c.round_id, c.count)) == counts_of(rounds@, tid, rounds@.len() as int),
{
    let mut r: Vec<RoundCount> = Vec::new();
    let mut i: usize = 0;
    while i < rounds.len()
        invariant
            i <= rounds@.len(),
            r@.map_values(|c: RoundCount| (c.round_id, c.count)) == counts_of(rounds@, tid, i as int),
        decreases rounds@.len() - i,
    {
        let row = rounds[i];
        if row.track_id == tid {
            let ghost before = r@.map_values(|c: RoundCount| (c.round_id, c.count));
            r.push(RoundCount { round_id: row.round_id, count: row.count });
            assert(r@.map_values(|c: RoundCount| (c.round_id, c.count)) =~= before.push((row.round_id, row.count)));
        }
        i = i + 1;
    }
    r
}

fn repeated_before_track(tracks: &Vec<TrackUsage>, k: usize) -> (r: bool)
    requires
        k < tracks@.len(),
    ensures
        r == track_repeated(tracks@, k as int),
{
    let mut j: usize = 0;
    while j < k
        invariant
            j <= k < tracks@.len(),
            forall|i: int| 0 <= i < j ==> (#[trigger] tracks@[i]).id != tracks@[k as int].id,
        decreases k - j,
    {
        if tracks[j].id == tracks[k].id {
            return true;
        }
        j = j + 1;
    }
    false
}

fn repeated_before_univ(univs: &Vec<UnivBasic>, k: usize) -> (r: bool)
    requires
        k < univs@.len(),
    ensures
        r == univ_repeated(univs@, k as int),
{
    let mut j: usize = 0;
    while j < k
        invariant
            j <= k < univs@.len(),
            forall|i: int| 0 <= i < j ==> (#[trigger] univs@[i]).id != univs@[k as int].id,
        decreases k - j,
    {
        if univs[j].id == univs[k].id {
            return true;
        }
        j = j + 1;
    }
    false
}

/// Round `y` has recommendations among rows `0..n`.
pub open spec fn has_round(rounds: Seq<TrackRoundCount>, y: i64, n: int) -> bool {
    exists|i: int| 0 <= i < n && (#[trigger] rounds[i]).round_id == y
}

/// The round ids with recommendations, in increasing order, each once.
pub open spec fn round_ids_ok(rounds: Seq<TrackRoundCount>, ids: Seq<i64>) -> bool {
    &&& forall|a: int, b: int| 0 <= a < b < ids.len() ==> ids[a] < ids[b]
    &&& forall|y: i64| #[trigger] ids.contains(y) <==> has_round(rounds, y, rounds.len() as int)
}

fn insert_id(ids: &mut Vec<i64>, x: i64)
    requires
        forall|a: int, b: int| 0 <= a < b < old(ids)@.len() ==> old(ids)@[a] < old(ids)@[b],
    ensures
        forall|a: int, b: int| 0 <= a < b < final(ids)@.len() ==> final(ids)@[a] < final(ids)@[b],
        forall|y: i64| #[trigger] final(ids)@.contains(y) <==> old(ids)@.contains(y) || y == x,
{
    let ghost old_ids = ids@;
    let mut p: usize = 0;
    while p < ids.len() && ids[p] < x
        invariant
            ids@ == old_ids,
            p <= ids@.len(),
            forall|a: int| 0 <= a < p ==> ids@[a] < x,
        decreases ids@.len() - p,
    {
        p = p + 1;
    }
    if p < ids.len() && ids[p] == x {
        assert(ids@.contains(x)) by {
            assert(ids@[p as int] == x);
        }
        return;
    }
    ids.insert(p, x);
    assert forall|a: int, b: int| 0 <= a < b < ids@.len() implies ids@[a] < ids@[b] by {
        if a < p && b == p {
        } else if a < p && b > p {
            assert(ids@[b] == old_ids[b - 1]);
            assert(old_ids[a] < old_ids[b - 1]);
        } else if a == p && b > p {
            assert(ids@[b] == old_ids[b - 1]);
            if b - 1 > p {
                assert(old_ids[p as int] < old_ids[b - 1]);
            }
        } else if a > p {
            assert(ids@[a] == old_ids[a - 1] && ids@[b] == old_ids[b - 1]);
        } else {
            assert(ids@[a] == old_ids[a] && ids@[b] == old_ids[b]);
        }
    }
    assert forall|y: i64| #[trigger] ids@.contains(y) <==> old_ids.contains(y) || y == x by {
        if ids@.contains(y) {
            let k = choose|k: int| 0 <= k < ids@.len() && ids@[k] == y;
            if k < p {
                assert(old_ids[k] == y);
            } else if k > p {
                assert(old_ids[k - 1] == y);
            }
        }
        if old_ids.contains(y) {
            let k = choose|k: int| 0 <= k < old_ids.len() && old_ids[k] == y;
            if k < p {
                assert(ids@[k] == y);
            } else {
                assert(ids@[k + 1] == y);
            }
        }
        if y == x {
            assert(ids@[p as int] == y);
        }
    }
}

fn sorted_round_ids(rounds: &Vec<TrackRoundCount>) -> (r: Vec<i64>)
    ensures
        round_ids_ok(rounds@, r@),
{
    let mut ids: Vec<i64> = Vec::new();
    let mut i: usize = 0;
    while i < rounds.len()
        invariant
            i <= rounds@.len(),
            forall|a: int, b: int| 0 <= a < b < ids@.len() ==> ids@[a] < ids@[b],
            forall|y: i64| #[trigger] ids@.contains(y) <==> has_round(rounds@, y, i as int),
        decreases rounds@.len() - i,
    {
        let x = rounds[i].round_id;
        insert_id(&mut ids, x);
        assert forall|y: i64| #[trigger] ids@.contains(y) <==> has_round(rounds@, y, i + 1) by {
            if has_round(rounds@, y, i + 1) {
                let j = choose|j: int| 0 <= j < i + 1 && (#[trigger] rounds@[j]).round_id == y;
                if j < i {
                    assert(has_round(rounds@, y, i as int));
                }
            }
            if has_round(rounds@, y, i as int) {
                let j = choose|j: int| 0 <= j < i && (#[trigger] rounds@[j]).round_id == y;
                assert(has_round(rounds@, y, i + 1));
            }
            if y == x {
                assert(rounds@[i as int].round_id == y);
            }
        }
        i = i + 1;
    }
    ids
}

/// Assembles the quota statistics: the round ids with recommendations (each
/// once, increasing); every university in the given order with its tracks
/// in the given order, each track with its per-round counts in the given
/// order; a university's use is the sum of its tracks' uses.
pub fn build_quota_stats(
    univs: &Vec<UnivBasic>,
    tracks: &Vec<TrackUsage>,
    rounds: &Vec<TrackRoundCount>,
) -> (r: QuotaStatsResponse)
    requires
        usage_fits(tracks@, tracks@.len() as int),
        usage_total(tracks@, tracks@.len() as int) <= i64::MAX,
    ensures
        round_ids_ok(rounds@, r.all_round_ids@),
        r.univs@.len() == univs@.len(),
        forall|k: int| 0 <= k < univs@.len() ==> univ_stat_view(#[trigger] r.univs@[k]) == expected_univ(univs@, tracks@, rounds@, k),
{
    let all_round_ids = sorted_round_ids(rounds);
    let mut out: Vec<UnivStat> = Vec::new();
    let mut k: usize = 0;
    while k < univs.len()
        invariant
            usage_fits(tracks@, tracks@.len() as int),
            usage_total(tracks@, tracks@.len() as int) <= i64::MAX,
            k <= univs@.len(),
            out@.len() == k,
            forall|j: int| 0 <= j < k ==> univ_stat_view(#[trigger] out@[j]) == expected_univ(univs@, tracks@, rounds@, j),
        decreases univs@.len() - k,
    {
        let u = &univs[k];
        let mut ts: Vec<TrackStat> = Vec::new();
        let mut total: i64 = 0;
        if !repeated_before_univ(univs, k) {
            let mut i: usize = 0;
            while i < tracks.len()
                invariant
                    usage_fits(tracks@, tracks@.len() as int),
                    usage_total(tracks@, tracks@.len() as int) <= i64::MAX,
                    i <= tracks@.len(),
                    total == used_of(tracks@, u.id, i as int),
                    ts@.map_values(|t: TrackStat| track_stat_view(t)) == tracks_of(tracks@, rounds@, u.id, i as int),
                decreases tracks@.len() - i,
            {
                let t = &tracks[i];
                if t.univ_id == u.id {
                    proof {
                        lemma_usage_prefix(tracks@, i + 1, tracks@.len() as int);
                        lemma_used_bounds(tracks@, u.id, i + 1);
                    }
                    let by_round = if repeated_before_track(tracks, i) {
                        Vec::new()
                    } else {
                        counts_of_exec(rounds, t.id)
                    };
                    let ghost before = ts@.map_values(|x: TrackStat| track_stat_view(x));
                    let ghost brv = by_round@.map_values(|c: RoundCount| (c.round_id, c.count));
                    assert(brv == expected_track(tracks@, rounds@, i as int).4);
                    ts.push(
                        TrackStat {
                            track_id: t.id,
                            track_name: t.track_name.clone(),
                            unit_quota: t.unit_quota,
                            unit_used: t.unit_used,
                            by_round,
                        },
                    );
                    assert(ts@.map_values(|x: TrackStat| track_stat_view(x)) =~= before.push(
                        expected_track(tracks@, rounds@, i as int),
                    ));
                    total = total + t.unit_used;
                }
                i = i + 1;
            }
        } else {
            assert(ts@.map_values(|x: TrackStat| track_stat_view(x)) =~= Seq::<(i64, Seq<char>, Option<i64>, i64, Seq<(i64, i64)>)>::empty());
        }
        out.push(
            UnivStat { univ_id: u.id, univ_name: u.univ_name.clone(), total_quota: u.total_quota, total_used: total, tracks: ts },
        );
        k = k + 1;
    }
    QuotaStatsResponse { all_round_ids, univs: out }
}

/// The sum of the uses of a list of track statistics.
pub open spec fn stats_used(ts: Seq<(i64, Seq<char>, Option<i64>, i64, Seq<(i64, i64)>)>) -> int
    decreases ts.len(),
{
    if ts.len() == 0 {
        0
    } else {
        stats_used(ts.drop_last()) + ts.last().3
    }
}

/// Track row `j` is listed in the track statistics `l`, with its use.
pub open spec fn listed(l: Seq<(i64, Seq<char>, Option<i64>, i64, Seq<(i64, i64)>)>, t: TrackUsage) -> bool {
    exists|k: int| 0 <= k < l.len() && (#[trigger] l[k]).0 == t.id && l[k].3 == t.unit_used
}

/// The track statistic `x` is of some track row among `0..n` of university `uid`.
pub open spec fn of_univ(tracks: Seq<TrackUsage>, uid: i64, n: int, x: (i64, Seq<char>, Option<i64>, i64, Seq<(i64, i64)>)) -> bool {
    exists|j: int| 0 <= j < n && (#[trigger] tracks[j]).univ_id == uid && x.0 == tracks[j].id && x.3 == tracks[j].unit_used
}

proof fn lemma_used_is_listed(tracks: Seq<TrackUsage>, rounds: Seq<TrackRoundCount>, uid: i64, n: int)
    requires
        0 <= n <= tracks.len(),
    ensures
        used_of(tracks, uid, n) == stats_used(tracks_of(tracks, rounds, uid, n)),
        forall|k: int| 0 <= k < tracks_of(tracks, rounds, uid, n).len() ==> of_univ(tracks, uid, n, #[trigger] tracks_of(tracks, rounds, uid, n)[k]),
        forall|j: int| 0 <= j < n && (#[trigger] tracks[j]).univ_id == uid ==> listed(tracks_of(tracks, rounds, uid, n), tracks[j]),
    decreases n,
{
    if n > 0 {
        lemma_used_is_listed(tracks, rounds, uid, n - 1);
        let prev = tracks_of(tracks, rounds, uid, n - 1);
        let cur = tracks_of(tracks, rounds, uid, n);
        if tracks[n - 1].univ_id == uid {
            assert(cur.drop_last() =~= prev);
            assert(cur.last() == expected_track(tracks, rounds, n - 1));
        } else {
            assert(cur == prev);
        }
        assert forall|k: int| 0 <= k < cur.len() implies of_univ(tracks, uid, n, #[trigger] cur[k]) by {
            if k < prev.len() {
                assert(cur[k] == prev[k]);
                assert(of_univ(tracks, uid, n - 1, prev[k]));
                let j = choose|j: int| 0 <= j < n - 1 && (#[trigger] tracks[j]).univ_id == uid && prev[k].0 == tracks[j].id
                    && prev[k].3 == tracks[j].unit_used;
                assert(tracks[j] == tracks[j]);
            } else {
                assert(cur[k] == expected_track(tracks, rounds, n - 1));
                assert(tracks[n - 1] == tracks[n - 1]);
            }
        }
        assert forall|j: int| 0 <= j < n && (#[trigger] tracks[j]).univ_id == uid implies listed(cur, tracks[j]) by {
            if j < n - 1 {
                assert(listed(prev, tracks[j]));
                let k = choose|k: int| 0 <= k < prev.len() && (#[trigger] prev[k]).0 == tracks[j].id && prev[k].3
                    == tracks[j].unit_used;
                assert(cur[k] == prev[k]);
            } else {
                assert(cur[prev.len() as int] == expected_track(tracks, rounds, n - 1));
            }
        }
    }
}

/// Law (a university's use is the sum of its tracks' uses): in the quota
/// statistics, the use reported for a university is the sum of the uses
/// reported for the tracks listed under it, and those are exactly its tracks:
/// each listed track is a track of the university with its use, and every
/// track of the university is listed.
pub proof fn law_university_use_sums_its_tracks(
    univs: Seq<UnivBasic>,
    tracks: Seq<TrackUsage>,
    rounds: Seq<TrackRoundCount>,
    k: int,
)
    requires
        0 <= k < univs.len(),
        !univ_repeated(univs, k),
    ensures
        ({
            let e = expected_univ(univs, tracks, rounds, k);
            &&& e.3 == stats_used(e.4)
            &&& forall|m: int| 0 <= m < e.4.len() ==> of_univ(tracks, univs[k].id, tracks.len() as int, #[trigger] e.4[m])
            &&& forall|j: int| 0 <= j < tracks.len() && (#[trigger] tracks[j]).univ_id == univs[k].id ==> listed(e.4, tracks[j])
        }),
{
    let e = expected_univ(univs, tracks, rounds, k);
    lemma_used_is_listed(tracks, rounds, univs[k].id, tracks.len() as int);
    assert(e.4 == tracks_of(tracks, rounds, univs[k].id, tracks.len() as int));
}

} // verus!
