//! The result lists: every result of a round for the administrator, and
//! the finalized results of a class for its teacher, with track ranks.
use vstd::prelude::*;
use crate::queries::{rank_window_text, track_rank_window};
use crate::results::ResultRow;
use crate::roster_sheet::{entries_view, parse_detail_json, score_detail_parse};
use crate::score::Score;
use crate::text::{append_str, chars_of, string_of};

verus! {

/// The track filter of the administrator's result list.
#[derive(Debug, Clone, Copy)]
pub struct ResultQuery {
    pub track_id: Option<i64>,
}

/// A round as listed with the teacher's results.
#[derive(Debug, Clone)]
pub struct RoundInfo {
    pub id: i64,
    pub status: String,
    pub opened_at: String,
    pub closed_at: Option<String>,
    pub finalized_at: Option<String>,
}

/// The teacher's results: every round, and the finalized results of the class.
#[derive(Debug, Clone)]
pub struct TeacherResultsResponse {
    pub rounds: Vec<RoundInfo>,
    pub results: Vec<ResultRow>,
}

/// The administrator's result list of a round (parameters: the round, then the
/// track filter twice), by track, rank (unranked last) and score.
pub open spec fn admin_results_sql_text() -> Seq<char> {
    "SELECT r.student_id, r.track_id, r.round_id,\n                r.total_score, r.score_detail, r.ranking, r.recommended,\n                COALESCE(a.abandoned, 0) AS abandoned,\n                COALESCE(a.excluded, 0) AS excluded, a.excluded_reason,\n                s.student_code, s.name, s.grade, s.class_no, s.seq_no, s.is_enrolled,\n                u.univ_name, ut.track_name,\n                COALESCE(a.department_name, '') AS department_name,\n                "@ + rank_window_text("r"@, "ut"@, "s"@, true) + "\n         FROM results r\n         JOIN students s ON r.student_id = s.id\n         JOIN univ_tracks ut ON r.track_id = ut.id\n         JOIN universities u ON ut.univ_id = u.id\n         LEFT JOIN applications a ON a.student_id = r.student_id\n                                  AND a.track_id  = r.track_id\n                                  AND a.round_id  = r.round_id\n         WHERE r.round_id = ?\n           AND (? IS NULL OR r.track_id = ?)\n         ORDER BY r.track_id, r.ranking NULLS LAST, r.total_score DESC"@
}

/// The administrator's result list query.
pub fn admin_results_sql() -> (q: String)
    ensures
        q@ == admin_results_sql_text(),
{
    let mut v = chars_of("SELECT r.student_id, r.track_id, r.round_id,\n                r.total_score, r.score_detail, r.ranking, r.recommended,\n                COALESCE(a.abandoned, 0) AS abandoned,\n                COALESCE(a.excluded, 0) AS excluded, a.excluded_reason,\n                s.student_code, s.name, s.grade, s.class_no, s.seq_no, s.is_enrolled,\n                u.univ_name, ut.track_name,\n                COALESCE(a.department_name, '') AS department_name,\n                ");
    let w = track_rank_window("r", "ut", "s", true);
    append_str(&mut v, w.as_str());
    append_str(&mut v, "\n         FROM results r\n         JOIN students s ON r.student_id = s.id\n         JOIN univ_tracks ut ON r.track_id = ut.id\n         JOIN universities u ON ut.univ_id = u.id\n         LEFT JOIN applications a ON a.student_id = r.student_id\n                                  AND a.track_id  = r.track_id\n                                  AND a.round_id  = r.round_id\n         WHERE r.round_id = ?\n           AND (? IS NULL OR r.track_id = ?)\n         ORDER BY r.track_id, r.ranking NULLS LAST, r.total_score DESC");
    string_of(&v)
}

/// The teacher's result list: finalized results with track ranks taken over
/// all finalized results; the graduates' teacher sees the graduates (by round,
/// code and track), a class teacher the class (parameters: grade, class; by
/// round, number and track).
pub open spec fn teacher_results_sql_text(graduates: bool) -> Seq<char> {
    "WITH tr AS (\n                 SELECT r2.student_id, r2.track_id, r2.round_id,\n                        "@ + rank_window_text("r2"@, "ut2"@, "s2"@, true) + "\n                 FROM results r2\n                 JOIN students s2    ON s2.id   = r2.student_id\n                 JOIN univ_tracks ut2 ON ut2.id = r2.track_id\n                 JOIN rounds rnd2    ON rnd2.id  = r2.round_id\n                 WHERE rnd2.status = 'FINALIZED'\n             )\n             SELECT r.student_id, r.track_id, r.round_id,\n                    r.total_score, r.score_detail, r.ranking, r.recommended,\n                    COALESCE(a.abandoned, 0) AS abandoned,\n                COALESCE(a.excluded, 0) AS excluded, a.excluded_reason,\n                    s.student_code, s.name, s.grade, s.class_no, s.seq_no, s.is_enrolled,\n                    u.univ_name, ut.track_name,\n                    COALESCE(a.department_name, '') AS department_name,\n                    tr.track_rank\n             FROM results r\n             JOIN students s ON r.student_id = s.id\n             JOIN univ_tracks ut ON r.track_id = ut.id\n             JOIN universities u ON ut.univ_id = u.id\n             JOIN rounds rnd ON rnd.id = r.round_id\n             LEFT JOIN applications a ON a.student_id = r.student_id\n                                      AND a.track_id  = r.track_id\n                                      AND a.round_id  = r.round_id\n             JOIN tr ON tr.student_id = r.student_id\n                     AND tr.track_id  = r.track_id\n                     AND tr.round_id  = r.round_id\n             WHERE rnd.status = 'FINALIZED'\n               AND s."@ + if graduates {
        "is_enrolled = 0\n             ORDER BY r.round_id, s.student_code, r.track_id"@
    } else {
        "grade = ?\n               AND s.class_no = ?\n             ORDER BY r.round_id, s.seq_no, r.track_id"@
    }
}

/// The teacher's result list query.
pub fn teacher_results_sql(graduates: bool) -> (q: String)
    ensures
        q@ == teacher_results_sql_text(graduates),
{
    let mut v = chars_of("WITH tr AS (\n                 SELECT r2.student_id, r2.track_id, r2.round_id,\n                        ");
    let w = track_rank_window("r2", "ut2", "s2", true);
    append_str(&mut v, w.as_str());
    append_str(&mut v, "\n                 FROM results r2\n                 JOIN students s2    ON s2.id   = r2.student_id\n                 JOIN univ_tracks ut2 ON ut2.id = r2.track_id\n                 JOIN rounds rnd2    ON rnd2.id  = r2.round_id\n                 WHERE rnd2.status = 'FINALIZED'\n             )\n             SELECT r.student_id, r.track_id, r.round_id,\n                    r.total_score, r.score_detail, r.ranking, r.recommended,\n                    COALESCE(a.abandoned, 0) AS abandoned,\n                COALESCE(a.excluded, 0) AS excluded, a.excluded_reason,\n                    s.student_code, s.name, s.grade, s.class_no, s.seq_no, s.is_enrolled,\n                    u.univ_name, ut.track_name,\n                    COALESCE(a.department_name, '') AS department_name,\n                    tr.track_rank\n             FROM results r\n             JOIN students s ON r.student_id = s.id\n             JOIN univ_tracks ut ON r.track_id = ut.id\n             JOIN universities u ON ut.univ_id = u.id\n             JOIN rounds rnd ON rnd.id = r.round_id\n             LEFT JOIN applications a ON a.student_id = r.student_id\n                                      AND a.track_id  = r.track_id\n                                      AND a.round_id  = r.round_id\n             JOIN tr ON tr.student_id = r.student_id\n                     AND tr.track_id  = r.track_id\n                     AND tr.round_id  = r.round_id\n             WHERE rnd.status = 'FINALIZED'\n               AND s.");
    if graduates {
        append_str(&mut v, "is_enrolled = 0\n             ORDER BY r.round_id, s.student_code, r.track_id");
    } else {
        append_str(&mut v, "grade = ?\n               AND s.class_no = ?\n             ORDER BY r.round_id, s.seq_no, r.track_id");
    }
    string_of(&v)
}

/// The message of a stored score detail that does not parse.
pub open spec fn detail_error_text(e: Seq<char>) -> Seq<char> {
    "score_detail JSON 파싱 실패: "@ + e
}

/// The scores of a stored score detail, by area id in ascending key order, as
/// the result list shows them; the parser's message where the text does not parse.
pub fn score_detail_scores(json: &str) -> (r: Result<Vec<(String, Score)>, String>)
    ensures
        match score_detail_parse(json@) {
            Ok(d) => r matches Ok(v) && v@.len() == d.len() && forall|k: int|
                0 <= k < d.len() ==> (#[trigger] v@[k]).0@ == d[k].0 && v@[k].1.0 == d[k].1,
            Err(e) => r matches Err(m) && m@ == detail_error_text(e),
        },
{
    match parse_detail_json(json) {
        Err(e) => {
            let mut m = chars_of("score_detail JSON 파싱 실패: ");
            append_str(&mut m, e.as_str());
            Err(string_of(&m))
        },
        Ok(d) => {
            let ghost dv = entries_view(d@);
            let mut v: Vec<(String, Score)> = Vec::new();
            let mut k: usize = 0;
            while k < d.len()
                invariant
                    k <= d@.len(),
                    dv == entries_view(d@),
                    v@.len() == k,
                    forall|j: int| 0 <= j < k ==> (#[trigger] v@[j]).0@ == dv[j].0 && v@[j].1.0 == dv[j].1,
                decreases d@.len() - k,
            {
                v.push((d[k].0.clone(), Score(d[k].1)));
                k = k + 1;
            }
            Ok(v)
        },
    }
}

} // verus!
