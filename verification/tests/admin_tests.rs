use pcm_core::app_info::{read_app_info, update_app_info, UpdateAppInfoBody};
use pcm_core::area_score::AreaTables;
use pcm_core::areas::{check_area_found, check_create_area, check_update_area, guard_no_closed_round, score_template_known, CreateAreaBody, UpdateAreaBody};
use pcm_core::enums::{CalcType, CategoryAgg, LookupScope, MatchMode};
use pcm_core::guards::{check_application_touched, check_own_student, check_track_switch};
use pcm_core::overview::{get_overview, group_universities, OverviewAllTime, UnivTrackRow};
use pcm_core::preview::{teacher_area_score_preview, AreaProps, AreaScorePreviewBody};
use pcm_core::roster::{grade_options, student_list_sql, ListQuery};
use pcm_core::score::Score;

fn s(v: &str) -> String {
    v.to_string()
}

#[test]
fn app_info_defaults_and_values() {
    let info = read_app_info(&vec![]);
    assert_eq!((info.title.as_str(), info.desc.as_str()), ("학교장 추천자", "선발 관리 시스템"));
    let info = read_app_info(&vec![(s("app_desc"), s("설명")), (s("app_title"), s("제목"))]);
    assert_eq!((info.title.as_str(), info.desc.as_str()), ("제목", "설명"));
}

#[test]
fn app_info_update_rules() {
    let ok = update_app_info(&UpdateAppInfoBody { title: s("  새 제목 "), desc: s(" 설명 ") }).unwrap();
    assert_eq!((ok.title.as_str(), ok.desc.as_str()), ("새 제목", "설명"));
    let e = update_app_info(&UpdateAppInfoBody { title: s("   "), desc: s("") }).unwrap_err();
    assert_eq!((e.status, e.message.as_str()), (400, "제목을 입력하세요"));
    let long: String = std::iter::repeat('가').take(41).collect();
    let e = update_app_info(&UpdateAppInfoBody { title: long, desc: s("") }).unwrap_err();
    assert_eq!(e.message, "제목은 40자 이하여야 합니다");
    let forty: String = std::iter::repeat('가').take(40).collect();
    assert!(update_app_info(&UpdateAppInfoBody { title: forty, desc: s("") }).is_ok());
    let long_desc: String = std::iter::repeat('a').take(61).collect();
    let e = update_app_info(&UpdateAppInfoBody { title: s("t"), desc: long_desc }).unwrap_err();
    assert_eq!(e.message, "설명은 60자 이하여야 합니다");
}

fn area(calc_type: CalcType, match_mode: Option<MatchMode>, category_agg: Option<CategoryAgg>) -> CreateAreaBody {
    CreateAreaBody {
        name: s("출결"),
        max_score: Score(1_000_000),
        calc_type,
        teacher_editable: true,
        lookup_scope: LookupScope::Simple,
        match_mode,
        category_agg,
        multi_value: true,
    }
}

#[test]
fn area_creation_rules() {
    assert_eq!(check_create_area(&area(CalcType::Category, None, Some(CategoryAgg::Sum))), Ok(true));
    assert_eq!(check_create_area(&area(CalcType::Category, None, Some(CategoryAgg::Max))), Ok(false));
    assert_eq!(check_create_area(&area(CalcType::Manual, None, None)), Ok(false));
    let e = check_create_area(&area(CalcType::Numeric, None, None)).unwrap_err();
    assert_eq!(e.message, "수치형 입력 전형요소는 구간 탐색 방향(UPPER/LOWER/EXACT)이 필수입니다");
    let e = check_create_area(&area(CalcType::Category, None, None)).unwrap_err();
    assert_eq!(e.message, "선택형 입력 전형요소는 복수 활동 처리 방식(SUM/MAX)이 필수입니다");
    let mut b = area(CalcType::Manual, None, None);
    b.max_score = Score(-1);
    assert_eq!(check_create_area(&b).unwrap_err().message, "만점은 0 이상이어야 합니다");
    b.name = s("  ");
    assert_eq!(check_create_area(&b).unwrap_err().message, "전형요소 이름은 필수입니다");
}

#[test]
fn area_update_and_delete_rules() {
    let e = check_update_area(&UpdateAreaBody { name: None, teacher_editable: None }).unwrap_err();
    assert_eq!(e.message, "수정할 내용이 없습니다");
    assert_eq!(check_update_area(&UpdateAreaBody { name: Some(s(" a ")), teacher_editable: None }), Ok(Some(s("a"))));
    assert_eq!(check_update_area(&UpdateAreaBody { name: None, teacher_editable: Some(true) }), Ok(None));
    let e = check_update_area(&UpdateAreaBody { name: Some(s(" ")), teacher_editable: Some(true) }).unwrap_err();
    assert_eq!(e.message, "전형요소 이름은 필수입니다");
    assert_eq!(guard_no_closed_round(1).unwrap_err().status, 409);
    assert!(guard_no_closed_round(0).is_ok());
    assert_eq!(check_area_found(false).unwrap_err().message, "전형요소를 찾을 수 없습니다");
    assert!(score_template_known("attendance"));
    assert!(!score_template_known("other"));
}

#[test]
fn application_guards() {
    assert_eq!(check_own_student(false, false).unwrap_err().message, "해당 학생은 담당 학급이 아닙니다");
    assert_eq!(check_own_student(false, true).unwrap_err().message, "해당 학생이 이 반 소속이 아닙니다");
    assert!(check_own_student(true, true).is_ok());
    assert_eq!(check_application_touched(0).unwrap_err().status, 404);
    assert!(check_track_switch(None, 5, true, false).is_ok());
    assert!(check_track_switch(Some(5), 5, true, false).is_ok());
    assert_eq!(check_track_switch(Some(4), 5, true, true).unwrap_err().status, 409);
    assert_eq!(check_track_switch(Some(4), 5, false, false).unwrap_err().message, "수정할 지원 내역을 찾을 수 없습니다");
    assert!(check_track_switch(Some(4), 5, false, true).is_ok());
}

fn urow(univ_id: i64, track: Option<(i64, &str)>, applicants: i64) -> UnivTrackRow {
    UnivTrackRow {
        univ_id,
        univ_name: format!("U{}", univ_id),
        total_quota: Some(3),
        track_id: track.map(|t| t.0),
        track_name: track.map(|t| t.1.to_string()),
        unit_quota: None,
        applicants,
    }
}

#[test]
fn overview_groups_tracks_under_universities() {
    let rows = vec![urow(1, Some((10, "a")), 2), urow(1, Some((11, "b")), 0), urow(2, None, 0), urow(3, Some((30, "c")), 5)];
    let us = group_universities(&rows);
    assert_eq!(us.len(), 3);
    assert_eq!(us[0].tracks.iter().map(|t| t.track_id).collect::<Vec<_>>(), vec![10, 11]);
    assert!(us[1].tracks.is_empty());
    assert_eq!((us[2].univ_id, us[2].tracks[0].applicants), (3, 5));
    let all = OverviewAllTime { total_rounds: 1, total_applicants: 7, confirmed: 0, abandoned: 0 };
    let o = get_overview(s("10.0.0.1:3000"), s("1.0"), None, vec![], &rows, all);
    assert_eq!(o.universities.len(), 3);
}

#[test]
fn grade_options_are_sorted_and_grouped() {
    let g = grade_options(&vec![(2, 1), (1, 3), (2, 4), (1, 1)]);
    assert_eq!(g.grades, vec![1, 2]);
    assert_eq!(g.by_grade, vec![(1, vec![3, 1]), (2, vec![1, 4])]);
    assert!(grade_options(&vec![]).grades.is_empty());
}

#[test]
fn student_list_queries() {
    let q = ListQuery { grade: Some(1), class_no: None, is_enrolled: Some(1), page: 1, per_page: 100 };
    let (count, page) = student_list_sql(&q);
    assert_eq!(count, "SELECT COUNT(*) FROM students WHERE 1=1 AND grade = ? AND is_enrolled = ?");
    assert!(page.ends_with(" AND grade = ? AND is_enrolled = ? ORDER BY is_enrolled DESC, grade, class_no, seq_no LIMIT ? OFFSET ?"));
}

fn tables() -> AreaTables {
    AreaTables {
        numeric_rows: vec![(0, 100_000), (5_000_000, 500_000)],
        numeric_common: vec![],
        category_rows: vec![(s("봉사"), 200_000), (s("수상"), 300_000)],
        category_common: vec![],
    }
}

fn props(calc_type: CalcType, max: i64) -> AreaProps {
    AreaProps {
        calc_type,
        max_score: max,
        lookup_scope: LookupScope::Simple,
        match_mode: Some(MatchMode::Upper),
        category_agg: Some(CategoryAgg::Sum),
    }
}

#[test]
fn preview_of_a_numeric_value() {
    let body = AreaScorePreviewBody { area_id: 1, track_id: 1, values: vec![s("60")] };
    let p = teacher_area_score_preview(&body, &props(CalcType::Numeric, 1_000_000), &tables());
    assert_eq!(p.score, Some(Score(500_000)));
    assert_eq!(p.matched_threshold, Some(5_000_000));
    assert!(p.warning.is_none() && p.error.is_none());
}

#[test]
fn preview_caps_and_warns() {
    let body = AreaScorePreviewBody { area_id: 1, track_id: 1, values: vec![s("봉사"), s("수상")] };
    let p = teacher_area_score_preview(&body, &props(CalcType::Category, 400_000), &tables());
    assert_eq!(p.score, Some(Score(400_000)));
    assert_eq!(p.matched_categories, vec![s("봉사"), s("수상")]);
    assert_eq!(p.warning.as_deref(), Some("계산된 점수가 만점을 초과하여 만점으로 처리됩니다"));
    let manual = AreaScorePreviewBody { area_id: 1, track_id: 1, values: vec![s("7")] };
    let p = teacher_area_score_preview(&manual, &props(CalcType::Manual, 500_000), &tables());
    assert_eq!(p.score, Some(Score(500_000)));
    assert_eq!(p.warning.as_deref(), Some("입력값이 만점을 초과하여 만점으로 처리됩니다"));
}

#[test]
fn preview_errors() {
    let empty = AreaScorePreviewBody { area_id: 1, track_id: 1, values: vec![] };
    let p = teacher_area_score_preview(&empty, &props(CalcType::Numeric, 1), &tables());
    assert_eq!(p.error.as_deref(), Some("값이 입력되지 않았습니다"));
    let bad = AreaScorePreviewBody { area_id: 1, track_id: 1, values: vec![s("abc")] };
    let p = teacher_area_score_preview(&bad, &props(CalcType::Numeric, 1), &tables());
    assert_eq!(p.error.as_deref(), Some("'abc' 숫자 변환 실패"));
    let unknown = AreaScorePreviewBody { area_id: 1, track_id: 1, values: vec![s("기타")] };
    let p = teacher_area_score_preview(&unknown, &props(CalcType::Category, 1), &tables());
    assert_eq!(p.error.as_deref(), Some("점수표에 없는 범주: 기타"));
    assert!(p.score.is_none());
}
