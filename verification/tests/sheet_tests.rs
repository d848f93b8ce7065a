use pcm_core::admin_sheets::{
    audit_export_grid, classes_export_grid, classes_template_grid, settings_export_grid, settings_template_grid,
};
use pcm_core::application::{validate_body, AreaInfo, BaseDataEntry, CreateApplicationBody};
use pcm_core::area_sheets::{
    base_export_grid, base_template_grid, category_export_grid, header_grid, threshold_export_grid, value_cell,
    BaseDataExportRow, CategoryExportRow, GraduateName, ThresholdExportRow, TrackName,
};
use pcm_core::audit::AuditRow;
use pcm_core::auto_recommend::{auto_recommend_response, ManualItem, ManualReason, TrackCount, TrackLabel};
use pcm_core::classes::ClassRow;
use pcm_core::enums::{CalcType, CategoryAgg, LookupScope};
use pcm_core::fill::TieBoundary;
use pcm_core::grids::{
    enrolled_export_grid, enrolled_template_grid, graduated_export_grid, graduated_template_grid, quota_export_grid,
    quota_export_stem, round_summary_grid, student_export_grid, student_template_grid, Cell, RoundSummaryRow,
};
use pcm_core::preview::score_preview_response;
use pcm_core::result_queries::{admin_results_sql, score_detail_scores, teacher_results_sql};
use pcm_core::roster::StudentRow;
use pcm_core::roster_sheet::{roster_grid, roster_sql, score_detail_json, AreaName, RosterRow};
use pcm_core::settings::{TrackRow, UnivRow};
use pcm_core::teacher_context::{area_context_item, shown_values, use_shared_table, ContextAreaRow};
use pcm_core::universities::{QuotaStatsResponse, RoundCount, TrackStat, UnivStat};

fn s(v: &str) -> String {
    v.to_string()
}

fn t(v: &str) -> Cell {
    Cell::Text(v.to_string())
}

fn student(code: &str, enrolled: bool, grade: Option<i64>, grad_year: Option<i64>) -> StudentRow {
    StudentRow {
        id: 1,
        student_code: s(code),
        name: s("홍길동"),
        grade,
        class_no: grade.map(|_| 2),
        seq_no: grade.map(|_| 7),
        is_enrolled: enrolled,
        grad_year,
    }
}

#[test]
fn student_template_has_sample_rows() {
    let g = student_template_grid();
    assert_eq!(g.len(), 3);
    assert_eq!(g[0], vec![t("학생코드"), t("이름"), t("재학여부"), t("학년"), t("반"), t("번호"), t("졸업연도")]);
    assert_eq!(g[1][0], t("20250001"));
    assert_eq!(g[1][2], Cell::Int(1));
    assert_eq!(g[1][6], Cell::Blank);
    assert_eq!(g[2][2], Cell::Int(0));
    assert_eq!(g[2][6], Cell::Int(2024));
}

#[test]
fn student_export_lists_each_student() {
    let rows = vec![student("20250001", true, Some(3), None), student("20240001", false, None, Some(2024))];
    let g = student_export_grid(&rows);
    assert_eq!(g.len(), 3);
    assert_eq!(
        g[1],
        vec![t("20250001"), t("홍길동"), Cell::Int(1), Cell::Int(3), Cell::Int(2), Cell::Int(7), Cell::Blank]
    );
    assert_eq!(
        g[2],
        vec![t("20240001"), t("홍길동"), Cell::Int(0), Cell::Blank, Cell::Blank, Cell::Blank, Cell::Int(2024)]
    );
}

#[test]
fn enrolled_and_graduate_sheets() {
    let e = enrolled_template_grid();
    assert_eq!(e[0], vec![t("학년"), t("반"), t("번호"), t("이름")]);
    assert_eq!(e[1], vec![Cell::Int(3), Cell::Int(1), Cell::Int(1), t("홍길동")]);
    let rows = vec![student("20250001", true, Some(3), None)];
    let x = enrolled_export_grid(&rows);
    assert_eq!(x[1], vec![t("20250001"), t("홍길동"), Cell::Int(3), Cell::Int(2), Cell::Int(7)]);
    let gt = graduated_template_grid();
    assert_eq!(gt[1], vec![t("20240001"), t("김철수"), Cell::Int(2024)]);
    let gx = graduated_export_grid(&vec![student("20240001", false, None, None)]);
    assert_eq!(gx[0], vec![t("학생코드"), t("이름"), t("졸업연도")]);
    assert_eq!(gx[1], vec![t("20240001"), t("홍길동"), Cell::Blank]);
}

#[test]
fn round_summary_counts_seats_left() {
    let rows = vec![
        RoundSummaryRow {
            univ_name: s("한국대"),
            track_name: s("인문"),
            unit_quota: Some(3),
            applied_count: 9,
            abandoned_count: 1,
            before_count: 1,
            this_count: 4,
            total_quota: None,
            univ_before_count: 0,
            univ_this_count: 0,
        },
    ];
    let g = round_summary_grid(&rows);
    assert_eq!(g[0].len(), 11);
    assert_eq!(g[0][6], t("모집단위 라운드 전 잔여석"));
    assert_eq!(
        g[1],
        vec![
            t("한국대"),
            t("인문"),
            Cell::Int(3),
            Cell::Int(9),
            Cell::Int(4),
            Cell::Int(1),
            Cell::Int(2),
            Cell::Int(0),
            t("무제한"),
            t("무제한"),
            t("무제한"),
        ]
    );
}

fn stats() -> QuotaStatsResponse {
    QuotaStatsResponse {
        all_round_ids: vec![1, 2],
        univs: vec![
            UnivStat {
                univ_id: 10,
                univ_name: s("서울/대"),
                total_quota: Some(2),
                total_used: 3,
                tracks: vec![TrackStat {
                    track_id: 100,
                    track_name: s("공학"),
                    unit_quota: None,
                    unit_used: 3,
                    by_round: vec![RoundCount { round_id: 2, count: 1 }, RoundCount { round_id: 2, count: 3 }],
                }],
            },
            UnivStat { univ_id: 11, univ_name: s("부산대"), total_quota: None, total_used: 0, tracks: vec![] },
        ],
    }
}

#[test]
fn quota_sheet_labels_rounds_and_counts() {
    let g = quota_export_grid(&stats(), None);
    assert_eq!(g.len(), 2);
    assert_eq!(g[0].len(), 10);
    assert_eq!(g[0][8], t("1차 추천"));
    assert_eq!(g[0][9], t("2차 추천"));
    assert_eq!(
        g[1],
        vec![
            t("서울/대"),
            t("공학"),
            t("무제한"),
            Cell::Int(3),
            t("무제한"),
            Cell::Int(2),
            Cell::Int(3),
            Cell::Int(0),
            Cell::Int(0),
            Cell::Int(3),
        ]
    );
    assert_eq!(quota_export_grid(&stats(), Some(11)).len(), 1);
}

#[test]
fn quota_file_names() {
    assert_eq!(quota_export_stem(&stats(), None), "전체_추천현황");
    assert_eq!(quota_export_stem(&stats(), Some(10)), "서울_대_추천현황");
    assert_eq!(quota_export_stem(&stats(), Some(99)), "대학_추천현황");
}

fn roster_row(detail: Option<&str>) -> RosterRow {
    RosterRow {
        round_id: 2,
        student_code: s("S1"),
        name: s("학생"),
        grade: Some(3),
        class_no: Some(1),
        seq_no: Some(5),
        is_enrolled: 1,
        univ_name: s("한국대"),
        track_name: s("인문"),
        department_name: s("국문"),
        score_detail: detail.map(s),
        total_score: detail.map(|_| 1500000),
        ranking: Some(1),
        track_rank: None,
        recommended: Some(1),
        abandoned: 0,
        excluded: 0,
        excluded_reason: None,
    }
}

#[test]
fn roster_reads_the_stored_detail() {
    let areas = vec![AreaName { id: 1, name: s("내신") }, AreaName { id: 2, name: s("면접") }];
    let json = score_detail_json(&vec![1, 2], &vec![1000000, 500000]).unwrap();
    let g = roster_grid(&areas, &vec![roster_row(Some(&json))], true).unwrap();
    assert_eq!(g[0][0], t("대학 순위"));
    assert_eq!(g[0][11], t("내신"));
    assert_eq!(g[0].len(), 18);
    let r = &g[1];
    assert_eq!(r[0], Cell::Int(1));
    assert_eq!(r[1], Cell::Blank);
    assert_eq!(r[10], t("재학"));
    assert_eq!(r[11], Cell::Score(1000000));
    assert_eq!(r[12], Cell::Score(500000));
    assert_eq!(r[13], Cell::Score(1500000));
    assert_eq!(r[14], t("추천"));
    assert_eq!(r[15], t(""));
    assert_eq!(r[17], t(""));
}

#[test]
fn roster_of_one_round_needs_every_score() {
    let areas = vec![AreaName { id: 1, name: s("내신") }, AreaName { id: 7, name: s("면접") }];
    let json = score_detail_json(&vec![1], &vec![1000000]).unwrap();
    let e = roster_grid(&areas, &vec![roster_row(Some(&json))], true).unwrap_err();
    assert_eq!(e, "학생코드 S1 전형요소 id=7의 점수가 없습니다. 점수 재계산이 필요합니다");
    let g = roster_grid(&areas, &vec![roster_row(Some(&json))], false).unwrap();
    assert_eq!(g[0][0], t("라운드"));
    assert_eq!(g[1][0], Cell::Int(2));
    assert_eq!(g[1][13], Cell::Blank);
    let none = roster_grid(&areas, &vec![roster_row(None)], true).unwrap();
    assert_eq!(none[1][11], Cell::Blank);
    assert_eq!(none[1][13], t("미계산"));
}

#[test]
fn roster_reports_an_unreadable_detail() {
    let areas = vec![AreaName { id: 1, name: s("내신") }];
    let e = roster_grid(&areas, &vec![roster_row(Some("not json"))], false).unwrap_err();
    assert!(e.starts_with("학생코드 S1 score_detail JSON 파싱 실패: "));
    assert!(e.len() > "학생코드 S1 score_detail JSON 파싱 실패: ".len());
}

#[test]
fn roster_query_filters() {
    let q = roster_sql(true, false);
    assert!(q.starts_with("WITH tr AS (\n             SELECT r.student_id, r.track_id, r.round_id, CAST(RANK() OVER ("));
    assert!(q.contains("WHERE 1=1 AND a.round_id = ?\n         ORDER BY s.is_enrolled DESC"));
    assert!(!q.contains("ut.univ_id = ?"));
    assert!(roster_sql(true, true).contains("WHERE 1=1 AND a.round_id = ? AND ut.univ_id = ?\n"));
}

#[test]
fn stored_detail_reads_back() {
    let json = score_detail_json(&vec![3, 1], &vec![200, -5]).unwrap();
    assert_eq!(json, "{\"1\":-5,\"3\":200}");
    let v = score_detail_scores(&json).unwrap();
    assert_eq!(v.len(), 2);
    assert_eq!(v[0].0, "1");
    assert_eq!(v[0].1 .0, -5);
    assert_eq!(v[1].1 .0, 200);
    assert!(score_detail_scores("[1]").unwrap_err().starts_with("score_detail JSON 파싱 실패: "));
}

#[test]
fn result_queries_take_rank_windows() {
    let a = admin_results_sql();
    assert!(a.contains("PARTITION BY r.track_id, r.round_id"));
    assert!(a.ends_with("ORDER BY r.track_id, r.ranking NULLS LAST, r.total_score DESC"));
    let g = teacher_results_sql(true);
    assert!(g.contains("PARTITION BY r2.track_id, r2.round_id"));
    assert!(g.ends_with("AND s.is_enrolled = 0\n             ORDER BY r.round_id, s.student_code, r.track_id"));
    assert!(teacher_results_sql(false).ends_with("ORDER BY r.round_id, s.seq_no, r.track_id"));
}

#[test]
fn table_sheets() {
    let h = header_grid(&vec!["기준값", "점수"]);
    assert_eq!(h, vec![vec![t("기준값"), t("점수")]]);
    let rows = vec![ThresholdExportRow { threshold: 9000000, score: 1000000, univ_name: s("A"), track_name: s("B") }];
    let g = threshold_export_grid(true, &rows);
    assert_eq!(g[0], vec![t("기준값"), t("점수"), t("대학명"), t("모집단위명")]);
    assert_eq!(g[1], vec![Cell::Score(9000000), Cell::Score(1000000), t("A"), t("B")]);
    assert_eq!(threshold_export_grid(false, &rows)[1], vec![Cell::Score(9000000), Cell::Score(1000000)]);
    let c = category_export_grid(false, &vec![CategoryExportRow { category: s("1등급"), score: 5, univ_name: s(""), track_name: s("") }]);
    assert_eq!(c[0], vec![t("범주"), t("점수")]);
    assert_eq!(c[1], vec![t("1등급"), Cell::Score(5)]);
}

#[test]
fn base_data_sheets() {
    let grads = vec![GraduateName { student_code: s("G1"), name: s("졸업") }];
    let tracks = vec![
        TrackName { univ_name: s("A"), track_name: s("x") },
        TrackName { univ_name: s("B"), track_name: s("y") },
    ];
    let g = base_template_grid(false, true, &grads, &tracks);
    assert_eq!(g.len(), 3);
    assert_eq!(g[2], vec![t("G1"), t("졸업"), Cell::Blank, t("B"), t("y")]);
    assert_eq!(base_template_grid(true, false, &grads, &tracks), vec![vec![t("학년"), t("반"), t("번호"), t("이름"), t("값")]]);
    assert_eq!(value_cell(&s("150000"), CalcType::Numeric), Cell::Score(150000));
    assert_eq!(value_cell(&s("abc"), CalcType::Manual), t("abc"));
    assert_eq!(value_cell(&s("150000"), CalcType::Category), t("150000"));
    let row = BaseDataExportRow {
        student_code: s("S9"),
        name: s("이름"),
        grade: Some(3),
        class_no: None,
        seq_no: Some(1),
        value: s("7"),
        univ_name: s(""),
        track_name: s(""),
    };
    assert_eq!(
        base_export_grid(&vec![row.clone()], true, false, CalcType::Numeric).unwrap_err(),
        "재학생 위치(class_no) 누락: 학생코드 'S9'"
    );
    let ok = base_export_grid(&vec![row], false, false, CalcType::Numeric).unwrap();
    assert_eq!(ok[1], vec![t("S9"), t("이름"), Cell::Score(7)]);
}

#[test]
fn class_and_audit_sheets() {
    assert_eq!(classes_template_grid()[1], vec![Cell::Int(3), Cell::Int(1), t("홍길동"), t("1234")]);
    let c = classes_export_grid(&vec![ClassRow { grade: 2, class_no: 4, teacher_name: None }]);
    assert_eq!(c[1], vec![Cell::Int(2), Cell::Int(4), t("")]);
    let a = AuditRow {
        id: 1,
        at: s("2025-01-01 00:00:00"),
        actor_type: s("TEACHER"),
        actor_grade: Some(3),
        actor_class_no: Some(2),
        actor_name: Some(s("김")),
        actor_ip: None,
        action: s("ROUND_OPENED"),
        round_id: Some(4),
        student_id: None,
        detail: s("{}"),
    };
    let g = audit_export_grid(&vec![a]);
    assert_eq!(g[0][5], t("IP"));
    assert_eq!(g[1], vec![t("2025-01-01 00:00:00"), t("3학년 2반 김"), t("ROUND_OPENED"), Cell::Int(4), t("{}"), Cell::Blank]);
}

#[test]
fn settings_sheets() {
    let tpl = settings_template_grid();
    assert_eq!(tpl.len(), 4);
    assert_eq!(tpl[3], vec![t("서울대학교"), t("무제한"), t("예")]);
    let univs = vec![
        UnivRow { id: 1, univ_name: s("A"), total_quota: Some(5), prioritize_enrolled: 1 },
        UnivRow { id: 2, univ_name: s("B"), total_quota: None, prioritize_enrolled: 0 },
    ];
    let tracks = vec![
        TrackRow { id: 10, univ_id: 1, track_name: s("x"), unit_quota: None, prioritize_enrolled: 0 },
        TrackRow { id: 11, univ_id: 1, track_name: s("y"), unit_quota: Some(2), prioritize_enrolled: 1 },
    ];
    let g = settings_export_grid(&univs, &tracks);
    assert_eq!(g.len(), 4);
    assert_eq!(g[1], vec![t("A"), Cell::Int(5), t("예"), t("x"), t("무제한"), t("아니오")]);
    assert_eq!(g[2][4], Cell::Int(2));
    assert_eq!(g[3], vec![t("B"), t("무제한"), t("아니오")]);
}

#[test]
fn admin_preview_totals_or_overflows() {
    let p = score_preview_response(&vec![1, 2], &vec![s("a"), s("b")], &vec![100000, 250000]).unwrap();
    assert_eq!(p.total.0, 350000);
    assert_eq!(p.detail[1].area_name, "b");
    assert_eq!(
        score_preview_response(&vec![1, 2], &vec![s("a"), s("b")], &vec![i64::MAX, 1]).unwrap_err(),
        "점수 합산 오버플로우"
    );
}

#[test]
fn teacher_context_values_and_items() {
    let v = shown_values(&vec![s(" 150000 "), s("x")], CalcType::Numeric);
    assert_eq!(v, vec![s("1.5"), s("x")]);
    assert_eq!(shown_values(&vec![s(" 1 ")], CalcType::Category), vec![s(" 1 ")]);
    assert!(use_shared_table(0, Some(3)));
    assert!(!use_shared_table(0, None));
    assert!(!use_shared_table(2, Some(3)));
    let area = ContextAreaRow {
        id: 5,
        name: s("봉사"),
        max_score: 1000000,
        calc_type: CalcType::Manual,
        teacher_editable: true,
        lookup_scope: LookupScope::Simple,
        match_mode: None,
        category_agg: Some(CategoryAgg::Sum),
        unit: Some(s("시간")),
    };
    let item = area_context_item(&area, vec![s("1")], Some(vec![]));
    assert!(item.table.is_none());
    assert!(item.multi_value);
    assert_eq!(item.max_score.0, 1000000);
}

#[test]
fn auto_recommend_names_its_items() {
    let labels = vec![
        TrackLabel { track_id: 7, univ_id: 1, univ_name: s("한국대"), track_name: s("인문") },
        TrackLabel { track_id: 8, univ_id: 1, univ_name: s("한국대"), track_name: s("자연") },
    ];
    let manual = vec![
        ManualItem { track_id: Some(8), univ_id: 1, reason: ManualReason::RankingMissing },
        ManualItem {
            track_id: None,
            univ_id: 1,
            reason: ManualReason::UnivTie { tie: TieBoundary { rank: 2, free: 1, contenders: 2 }, quota: 3, used: 2, remaining: 1 },
        },
    ];
    let counts = vec![TrackCount { track_id: 7, count: 2 }];
    let r = auto_recommend_response(&manual, &counts, &labels).unwrap();
    assert_eq!(r.manual[0].track_name.as_deref(), Some("자연"));
    assert_eq!(r.manual[0].reason, "순위 미계산 — 점수 재계산 필요");
    assert_eq!(r.manual[1].track_name, None);
    assert_eq!(r.manual[1].univ_name, "한국대");
    assert_eq!(r.confirmed[0].track_name, "인문");
    assert_eq!(r.confirmed[0].count, 2);
    let missing = vec![TrackCount { track_id: 9, count: 1 }];
    assert_eq!(auto_recommend_response(&vec![], &missing, &labels).unwrap_err(), "모집단위 정보 누락");
    let lost = vec![ManualItem { track_id: None, univ_id: 5, reason: ManualReason::RankingMissing }];
    assert_eq!(auto_recommend_response(&lost, &missing, &labels).unwrap_err(), "대학 정보 누락");
}

fn area(id: i64, calc: CalcType, editable: bool) -> AreaInfo {
    AreaInfo::new(id, calc, editable, LookupScope::Composite, None, 2000000)
}

fn body(dept: &str, entries: Vec<BaseDataEntry>) -> CreateApplicationBody {
    CreateApplicationBody {
        student_id: 1,
        track_id: 9,
        round_id: 1,
        department_name: s(dept),
        base_data_entries: entries,
        prev_track_id: None,
    }
}

fn entry(id: i64, vals: &[&str]) -> BaseDataEntry {
    BaseDataEntry { area_id: id, values: vals.iter().map(|v| s(v)).collect() }
}

#[test]
fn application_body_checks_in_order() {
    let areas = vec![area(1, CalcType::Manual, true), area(2, CalcType::Category, true), area(3, CalcType::Numeric, false)];
    let e = validate_body(&body("  ", vec![]), &areas).unwrap_err();
    assert_eq!((e.status, e.message.as_str()), (400, "학과명은 필수입니다"));
    let e = validate_body(&body("국문", vec![entry(3, &["1"])]), &areas).unwrap_err();
    assert_eq!((e.status, e.message.as_str()), (403, "전형요소 id=3는 담임 입력이 허용되지 않습니다"));
    let e = validate_body(&body("국문", vec![entry(9, &["1"])]), &areas).unwrap_err();
    assert_eq!((e.status, e.message.as_str()), (404, "전형요소 id=9 없음"));
    let e = validate_body(&body("국문", vec![entry(1, &["1"])]), &areas).unwrap_err();
    assert_eq!(e.status, 422);
    assert_eq!(e.message, "전형요소 id=2의 값이 누락되었습니다. 모든 담임 입력 전형요소에 값을 입력해야 합니다");
    let e = validate_body(&body("국문", vec![entry(1, &["25"]), entry(2, &["A"])]), &areas).unwrap_err();
    assert_eq!(e.message, "전형요소 id=1: 값(25)이 만점(20)을 초과합니다");
    let e = validate_body(&body("국문", vec![entry(1, &["2"]), entry(2, &["A", "B"])]), &areas).unwrap_err();
    assert_eq!(e.message, "전형요소 id=2: 단일값 전형요소에 복수값 입력 불가");
    let ok = validate_body(&body("국문", vec![entry(1, &["2.5"]), entry(2, &[" A "])]), &areas).unwrap();
    assert_eq!(ok.len(), 2);
    assert_eq!(ok[0].db_values, vec![s("250000")]);
    assert_eq!(ok[0].lookup_track, Some(9));
    assert_eq!(ok[1].db_values, vec![s("A")]);
}
