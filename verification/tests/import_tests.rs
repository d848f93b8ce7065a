use pcm_core::base_import::{plan_base_data_import, BaseRow};
use pcm_core::enums::{CalcType, LookupScope, MatchMode};
use pcm_core::external::{plan_external_import, ExternalRecord};
use pcm_core::lookup::lookup_range_score;
use pcm_core::table_import::{needs_track, plan_category_table, plan_numeric_table, TableRow, TrackLookup};

fn s(v: &str) -> String {
    v.to_string()
}

fn common(key: &str, score: &str) -> TableRow {
    TableRow { key: s(key), score: s(score), univ_name: s(""), track_name: s(""), track: TrackLookup::Failed { cause: s("") } }
}

fn per_track(key: &str, score: &str, univ: &str, track: &str, lookup: TrackLookup) -> TableRow {
    TableRow { key: s(key), score: s(score), univ_name: s(univ), track_name: s(track), track: lookup }
}

const MAX: i64 = 1_000_000;

#[test]
fn range_table_accepted() {
    let rows = vec![common("0", "0"), common("50", "5"), common("100", "10")];
    let p = plan_numeric_table(LookupScope::Simple, Some(MatchMode::Upper), MAX, &rows).unwrap();
    assert_eq!(p.inserts, vec![(None, 0, 0), (None, 5_000_000, 500_000), (None, 10_000_000, 1_000_000)]);
    assert!(p.warnings.is_empty());
    assert!(p.info.is_empty());
}

#[test]
fn range_table_without_zero_warns() {
    let rows = vec![common("100", "10"), common("50", "5")];
    let p = plan_numeric_table(LookupScope::Simple, Some(MatchMode::Upper), MAX, &rows).unwrap();
    assert_eq!(p.warnings, vec![s("기준값 0 항목이 없습니다: 최저 기준값 50 미만 학생은 점수 산출이 되지 않습니다")]);
    // A LOWER table gets no such warning.
    let rows = vec![common("100", "5"), common("50", "10")];
    let p = plan_numeric_table(LookupScope::Simple, Some(MatchMode::Lower), MAX, &rows).unwrap();
    assert!(p.warnings.is_empty());
    assert_eq!(p.inserts.len(), 2);
}

#[test]
fn range_table_order_rule() {
    let rows = vec![common("10", "3"), common("0", "5")];
    let e = plan_numeric_table(LookupScope::Simple, Some(MatchMode::Upper), MAX, &rows).unwrap_err();
    assert_eq!(
        e,
        vec![s("점수 순서 오류: 기준값 0→10 구간에서 점수가 5→3 — UPPER 모드에서는 기준값이 높을수록 점수도 높거나 같아야 합니다")]
    );
    let rows = vec![common("0", "3"), common("10", "5")];
    let e = plan_numeric_table(LookupScope::Simple, Some(MatchMode::Lower), MAX, &rows).unwrap_err();
    assert_eq!(
        e,
        vec![s("점수 순서 오류: 기준값 0→10 구간에서 점수가 3→5 — LOWER 모드에서는 기준값이 높을수록 점수도 낮거나 같아야 합니다")]
    );
    // EXACT tables have no order.
    assert!(plan_numeric_table(LookupScope::Simple, Some(MatchMode::Exact), MAX, &rows).is_ok());
}

#[test]
fn range_table_row_errors() {
    let rows = vec![common("", "1"), common("0", "20"), common("0", "1"), common("0", "2"), common("5", "")];
    let e = plan_numeric_table(LookupScope::Simple, Some(MatchMode::Upper), MAX, &rows).unwrap_err();
    assert_eq!(
        e,
        vec![
            s("2행: 기준값 누락"),
            s("3행: 점수(20)가 전형요소 만점(10)을 초과합니다"),
            s("5행: 기준값 '0' 중복 — 같은 기준값은 한 번만 등록할 수 있습니다"),
            s("6행: 점수 누락"),
        ]
    );
}

#[test]
fn range_table_per_track() {
    let found = |id: i64, created: bool| TrackLookup::Found { id, created };
    let rows = vec![
        per_track("0", "1", "서울대", "공대", found(3, true)),
        per_track("0", "2", "서울대", "의대", found(4, false)),
        per_track("0", "1", "", "", TrackLookup::Failed { cause: s("unused") }),
        per_track("10", "5", "서울대", "공대", found(3, false)),
    ];
    let p = plan_numeric_table(LookupScope::Composite, Some(MatchMode::Upper), MAX, &rows).unwrap();
    assert_eq!(p.inserts, vec![(Some(3), 0, 100_000), (Some(4), 0, 200_000), (None, 0, 100_000), (Some(3), 1_000_000, 500_000)]);
    assert_eq!(p.info, vec![s("'서울대/공대' 모집단위 자동 추가됨")]);

    let rows = vec![
        per_track("0", "1", "서울대", "", found(3, false)),
        per_track("0", "1", "서울대", "공대", TrackLookup::Failed { cause: s("db down") }),
    ];
    let e = plan_numeric_table(LookupScope::Composite, Some(MatchMode::Upper), MAX, &rows).unwrap_err();
    assert_eq!(
        e,
        vec![s("2행: 대학명과 모집단위명은 함께 입력하거나 함께 비워야 합니다"), s("3행: 모집단위 처리 오류 — db down")]
    );
    // A global area ignores the names: both rows then fall in the common table.
    assert_eq!(
        plan_numeric_table(LookupScope::Simple, None, MAX, &rows).unwrap_err(),
        vec![s("3행: 기준값 '0' 중복 — 같은 기준값은 한 번만 등록할 수 있습니다")]
    );
    assert!(needs_track(LookupScope::Composite, "서울대", "공대"));
    assert!(!needs_track(LookupScope::Composite, "서울대", ""));
    assert!(!needs_track(LookupScope::Simple, "서울대", "공대"));
}

#[test]
fn upper_warnings_and_order_errors_per_track() {
    let found = |id: i64| TrackLookup::Found { id, created: false };
    let rows = vec![per_track("5", "1", "A", "a", found(7)), per_track("0", "0", "B", "b", found(8))];
    let p = plan_numeric_table(LookupScope::Composite, Some(MatchMode::Upper), MAX, &rows).unwrap();
    assert_eq!(p.warnings, vec![s("기준값 0 항목이 없습니다 (모집단위 id=7): 최저 기준값 5 미만 학생은 점수 산출이 되지 않습니다")]);
    let rows = vec![
        per_track("0", "5", "A", "a", found(7)),
        per_track("0", "5", "B", "b", found(8)),
        per_track("1", "1", "B", "b", found(8)),
        per_track("1", "1", "A", "a", found(7)),
    ];
    let e = plan_numeric_table(LookupScope::Composite, Some(MatchMode::Upper), MAX, &rows).unwrap_err();
    assert_eq!(e.len(), 2);
    assert!(e[0].starts_with("점수 순서 오류 (모집단위 id=7):"));
    assert!(e[1].starts_with("점수 순서 오류 (모집단위 id=8):"));
}

#[test]
fn category_table_plans() {
    let rows = vec![common("A", "5"), common("B", "0")];
    let p = plan_category_table(LookupScope::Simple, MAX, &rows).unwrap();
    assert_eq!(p.inserts, vec![(None, s("A"), 500_000), (None, s("B"), 0)]);
    let rows = vec![common("A", "5"), common("C", "3")];
    assert_eq!(
        plan_category_table(LookupScope::Simple, MAX, &rows).unwrap_err(),
        vec![s("전형요소 점수 0점 기준(해당하지 않음)이 필수입니다 (공통): 가장 낮은 점수를 0점으로 설정해 주세요")]
    );
    // Only penalties: no zero row is needed.
    let rows = vec![common("A", "-5")];
    assert!(plan_category_table(LookupScope::Simple, MAX, &rows).is_ok());
    let rows = vec![common("", "5"), common("A", "0"), common("A", "1"), common("B", "x1")];
    let e = plan_category_table(LookupScope::Simple, MAX, &rows).unwrap_err();
    assert_eq!(e.len(), 3);
    assert_eq!(e[0], "2행: 범주 누락");
    assert_eq!(e[1], "4행: 범주 'A' 중복 — 같은 범주는 한 번만 등록할 수 있습니다");
    assert!(e[2].starts_with("5행: 점수 — "));
}

fn enrolled_row(g: &str, c: &str, n: &str, value: &str, student: Option<i64>) -> BaseRow {
    BaseRow {
        name: s("홍길동"),
        grade: s(g),
        class_no: s(c),
        seq_no: s(n),
        student_code: s(""),
        value: s(value),
        univ_name: s(""),
        track_name: s(""),
        student,
        track: TrackLookup::Failed { cause: s("") },
    }
}

#[test]
fn base_data_single_value() {
    let rows = vec![enrolled_row("1", "2", "3", "85.5", Some(7))];
    let p = plan_base_data_import(true, CalcType::Numeric, MAX, LookupScope::Simple, false, &rows).unwrap();
    assert_eq!(p.writes, vec![(7, None, s("8550000"))]);
    assert!(p.affected.is_empty());
    let rows = vec![
        enrolled_row("1", "2", "3", "1", Some(7)),
        enrolled_row("1", "2", "3", "2", Some(7)),
        enrolled_row("1", "2", "4", "2", None),
        enrolled_row("1", "x", "4", "2", None),
        enrolled_row("1", "2", "5", "", Some(9)),
    ];
    let e = plan_base_data_import(true, CalcType::Numeric, MAX, LookupScope::Simple, false, &rows).unwrap_err();
    assert_eq!(
        e,
        vec![
            s("3행: 1학년 2반 3번 중복 — 파일에 같은 학생이 두 번 이상 존재합니다"),
            s("4행: 1학년 2반 4번 — 등록된 재학생을 찾을 수 없습니다"),
            s("5행: 반 'x' 숫자 변환 실패"),
            s("6행: 값 누락"),
        ]
    );
    // A manual value above the maximum is refused.
    let rows = vec![enrolled_row("1", "2", "3", "11", Some(7))];
    let e = plan_base_data_import(true, CalcType::Manual, MAX, LookupScope::Simple, false, &rows).unwrap_err();
    assert_eq!(e, vec![s("2행: 값(11)이 전형요소 만점(10)을 초과합니다")]);
}

#[test]
fn base_data_multi_value_and_graduates() {
    let rows = vec![
        enrolled_row("1", "2", "3", "수상", Some(7)),
        enrolled_row("1", "2", "3", "봉사", Some(7)),
        enrolled_row("1", "2", "4", "수상", Some(8)),
    ];
    let p = plan_base_data_import(true, CalcType::Category, MAX, LookupScope::Simple, true, &rows).unwrap();
    assert_eq!(p.writes.len(), 3);
    assert_eq!(p.affected, vec![(7, None), (8, None)]);

    let mut g = enrolled_row("", "", "", "1", None);
    let e = plan_base_data_import(false, CalcType::Numeric, MAX, LookupScope::Simple, false, &vec![g.clone()]).unwrap_err();
    assert_eq!(e, vec![s("2행: 학생코드 누락")]);
    g.student_code = s("G-1");
    let e = plan_base_data_import(false, CalcType::Numeric, MAX, LookupScope::Simple, false, &vec![g.clone()]).unwrap_err();
    assert_eq!(e, vec![s("2행: 학생코드 'G-1'에 해당하는 졸업생이 없습니다 (졸업생을 먼저 등록하세요)")]);
    g.student = Some(11);
    let p = plan_base_data_import(false, CalcType::Numeric, MAX, LookupScope::Simple, false, &vec![g]).unwrap();
    assert_eq!(p.writes, vec![(11, None, s("100000"))]);
}

fn record(row: usize, f: [&str; 5], student: Option<(i64, &str)>) -> ExternalRecord {
    ExternalRecord { row, fields: f.iter().map(|x| s(x)).collect(), student: student.map(|(i, n)| (i, s(n))) }
}

#[test]
fn rank_list_import_plan() {
    let recs = vec![
        record(5, ["1", "2", "3", "홍길동", "2"], Some((7, "홍길동"))),
        record(6, ["1", "2", "4", "김철", "3.5"], Some((8, "김철수"))),
        record(7, ["1", "2", "5", "이영희", " "], Some((9, "이영희"))),
        ExternalRecord { row: 8, fields: vec![s("1")], student: None },
    ];
    let (status, r, writes) = plan_external_import(CalcType::Numeric, "서울대", "공대", true, &recs);
    assert_eq!(status, 200);
    assert_eq!(r.rows, 2);
    assert_eq!(writes, vec![(7, s("200000")), (8, s("350000"))]);
    assert_eq!(
        r.warnings,
        vec![
            s("6행: 1학년 2반 4번 이름 불일치 — 가져오기 완료됨 (파일: '김철', DB: '김철수')"),
            s("7행: 1학년 2반 5번 이영희 — 석차 값이 비어 있어 건너뜀"),
        ]
    );
    assert_eq!(r.info, vec![s("'서울대/공대' 모집단위 자동 추가됨")]);
}

#[test]
fn rank_list_import_refusals() {
    let recs = vec![
        record(5, ["1", "2", "3", "홍길동", "2"], Some((7, "홍길동"))),
        record(6, ["1", "2", "3", "홍길동", "2"], Some((7, "홍길동"))),
        record(7, ["1", "2", "9", "박", "2"], None),
    ];
    let (status, r, _) = plan_external_import(CalcType::Numeric, "서울대", "공대", false, &recs);
    assert_eq!(status, 422);
    assert_eq!(
        r.errors,
        vec![
            s("6행: 1학년 2반 3번 중복 — 파일에 같은 학생이 두 번 이상 존재합니다"),
            s("7행: 1학년 2반 9번 박 — 등록된 재학생을 찾을 수 없습니다"),
        ]
    );
    let recs = vec![record(5, ["1", "2", "3", "홍길동", ""], Some((7, "홍길동")))];
    let (status, r, writes) = plan_external_import(CalcType::Numeric, "서울대", "공대", false, &recs);
    assert_eq!(status, 422);
    assert!(writes.is_empty());
    assert_eq!(r.errors, vec![s("저장된 행이 없습니다 — 모든 행의 석차 값이 비어 있거나 숫자로 변환할 수 없습니다")]);
    assert_eq!(r.warnings.len(), 1);
}

#[test]
fn an_accepted_table_scores_monotonically() {
    let rows = vec![common("80", "10"), common("0", "0"), common("50", "6"), common("65", "6")];
    let p = plan_numeric_table(LookupScope::Simple, Some(MatchMode::Upper), MAX, &rows).unwrap();
    let table: Vec<(i64, i64)> = p.inserts.iter().map(|e| (e.1, e.2)).collect();
    let mut last = i64::MIN;
    for v in [0i64, 1, 4_999_999, 5_000_000, 6_600_000, 8_000_000, 9_900_000] {
        let s = lookup_range_score(v, &table, MatchMode::Upper).unwrap();
        assert!(s >= last);
        last = s;
    }
    assert_eq!(lookup_range_score(7_000_000, &table, MatchMode::Upper), Ok(600_000));
}
