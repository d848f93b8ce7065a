use pcm_core::backup::backup_readme;
use pcm_core::paths::{autostart_value_name, hashed_value_name, DATA_DIR_NAME, LEGACY_AUTOSTART_VALUE_NAME};
use pcm_core::queries::{needs_recalc_expr, track_rank_window};
use pcm_core::results::{build_csv, csv_records, entry_text, status_label, ResultRow};
use pcm_core::score::Score;

fn fnv1a(bytes: &[u8]) -> u64 {
    let mut h: u64 = 0xcbf2_9ce4_8422_2325;
    for b in bytes {
        h ^= *b as u64;
        h = h.wrapping_mul(0x0000_0100_0000_01b3);
    }
    h
}

#[test]
fn autostart_name_is_the_hash_of_the_normalised_path() {
    let name = autostart_value_name("C:/PCM/App.exe");
    assert_eq!(name, format!("PCM-{:016x}", fnv1a("c:\\pcm\\app.exe".as_bytes())));
    assert_eq!(name.len(), 20);
    assert_ne!(name, LEGACY_AUTOSTART_VALUE_NAME);
}

#[test]
fn autostart_name_ignores_case_and_separators() {
    assert_eq!(autostart_value_name("C:\\pcm\\a.exe"), autostart_value_name("c:/PCM/A.EXE"));
    assert_ne!(autostart_value_name("C:\\pcm\\a.exe"), autostart_value_name("C:\\pcm\\b.exe"));
}

#[test]
fn hashed_name_of_the_empty_path() {
    assert_eq!(hashed_value_name(""), "PCM-cbf29ce484222325");
}

#[test]
fn rank_window_sql() {
    let q = track_rank_window("r", "ut", "s", true);
    assert!(q.starts_with("CAST(RANK() OVER (\n                    PARTITION BY r.track_id, r.round_id\n"));
    assert!(q.contains("CASE WHEN ut.prioritize_enrolled = 1 THEN s.is_enrolled ELSE NULL END DESC NULLS LAST,"));
    assert!(q.ends_with("r.total_score DESC\n                ) AS INTEGER) AS track_rank"));
    let q = track_rank_window("res", "t", "st", false);
    assert!(q.contains("PARTITION BY res.track_id\n"));
    assert!(!q.contains("round_id"));
}

#[test]
fn recalc_sql() {
    let q = needs_recalc_expr("r");
    assert!(q.starts_with("(CASE WHEN r.status = 'CLOSED' AND EXISTS("));
    assert!(q.contains("WHERE res.round_id = r.id)"));
    assert!(q.ends_with(") THEN 1 ELSE 0 END)"));
}

#[test]
fn backup_readme_names_time_version_and_folder() {
    let t = backup_readme("2024-03-01 09:00:00", "1.2.3");
    assert!(t.starts_with("학교장추천 관리 시스템 — 데이터 백업\n\n백업 시각 : 2024-03-01 09:00:00\n프로그램 버전 : 1.2.3\n"));
    assert!(t.contains("3. 그 폴더에 있는 기존 pcm 폴더의 이름을 pcm_old 로 바꿉니다."));
    assert!(t.ends_with("필요 없어지면 완전히 삭제하십시오.\n"));
    assert_eq!(DATA_DIR_NAME, "pcm");
}

fn row(student_id: i64, code: &str, name: &str, seq: Option<i64>, univ: &str, track: &str, round_id: i64, recommended: bool, abandoned: bool) -> ResultRow {
    ResultRow {
        student_id,
        track_id: 1,
        round_id,
        total_score: Score(0),
        score_detail: "{}".to_string(),
        ranking: None,
        track_rank: None,
        recommended,
        abandoned,
        excluded: false,
        excluded_reason: None,
        student_code: code.to_string(),
        name: name.to_string(),
        grade: seq.map(|_| 3),
        class_no: seq.map(|_| 1),
        seq_no: seq,
        is_enrolled: seq.is_some(),
        univ_name: univ.to_string(),
        track_name: track.to_string(),
        department_name: String::new(),
    }
}

#[test]
fn status_words() {
    assert_eq!(status_label(&row(1, "a", "a", None, "u", "t", 1, true, true)), "포기됨");
    assert_eq!(status_label(&row(1, "a", "a", None, "u", "t", 1, true, false)), "추천 확정");
    assert_eq!(status_label(&row(1, "a", "a", None, "u", "t", 1, false, false)), "미선발");
}

#[test]
fn entry_texts() {
    let r = row(1, "a", "a", None, "서울대", "경영", 2, true, false);
    assert_eq!(entry_text(&r, false), "서울대 경영(추천 확정)");
    assert_eq!(entry_text(&r, true), "2라운드 서울대 경영(추천 확정)");
}

fn sample() -> Vec<ResultRow> {
    vec![
        row(1, "S1", "가", Some(3), "서울대", "경영", 1, true, false),
        row(2, "G1", "나", None, "서울대", "경영", 1, false, false),
        row(1, "S1", "가", Some(3), "고려대", "법", 1, false, true),
        row(3, "S0", "다", Some(3), "연세대", "의", 1, false, false),
    ]
}

#[test]
fn one_line_per_student_in_key_order() {
    let recs = csv_records(&sample(), false);
    assert_eq!(recs[0], vec!["학생코드", "학년", "반", "번호", "이름", "선발결과"]);
    assert_eq!(recs.len(), 4);
    assert_eq!(recs[1], vec!["G1", "", "", "", "나", "서울대 경영(미선발)"]);
    // Equal numbers are ordered by code.
    assert_eq!(recs[2], vec!["S0", "3", "1", "3", "다", "연세대 의(미선발)"]);
    assert_eq!(recs[3], vec!["S1", "3", "1", "3", "가", "서울대 경영(추천 확정), 고려대 법(포기됨)"]);
}

#[test]
fn csv_bytes_start_with_a_bom() {
    let bytes = build_csv(&sample(), true).unwrap();
    assert_eq!(&bytes[..3], &[0xEF, 0xBB, 0xBF]);
    let text = String::from_utf8(bytes[3..].to_vec()).unwrap();
    let expected = "학생코드,학년,반,번호,이름,선발결과\n\
G1,,,,나,1라운드 서울대 경영(미선발)\n\
S0,3,1,3,다,1라운드 연세대 의(미선발)\n\
S1,3,1,3,가,\"1라운드 서울대 경영(추천 확정), 1라운드 고려대 법(포기됨)\"\n";
    assert_eq!(text, expected);
}

#[test]
fn csv_of_no_rows_is_the_header() {
    let bytes = build_csv(&vec![], false).unwrap();
    assert_eq!(String::from_utf8(bytes[3..].to_vec()).unwrap(), "학생코드,학년,반,번호,이름,선발결과\n");
}
