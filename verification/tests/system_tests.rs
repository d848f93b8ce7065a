use std::io::Read;

use pcm_core::backup::{backup_entries, build_backup_zip};
use pcm_core::classes::{list_classes, ClassRow};
use pcm_core::enums::{
    audit_action_text, calc_type_text, parse_calc_type, parse_category_agg, parse_lookup_scope, parse_match_mode,
    parse_round_status, round_status_text, AuditAction, CalcType, CategoryAgg, LookupScope, MatchMode, RoundStatus,
};
use pcm_core::login::{admin_login, hash_new_password, AdminLoginBody};
use pcm_core::rounds::{check_base_data_complete, check_finalizable, finalize_block_message, FinalizeBlock, MissingBaseData};
use pcm_core::schema::{full_schema_sql, migration_plan, migration_sqls, SchemaTooNewError, SCHEMA_VERSION};

fn s(v: &str) -> String {
    v.to_string()
}

#[test]
fn stored_texts_round_trip() {
    for x in [RoundStatus::Open, RoundStatus::Closed, RoundStatus::Finalized] {
        assert_eq!(parse_round_status(round_status_text(x)), Some(x));
    }
    for x in [CalcType::Numeric, CalcType::Category, CalcType::Manual] {
        assert_eq!(parse_calc_type(calc_type_text(x)), Some(x));
    }
    assert_eq!(parse_lookup_scope("COMPOSITE"), Some(LookupScope::Composite));
    assert_eq!(parse_match_mode("LOWER"), Some(MatchMode::Lower));
    assert_eq!(parse_category_agg("MAX"), Some(CategoryAgg::Max));
    assert_eq!(parse_round_status("open"), None);
    assert_eq!(round_status_text(RoundStatus::Finalized), "FINALIZED");
    assert_eq!(audit_action_text(AuditAction::DbBackupDownloaded), "DB_BACKUP_DOWNLOADED");
    assert_eq!(audit_action_text(AuditAction::RoundConfirmationRevoked), "ROUND_CONFIRMATION_REVOKED");
}

#[test]
fn schema_plan_and_sql() {
    assert_eq!(migration_plan(0, SCHEMA_VERSION), Ok(vec![1]));
    assert_eq!(migration_plan(1, 3), Ok(vec![2, 3]));
    assert_eq!(migration_plan(2, 2), Ok(vec![]));
    let e = migration_plan(3, 1).unwrap_err();
    assert_eq!(e, SchemaTooNewError { db_ver: 3, app_ver: 1 });
    assert_eq!(
        e.message(),
        "데이터베이스 스키마 버전(v3)이 이 앱이 지원하는 최대 버전(v1)보다 높습니다. 최신 버전의 앱을 다운로드하여 사용해 주세요."
    );
    let frags = vec![vec![s("CREATE A;"), s("CREATE B;")], vec![s("ALTER C;")]];
    assert_eq!(migration_sqls(&frags), vec![s("CREATE A;\nCREATE B;"), s("ALTER C;")]);
    assert_eq!(full_schema_sql(&frags), "CREATE A;\nCREATE B;\nALTER C;");
}

#[test]
fn backup_archive_entries() {
    let e = backup_entries(&[1, 2, 3], Some(&[9u8][..]), "a\nb");
    assert_eq!(e.len(), 3);
    assert_eq!((e[0].0.as_str(), e[0].1.clone()), ("pcm/data.db", vec![1, 2, 3]));
    assert_eq!((e[1].0.as_str(), e[1].1.clone()), ("pcm/config.json", vec![9]));
    assert_eq!(e[2].0, "복원방법.txt");
    assert_eq!(e[2].1, vec![0xEF, 0xBB, 0xBF, b'a', b'\r', b'\n', b'b']);
    let e = backup_entries(&[], None, "");
    assert_eq!(e.len(), 2);
    let zip = build_backup_zip(&[1, 2, 3], None, "x").unwrap();
    assert_eq!(&zip[..4], &[0x50, 0x4B, 0x03, 0x04]);
    let k = zip.len() - 22;
    assert_eq!(&zip[k..k + 12], &[0x50, 0x4B, 0x05, 0x06, 0, 0, 0, 0, 2, 0, 2, 0]);
    assert_eq!(&zip[k + 20..], &[0, 0]);
    let zip = build_backup_zip(&[1], Some(&[b'{', b'}']), "x").unwrap();
    let k = zip.len() - 22;
    assert_eq!(&zip[k + 8..k + 12], &[3, 0, 3, 0]);
}

#[test]
fn round_closing_and_finalizing_checks() {
    assert!(check_base_data_complete(&vec![]).is_ok());
    let m = vec![
        MissingBaseData { area: s("출결"), student: s("홍길동"), code: s("S1"), univ: s("서울대"), track: s("경영") },
        MissingBaseData { area: s("봉사"), student: s("김"), code: s("S2"), univ: s("고려대"), track: s("법") },
    ];
    let e = check_base_data_complete(&m).unwrap_err();
    assert_eq!(e.status, 422);
    assert_eq!(
        e.message,
        "기초데이터 누락으로 라운드를 종료할 수 없습니다:\n전형요소 '출결': 서울대 경영 지원자 홍길동 (S1)\n전형요소 '봉사': 고려대 법 지원자 김 (S2)"
    );
    assert_eq!(check_finalizable(1, 1, 0), Err(FinalizeBlock::Undecided));
    assert_eq!(check_finalizable(0, 0, 2), Err(FinalizeBlock::OverQuota));
    assert_eq!(check_finalizable(0, 0, 0), Ok(()));
    assert_eq!(finalize_block_message(FinalizeBlock::OverQuota), "정원 초과로 라운드를 확정할 수 없습니다");
}

#[test]
fn a_hashed_password_signs_in() {
    let h = hash_new_password("class-pw").unwrap();
    assert!(admin_login(&AdminLoginBody { password: s("class-pw") }, &Some(h.clone()), "k").is_ok());
    assert!(admin_login(&AdminLoginBody { password: s("other") }, &Some(h), "k").is_err());
}

#[test]
fn class_list_adds_the_graduates() {
    let rows = vec![ClassRow { grade: 1, class_no: 1, teacher_name: None }];
    assert_eq!(list_classes(rows.clone(), false).len(), 1);
    let l = list_classes(rows, true);
    assert_eq!((l[1].grade, l[1].class_no, l[1].teacher_name.as_deref()), (0, 0, Some("졸업생")));
}

#[test]
fn backup_archive_reads_back_its_entries() {
    let db: Vec<u8> = (0..5000u32).map(|i| (i % 251) as u8).collect();
    let zip = build_backup_zip(&db, Some(&[b'{', b'}']), "guide").unwrap();
    let mut archive = zip::ZipArchive::new(std::io::Cursor::new(zip)).unwrap();
    assert_eq!(archive.len(), 3);
    let mut names = Vec::new();
    for i in 0..archive.len() {
        names.push(archive.by_index(i).unwrap().name().unwrap().to_string());
    }
    assert_eq!(names, vec![s("pcm/data.db"), s("pcm/config.json"), s("복원방법.txt")]);
    let mut back = Vec::new();
    archive.by_name("pcm/data.db").unwrap().read_to_end(&mut back).unwrap();
    assert_eq!(back, db);
    let mut guide = String::new();
    archive.by_name("복원방법.txt").unwrap().read_to_string(&mut guide).unwrap();
    // The guide is written with a byte-order mark.
    assert_eq!(guide, "\u{feff}guide");
}
