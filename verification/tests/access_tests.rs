use pcm_core::auth::{
    decode_admin_token, decode_teacher_token, encode_admin_token, encode_admin_token_at, encode_teacher_token,
    encode_teacher_token_at, expiry_after, is_grad_teacher, TeacherClaims,
};
use pcm_core::classes::{check_class_deletable, class_import_row, new_class_password_error, plan_class_save, ClassSave, UpsertClassBody};
use pcm_core::confirmations::{check_not_confirmed, check_revoked, confirmation_of, confirmation_status, ClassConfirmRow};
use pcm_core::login::{
    admin_login, admin_status, change_admin_password, check_teacher_password_change, teacher_change_password, teacher_login,
    AdminLoginBody, ChangePasswordBody, TeacherLoginBody,
};
use pcm_core::middleware::{authorize_admin, authorize_teacher, bearer_token, korean_body_limit_message, multipart_err};

fn s(v: &str) -> String {
    v.to_string()
}

#[test]
fn admin_token_round_trip() {
    let t = encode_admin_token("secret-1");
    let c = decode_admin_token(&t, "secret-1").unwrap();
    assert_eq!(c.role, "admin");
    assert!(decode_admin_token(&t, "other").is_err());
}

#[test]
fn teacher_token_round_trip() {
    let t = encode_teacher_token(2, 3, "k");
    let c = decode_teacher_token(&t, "k").unwrap();
    assert_eq!((c.role.as_str(), c.grade, c.class_no), ("teacher", 2, 3));
    assert_eq!(decode_admin_token(&t, "k").unwrap_err(), "not admin token");
    assert!(is_grad_teacher(&TeacherClaims { role: s("teacher"), grade: 0, class_no: 0, exp: 0 }));
    assert!(!is_grad_teacher(&c));
}

#[test]
fn a_token_has_three_base64url_parts() {
    let t = encode_admin_token("k");
    let parts: Vec<&str> = t.split('.').collect();
    assert_eq!(parts.len(), 3);
    assert_eq!(parts[0], "eyJ0eXAiOiJKV1QiLCJhbGciOiJIUzI1NiJ9");
}

#[test]
fn bearer_token_strips_the_scheme() {
    assert_eq!(bearer_token(Some("Bearer abc.def")), Some(s("abc.def")));
    assert_eq!(bearer_token(Some("Bearer ")), Some(s("")));
    assert_eq!(bearer_token(Some("Basic abc")), None);
    assert_eq!(bearer_token(Some("Bear")), None);
    assert_eq!(bearer_token(None), None);
}

#[test]
fn authorization_refusals() {
    let e = authorize_admin(None, "k").unwrap_err();
    assert_eq!((e.status, e.message.as_str()), (401, "토큰이 없습니다"));
    let e = authorize_admin(Some("Bearer junk"), "k").unwrap_err();
    assert_eq!((e.status, e.message.as_str()), (401, "유효하지 않은 토큰"));
    let t = format!("Bearer {}", encode_teacher_token(1, 1, "k"));
    assert!(authorize_teacher(Some(&t), "k").is_ok());
    assert!(authorize_admin(Some(&t), "k").is_err());
    let a = format!("Bearer {}", encode_admin_token("k"));
    let c = authorize_admin(Some(&a), "k").unwrap();
    assert_eq!(c.role, "admin");
    assert!(authorize_teacher(Some(&a), "k").is_err());
    assert_eq!(authorize_admin(Some(&a), "other").unwrap_err().message, "유효하지 않은 토큰");
    assert_eq!(authorize_admin(Some("Token x"), "k").unwrap_err().message, "토큰이 없습니다");
}

#[test]
fn upload_size_messages() {
    let r = korean_body_limit_message(413).unwrap();
    assert_eq!(r.message, "업로드 파일 크기가 너무 큽니다 (최대 20MB)");
    assert!(korean_body_limit_message(200).is_none());
    assert_eq!(multipart_err(413, "x").status, 413);
    let e = multipart_err(400, "bad boundary");
    assert_eq!((e.status, e.message.as_str()), (400, "bad boundary"));
}

#[test]
fn first_admin_login_sets_the_password() {
    let body = AdminLoginBody { password: s("pw-1234") };
    let first = admin_login(&body, &None, "k").unwrap();
    let hash = first.new_hash.clone().unwrap();
    assert!(decode_admin_token(&first.token.token, "k").is_ok());
    let again = admin_login(&body, &Some(hash.clone()), "k").unwrap();
    assert!(again.new_hash.is_none());
    let wrong = admin_login(&AdminLoginBody { password: s("nope") }, &Some(hash), "k").unwrap_err();
    assert_eq!((wrong.status, wrong.message.as_str()), (401, "비밀번호가 틀렸습니다"));
    assert!(admin_status(&Some(s("x"))).initialized);
    assert!(!admin_status(&Some(s(""))).initialized);
    assert!(!admin_status(&None).initialized);
}

#[test]
fn teacher_login_paths() {
    let hash = admin_login(&AdminLoginBody { password: s("classpw") }, &None, "k").unwrap().new_hash.unwrap();
    let body = TeacherLoginBody { grade: 1, class_no: 2, password: s("classpw") };
    let ok = teacher_login(&body, &None, &Some((hash.clone(), Some(s("김선생")))), "k").unwrap();
    assert_eq!((ok.grade, ok.class_no, ok.teacher_name.as_deref()), (1, 2, Some("김선생")));
    let e = teacher_login(&body, &None, &None, "k").unwrap_err();
    assert_eq!((e.status, e.message.as_str()), (404, "해당 반이 없습니다"));
    let e = teacher_login(&body, &None, &Some((s(""), None)), "k").unwrap_err();
    assert_eq!((e.status, e.message.as_str()), (401, "비밀번호가 설정되지 않았습니다"));
    let grad = TeacherLoginBody { grade: 0, class_no: 0, password: s("classpw") };
    let e = teacher_login(&grad, &None, &None, "k").unwrap_err();
    assert_eq!((e.status, e.message.as_str()), (401, "관리자 비밀번호가 설정되지 않았습니다"));
    let g = teacher_login(&grad, &Some(hash), &None, "k").unwrap();
    assert_eq!((g.grade, g.class_no, g.teacher_name.as_deref()), (0, 0, Some("졸업생")));
}

#[test]
fn password_changes() {
    let hash = admin_login(&AdminLoginBody { password: s("old-password") }, &None, "k").unwrap().new_hash.unwrap();
    let short = ChangePasswordBody { current_password: s("old-password"), new_password: s("short") };
    assert_eq!(change_admin_password(&short, &Some(hash.clone())).unwrap_err().message, "새 비밀번호는 8자 이상이어야 합니다");
    let wrong = ChangePasswordBody { current_password: s("bad"), new_password: s("long-enough") };
    assert_eq!(change_admin_password(&wrong, &Some(hash.clone())).unwrap_err().message, "현재 비밀번호가 틀렸습니다");
    assert_eq!(change_admin_password(&wrong, &None).unwrap_err().message, "설정값 없음");
    let good = ChangePasswordBody { current_password: s("old-password"), new_password: s("long-enough") };
    let new_hash = change_admin_password(&good, &Some(hash.clone())).unwrap();
    assert!(admin_login(&AdminLoginBody { password: s("long-enough") }, &Some(new_hash), "k").is_ok());
    // Three Korean characters are nine bytes: long enough.
    let korean = ChangePasswordBody { current_password: s("old-password"), new_password: s("가나다") };
    assert!(change_admin_password(&korean, &Some(hash.clone())).is_ok());

    let grad = TeacherClaims { role: s("teacher"), grade: 0, class_no: 0, exp: 0 };
    assert_eq!(check_teacher_password_change(&grad, &good).unwrap_err().status, 403);
    let t = TeacherClaims { role: s("teacher"), grade: 1, class_no: 1, exp: 0 };
    let tiny = ChangePasswordBody { current_password: s("x"), new_password: s("abc") };
    assert_eq!(check_teacher_password_change(&t, &tiny).unwrap_err().message, "비밀번호는 4자 이상이어야 합니다");
    assert!(teacher_change_password(&good, &hash).is_ok());
    assert_eq!(teacher_change_password(&wrong, &hash).unwrap_err().status, 400);
}

fn headers() -> Vec<String> {
    vec![s("학년"), s("반"), s("담임명"), s("비밀번호")]
}

#[test]
fn class_sheet_rows() {
    let mut seen: Vec<(i64, i64)> = vec![];
    let r = class_import_row(&vec![s("1"), s("2"), s("김선생"), s("")], &headers(), 2, &mut seen).unwrap();
    assert_eq!((r.grade, r.class_no, r.teacher_name.as_str(), r.password.is_none()), (1, 2, "김선생", true));
    let e = class_import_row(&vec![s("1"), s("2"), s("이선생"), s("")], &headers(), 3, &mut seen).unwrap_err();
    assert_eq!(e, "3행: 1학년 2반 중복 — 파일에 같은 반이 두 번 이상 존재합니다");
    let e = class_import_row(&vec![s("0"), s("2"), s("x"), s("")], &headers(), 4, &mut seen).unwrap_err();
    assert_eq!(e, "4행: 학년 값이 올바르지 않습니다");
    let e = class_import_row(&vec![s("1"), s("x"), s("x"), s("")], &headers(), 5, &mut seen).unwrap_err();
    assert_eq!(e, "5행: 반 값이 올바르지 않습니다");
    let e = class_import_row(&vec![s("1"), s("3"), s(""), s("")], &headers(), 6, &mut seen).unwrap_err();
    assert_eq!(e, "6행: 담임명 누락");
    // The class of a line with a missing teacher still counts as seen.
    let e = class_import_row(&vec![s("1"), s("3"), s("박"), s("")], &headers(), 7, &mut seen).unwrap_err();
    assert!(e.starts_with("7행: 1학년 3반 중복"));
    let e = class_import_row(&vec![s("2"), s("1"), s("박"), s("abc")], &headers(), 8, &mut seen).unwrap_err();
    assert_eq!(e, "8행: 비밀번호는 4자 이상이어야 합니다");
    let r = class_import_row(&vec![s(" 3 "), s("1"), s("최"), s("abcd")], &headers(), 9, &mut seen).unwrap();
    assert_eq!((r.grade, r.password.as_deref()), (3, Some("abcd")));
    assert_eq!(new_class_password_error(10), "10행: 신규 학급은 비밀번호가 필요합니다");
}

#[test]
fn saving_a_class() {
    let none = UpsertClassBody { teacher_name: None, password: None };
    let pw = UpsertClassBody { teacher_name: None, password: Some(s("1234")) };
    assert_eq!(plan_class_save(0, 0, &pw, false).unwrap_err().message, "학년=0, 반=0은 졸업생 전용 예약값으로 사용할 수 없습니다");
    assert_eq!(plan_class_save(-1, 2, &pw, false).unwrap_err().message, "학년과 반은 1 이상이어야 합니다");
    let short = UpsertClassBody { teacher_name: None, password: Some(s("12")) };
    assert_eq!(plan_class_save(1, 1, &short, true).unwrap_err().message, "비밀번호는 4자 이상이어야 합니다");
    assert_eq!(plan_class_save(1, 1, &none, false).unwrap_err().message, "신규 학급은 비밀번호를 설정해야 합니다");
    assert_eq!(plan_class_save(1, 1, &pw, false), Ok(ClassSave::Insert));
    assert_eq!(plan_class_save(1, 1, &none, true), Ok(ClassSave::Unchanged));
    assert_eq!(plan_class_save(1, 1, &pw, true), Ok(ClassSave::Update));
}

#[test]
fn deleting_a_class() {
    let e = check_class_deletable(2, 5, 30, true).unwrap_err();
    assert_eq!((e.status, e.message.as_str()), (409, "2학년 5반에 학생 30명이 등록되어 있어 삭제할 수 없습니다."));
    assert_eq!(check_class_deletable(2, 5, 0, false).unwrap_err().status, 404);
    assert!(check_class_deletable(2, 5, 0, true).is_ok());
}

#[test]
fn confirmations() {
    let c = confirmation_of(Some(s("2024-01-01")));
    assert!(c.confirmed);
    assert!(!confirmation_of(None).confirmed);
    assert_eq!(check_not_confirmed(true).unwrap_err().message, "이미 확정되었습니다");
    assert!(check_not_confirmed(false).is_ok());
    assert_eq!(check_revoked(0).unwrap_err().message, "확정 내역이 없습니다");
    assert!(check_revoked(1).is_ok());
    let rows = vec![
        ClassConfirmRow { grade: 1, class_no: 1, teacher_name: Some(s("a")), confirmed_at: None },
        ClassConfirmRow { grade: 1, class_no: 2, teacher_name: None, confirmed_at: Some(s("t")) },
    ];
    let st = confirmation_status(rows.clone(), None, false);
    assert_eq!(st.classes.len(), 2);
    assert!(!st.classes[0].confirmed && st.classes[1].confirmed);
    let st = confirmation_status(rows, Some(s("t2")), false);
    assert_eq!(st.classes.len(), 3);
    let g = &st.classes[2];
    assert_eq!((g.grade, g.class_no, g.teacher_name.as_deref(), g.confirmed), (0, 0, Some("졸업생"), true));
}

fn now_secs() -> u64 {
    std::time::SystemTime::now().duration_since(std::time::UNIX_EPOCH).unwrap().as_secs()
}

#[test]
fn tokens_made_at_a_given_time_last_twelve_hours() {
    let now = now_secs();
    let t = encode_admin_token_at(now, "k");
    let c = decode_admin_token(&t, "k").unwrap();
    assert_eq!(c.exp as u64, now + 12 * 3600);
    assert_eq!(expiry_after(now, 12) as u64, now + 43_200);
    let t = encode_teacher_token_at(2, 5, now, "k");
    let c = decode_teacher_token(&t, "k").unwrap();
    assert_eq!((c.grade, c.class_no, c.exp as u64), (2, 5, now + 43_200));
    // The same time and secret give the same token.
    assert_eq!(encode_admin_token_at(now, "k"), encode_admin_token_at(now, "k"));
}

#[test]
fn forged_or_expired_tokens_are_refused() {
    let t = encode_admin_token_at(now_secs(), "k");
    let mut forged = t.clone();
    let last = forged.pop().unwrap();
    forged.push(if last == 'A' { 'B' } else { 'A' });
    assert!(decode_admin_token(&forged, "k").is_err());
    // A token that expired long ago.
    let old = encode_admin_token_at(1_000, "k");
    assert!(decode_admin_token(&old, "k").is_err());
    // A teacher token is no admin token.
    let teacher = encode_teacher_token(1, 1, "k");
    assert!(decode_admin_token(&teacher, "k").is_err());
}

#[test]
fn malformed_stored_hash_is_a_server_error() {
    let body = AdminLoginBody { password: s("pw-1234") };
    let e = admin_login(&body, &Some(s("not-a-bcrypt-hash")), "k").unwrap_err();
    assert_eq!(e.status, 500);
    let change = ChangePasswordBody { current_password: s("pw-1234"), new_password: s("long-enough") };
    assert_eq!(change_admin_password(&change, &Some(s("not-a-bcrypt-hash"))).unwrap_err().status, 500);
    assert_eq!(teacher_change_password(&change, "not-a-bcrypt-hash").unwrap_err().status, 500);
}
