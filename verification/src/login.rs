//! Signing in and changing passwords. Passwords are kept as bcrypt hashes; the
//! first administrator sign-in sets the administrator password.
use vstd::prelude::*;
use crate::auth::{admin_json, expiry_spec, encode_admin_token, encode_teacher_token, is_grad_teacher, teacher_json, token_text, TeacherClaims};
use crate::guards::{is_refusal, refuse, Refusal};
use crate::text::{chars_of, string_of, utf8_len, utf8_len_below};

verus! {

/// The administrator's sign-in request.
#[derive(Debug, Clone)]
pub struct AdminLoginBody {
    pub password: String,
}

/// A class teacher's sign-in request (grade 0, class 0: the graduates' teacher).
#[derive(Debug, Clone)]
pub struct TeacherLoginBody {
    pub grade: i64,
    pub class_no: i64,
    pub password: String,
}

/// A password change request.
#[derive(Debug, Clone)]
pub struct ChangePasswordBody {
    pub current_password: String,
    pub new_password: String,
}

/// The administrator's token.
#[derive(Debug, Clone)]
pub struct TokenResponse {
    pub token: String,
}

/// A class teacher's token, with the class it is for.
#[derive(Debug, Clone)]
pub struct TeacherTokenResponse {
    pub token: String,
    pub grade: i64,
    pub class_no: i64,
    pub teacher_name: Option<String>,
}

/// Whether the administrator password has been set.
#[derive(Debug, Clone, Copy)]
pub struct AdminStatusResponse {
    pub initialized: bool,
}

/// A successful administrator sign-in: the token, and the hash to store when this
/// sign-in set the password.
#[derive(Debug, Clone)]
pub struct AdminLogin {
    pub token: TokenResponse,
    pub new_hash: Option<String>,
}

/// What `bcrypt::verify` answers for a password and a stored hash: whether the
/// password is the hash's, or the crate's message for a malformed hash (its
/// prefix, cost, salt or digest). A function of its arguments alone.
pub uninterp spec fn bcrypt_verify(password: Seq<char>, hash: Seq<char>) -> Result<bool, Seq<char>>;

/// `password` is the password of bcrypt hash `hash`.
pub open spec fn bcrypt_matches(password: Seq<char>, hash: Seq<char>) -> bool {
    bcrypt_verify(password, hash) == Ok::<bool, Seq<char>>(true)
}

/// `hash` is a well-formed bcrypt hash, so checking `password` against it gives an answer.
pub open spec fn bcrypt_hash_ok(password: Seq<char>, hash: Seq<char>) -> bool {
    bcrypt_verify(password, hash) is Ok
}

/// `bcrypt::verify`: its answer, or its message for a malformed hash.
#[verifier::external_body]
fn verify_password(password: &str, hash: &str) -> (r: Result<bool, String>)
    ensures
        match r {
            Ok(b) => bcrypt_verify(password@, hash@) == Ok::<bool, Seq<char>>(b),
            Err(e) => bcrypt_verify(password@, hash@) == Err::<bool, Seq<char>>(e@),
        },
{
    bcrypt::verify(password, hash).map_err(|e| e.to_string())
}

/// `bcrypt::hash` at the default cost. The salt is random, so the hash itself is
/// not stated; what the crate's source shows is that verifying the same password
/// against it succeeds (the hash it writes is well formed). `Err` when the system
/// gives no randomness.
#[verifier::external_body]
fn hash_password(password: &str) -> (r: Result<String, String>)
    ensures
        r matches Ok(h) ==> bcrypt_matches(password@, h@),
{
    bcrypt::hash(password, bcrypt::DEFAULT_COST).map_err(|e| e.to_string())
}

/// A stored hash that is absent or empty means the password was never set.
pub open spec fn unset(hash: Option<String>) -> bool {
    match hash {
        Some(h) => h@.len() == 0,
        None => true,
    }
}

fn is_unset(hash: &Option<String>) -> (r: bool)
    ensures
        r == unset(*hash),
{
    match hash {
        Some(h) => chars_of(h.as_str()).len() == 0,
        None => true,
    }
}

fn server_error(e: String) -> (r: Refusal)
    ensures
        r.status == 500,
        r.message@ == e@,
{
    Refusal { status: 500, message: e }
}

/// The administrator status: initialised once a non-empty hash is stored.
pub fn admin_status(hash: &Option<String>) -> (r: AdminStatusResponse)
    ensures
        r.initialized == !unset(*hash),
{
    AdminStatusResponse { initialized: !is_unset(hash) }
}

/// Signs the administrator in against the stored hash. With no password set yet,
/// the given password becomes the password (its hash is returned to be stored);
/// otherwise a wrong password is refused with 401. Hashing or verifying failures are 500.
pub fn admin_login(body: &AdminLoginBody, stored: &Option<String>, secret: &str) -> (r: Result<AdminLogin, Refusal>)
    ensures
        r matches Ok(l) ==> exists|now: u64| l.token.token@ == token_text(admin_json(#[trigger] expiry_spec(now, 12)), secret@),
        unset(*stored) ==> (r matches Ok(l) ==> (l.new_hash is Some && bcrypt_matches(body.password@, l.new_hash->0@))),
        unset(*stored) ==> (r is Err ==> r->Err_0.status == 500),
        !unset(*stored) ==> (r matches Ok(l) ==> l.new_hash is None && bcrypt_matches(body.password@, stored->0@)),
        !unset(*stored) && !bcrypt_matches(body.password@, stored->0@) ==> r is Err,
        r matches Err(e) ==> e.status == 500 || (e.status == 401 && e.message@ == "비밀번호가 틀렸습니다"@
            && !unset(*stored) && !bcrypt_matches(body.password@, stored->0@)),
        !unset(*stored) && bcrypt_matches(body.password@, stored->0@) ==> r is Ok,
        !unset(*stored) && bcrypt_verify(body.password@, stored->0@) == Ok::<bool, Seq<char>>(false) ==> is_refusal(
            r,
            401,
            "비밀번호가 틀렸습니다"@,
        ),
        !unset(*stored) ==> (bcrypt_verify(body.password@, stored->0@) matches Err(m) ==> is_refusal(r, 500, m)),
        unset(*stored) ==> r is Ok || r->Err_0.status == 500,
{
    let new_hash = if is_unset(stored) {
        match hash_password(body.password.as_str()) {
            Ok(h) => Some(h),
            Err(e) => {
                return Err(server_error(e));
            },
        }
    } else {
        let h = match stored {
            Some(h) => h,
            None => {
                return Err(refuse(500, "설정값 없음"));
            },
        };
        match verify_password(body.password.as_str(), h.as_str()) {
            Ok(true) => {},
            Ok(false) => {
                return Err(refuse(401, "비밀번호가 틀렸습니다"));
            },
            Err(e) => {
                return Err(server_error(e));
            },
        }
        None
    };
    let token = encode_admin_token(secret);
    Ok(AdminLogin { token: TokenResponse { token }, new_hash })
}

/// The stored hash of a class row (empty when unset).
pub open spec fn class_hash(row: Option<(String, Option<String>)>) -> Seq<char> {
    match row {
        Some((h, _)) => h@,
        None => Seq::empty(),
    }
}

/// The teacher name of a class row.
pub open spec fn class_teacher(row: Option<(String, Option<String>)>) -> Option<String> {
    match row {
        Some((_, n)) => n,
        None => None,
    }
}

/// The answer owed for a stored hash: success when the password is the hash's,
/// 401 when it is not, 500 with the crate's message when the hash is malformed.
pub open spec fn login_answer<T>(r: Result<T, Refusal>, password: Seq<char>, hash: Seq<char>) -> bool {
    match bcrypt_verify(password, hash) {
        Ok(true) => r is Ok,
        Ok(false) => is_refusal(r, 401, "비밀번호가 틀렸습니다"@),
        Err(m) => is_refusal(r, 500, m),
    }
}

/// The graduates' teacher is grade 0, class 0.
pub open spec fn graduate_login(body: TeacherLoginBody) -> bool {
    body.grade == 0 && body.class_no == 0
}

/// Signs a class teacher in. The graduates' teacher signs in with the administrator
/// password (`admin_hash`); any other teacher with the class's password
/// (`class_row`: the class's hash, empty when unset, and teacher name; `None` when
/// there is no such class).
pub fn teacher_login(body: &TeacherLoginBody, admin_hash: &Option<String>, class_row: &Option<(String, Option<String>)>, secret: &str) -> (r: Result<TeacherTokenResponse, Refusal>)
    ensures
        graduate_login(*body) && unset(*admin_hash) ==> is_refusal(r, 401, "관리자 비밀번호가 설정되지 않았습니다"@),
        graduate_login(*body) && !unset(*admin_hash) ==> (r matches Ok(t) ==> (bcrypt_matches(body.password@, admin_hash->0@)
            && t.grade == 0 && t.class_no == 0 && (t.teacher_name matches Some(n) && n@ == "졸업생"@))),
        !graduate_login(*body) && class_row is None ==> is_refusal(r, 404, "해당 반이 없습니다"@),
        !graduate_login(*body) && class_row is Some && class_hash(*class_row).len() == 0 ==> is_refusal(r, 401, "비밀번호가 설정되지 않았습니다"@),
        !graduate_login(*body) && class_row is Some && class_hash(*class_row).len() > 0 ==> (r matches Ok(t) ==> (bcrypt_matches(body.password@, class_hash(*class_row))
            && t.grade == body.grade && t.class_no == body.class_no && t.teacher_name == class_teacher(*class_row))),
        r matches Ok(t) ==> exists|now: u64| t.token@ == token_text(teacher_json(body.grade, body.class_no, #[trigger] expiry_spec(now, 12)), secret@),
        r matches Err(e) ==> e.status == 500 || e.status == 401 || e.status == 404,
        graduate_login(*body) && !unset(*admin_hash) ==> login_answer(r, body.password@, admin_hash->0@),
        !graduate_login(*body) && class_row is Some && class_hash(*class_row).len() > 0 ==> login_answer(
            r,
            body.password@,
            class_hash(*class_row),
        ),
{
    if body.grade == 0 && body.class_no == 0 {
        if is_unset(admin_hash) {
            return Err(refuse(401, "관리자 비밀번호가 설정되지 않았습니다"));
        }
        let h = match admin_hash {
            Some(h) => h,
            None => {
                return Err(refuse(401, "관리자 비밀번호가 설정되지 않았습니다"));
            },
        };
        match verify_password(body.password.as_str(), h.as_str()) {
            Ok(true) => {},
            Ok(false) => {
                return Err(refuse(401, "비밀번호가 틀렸습니다"));
            },
            Err(e) => {
                return Err(server_error(e));
            },
        }
        let token = encode_teacher_token(0, 0, secret);
        let name = string_of(&chars_of("졸업생"));
        return Ok(TeacherTokenResponse { token, grade: 0, class_no: 0, teacher_name: Some(name) });
    }
    let (hash, teacher_name) = match class_row {
        Some(row) => (&row.0, &row.1),
        None => {
            return Err(refuse(404, "해당 반이 없습니다"));
        },
    };
    if chars_of(hash.as_str()).len() == 0 {
        return Err(refuse(401, "비밀번호가 설정되지 않았습니다"));
    }
    match verify_password(body.password.as_str(), hash.as_str()) {
        Ok(true) => {},
        Ok(false) => {
            return Err(refuse(401, "비밀번호가 틀렸습니다"));
        },
        Err(e) => {
            return Err(server_error(e));
        },
    }
    let token = encode_teacher_token(body.grade, body.class_no, secret);
    Ok(TeacherTokenResponse { token, grade: body.grade, class_no: body.class_no, teacher_name: teacher_name.clone() })
}

/// Changes the administrator password: the current password must verify against the
/// stored hash (400 otherwise) and the new one must have at least 8 bytes (400).
/// Returns the new hash to store.
pub fn change_admin_password(body: &ChangePasswordBody, current_hash: &Option<String>) -> (r: Result<String, Refusal>)
    ensures
        current_hash is None ==> is_refusal(r, 500, "설정값 없음"@),
        current_hash is Some && !bcrypt_matches(body.current_password@, current_hash->0@) ==> r is Err,
        r matches Ok(n) ==> (current_hash is Some && bcrypt_matches(body.current_password@, current_hash->0@)
            && utf8_len(body.new_password@) >= 8 && bcrypt_matches(body.new_password@, n@)),
        current_hash is Some && utf8_len(body.new_password@) < 8 ==> r is Err,
        r matches Err(e) ==> e.status == 500 || (e.status == 400 && (e.message@ == "현재 비밀번호가 틀렸습니다"@
            || e.message@ == "새 비밀번호는 8자 이상이어야 합니다"@)),
        current_hash matches Some(h) ==> change_answer(r, body.current_password@, h@, utf8_len(body.new_password@) >= 8, "새 비밀번호는 8자 이상이어야 합니다"@),
{
    let h = match current_hash {
        Some(h) => h,
        None => {
            return Err(refuse(500, "설정값 없음"));
        },
    };
    match verify_password(body.current_password.as_str(), h.as_str()) {
        Ok(true) => {},
        Ok(false) => {
            return Err(refuse(400, "현재 비밀번호가 틀렸습니다"));
        },
        Err(e) => {
            return Err(server_error(e));
        },
    }
    if utf8_len_below(body.new_password.as_str(), 8) {
        return Err(refuse(400, "새 비밀번호는 8자 이상이어야 합니다"));
    }
    match hash_password(body.new_password.as_str()) {
        Ok(n) => Ok(n),
        Err(e) => Err(server_error(e)),
    }
}

/// The answer owed to a password change against a stored hash: 400 when the
/// current password is not the hash's; then, where the new password is too short,
/// 400 with `short`; otherwise the new hash, unless hashing fails (500); a
/// malformed stored hash is 500 with the crate's message.
pub open spec fn change_answer(r: Result<String, Refusal>, current: Seq<char>, hash: Seq<char>, long_enough: bool, short: Seq<char>) -> bool {
    match bcrypt_verify(current, hash) {
        Ok(true) => if long_enough {
            r is Ok || r->Err_0.status == 500
        } else {
            is_refusal(r, 400, short)
        },
        Ok(false) => is_refusal(r, 400, "현재 비밀번호가 틀렸습니다"@),
        Err(m) => is_refusal(r, 500, m),
    }
}

/// The checks before a class teacher's password change: the graduates' teacher
/// cannot change it (403), and the new password needs at least 4 bytes (400).
pub fn check_teacher_password_change(claims: &TeacherClaims, body: &ChangePasswordBody) -> (r: Result<(), Refusal>)
    ensures
        claims.grade == 0 && claims.class_no == 0 ==> is_refusal(r, 403, "졸업생 담당은 비밀번호 변경을 지원하지 않습니다"@),
        !(claims.grade == 0 && claims.class_no == 0) && utf8_len(body.new_password@) < 4 ==> is_refusal(
            r,
            400,
            "비밀번호는 4자 이상이어야 합니다"@,
        ),
        !(claims.grade == 0 && claims.class_no == 0) && utf8_len(body.new_password@) >= 4 ==> r is Ok,
{
    if is_grad_teacher(claims) {
        return Err(refuse(403, "졸업생 담당은 비밀번호 변경을 지원하지 않습니다"));
    }
    if utf8_len_below(body.new_password.as_str(), 4) {
        return Err(refuse(400, "비밀번호는 4자 이상이어야 합니다"));
    }
    Ok(())
}

/// Changes a class teacher's password once the checks passed: the current password
/// must verify against the class's hash (400 otherwise). Returns the new hash.
pub fn teacher_change_password(body: &ChangePasswordBody, current_hash: &str) -> (r: Result<String, Refusal>)
    ensures
        !bcrypt_matches(body.current_password@, current_hash@) ==> r is Err,
        r matches Ok(n) ==> bcrypt_matches(body.current_password@, current_hash@) && bcrypt_matches(body.new_password@, n@),
        r matches Err(e) ==> e.status == 500 || (e.status == 400 && e.message@ == "현재 비밀번호가 틀렸습니다"@),
        change_answer(r, body.current_password@, current_hash@, true, Seq::empty()),
{
    match verify_password(body.current_password.as_str(), current_hash) {
        Ok(true) => {},
        Ok(false) => {
            return Err(refuse(400, "현재 비밀번호가 틀렸습니다"));
        },
        Err(e) => {
            return Err(server_error(e));
        },
    }
    match hash_password(body.new_password.as_str()) {
        Ok(n) => Ok(n),
        Err(e) => Err(server_error(e)),
    }
}

/// The hash to store for a new password (a class's, set by the administrator).
/// Hashing failures are 500.
pub fn hash_new_password(password: &str) -> (r: Result<String, Refusal>)
    ensures
        r matches Ok(h) ==> bcrypt_matches(password@, h@),
        r matches Err(e) ==> e.status == 500,
{
    match hash_password(password) {
        Ok(h) => Ok(h),
        Err(e) => Err(server_error(e)),
    }
}

} // verus!
