//! Request guards: bearer tokens for the two roles, and the answers given to
//! oversized uploads.
use vstd::prelude::*;
use crate::auth::{
    admin_claims_spec, admin_json, decode_admin_token, decode_teacher_token, signed_with, teacher_claims_spec, teacher_json,
    token_claims, token_text, AdminClaims, TeacherClaims,
};
use crate::guards::{is_refusal, refuse, Refusal};
use crate::text::{chars_of, string_of};

verus! {

/// The token of an `Authorization` header: what follows `Bearer `.
pub open spec fn bearer_spec(header: Option<Seq<char>>) -> Option<Seq<char>> {
    match header {
        Some(v) => if v.len() >= "Bearer "@.len() && v.take("Bearer "@.len() as int) == "Bearer "@ {
            Some(v.skip("Bearer "@.len() as int))
        } else {
            None
        },
        None => None,
    }
}

/// The bearer token of an `Authorization` header value, if the header is there and
/// starts with `Bearer `.
pub fn bearer_token(header: Option<&str>) -> (r: Option<String>)
    ensures
        match bearer_spec(match header { Some(h) => Some(h@), None => None }) {
            Some(t) => r matches Some(s) && s@ == t,
            None => r is None,
        },
{
    match header {
        None => None,
        Some(h) => {
            let v = chars_of(h);
            let p = chars_of("Bearer ");
            if v.len() < p.len() {
                return None;
            }
            let mut i: usize = 0;
            while i < p.len()
                invariant
                    i <= p@.len() <= v@.len(),
                    p@ == "Bearer "@,
                    v@ == h@,
                    header == Some(h),
                    v@.take(i as int) == p@.take(i as int),
                decreases p@.len() - i,
            {
                if v[i] != p[i] {
                    assert(v@.take(p@.len() as int)[i as int] != p@[i as int]);
                    assert(v@.take(p@.len() as int) != p@);
                    return None;
                }
                i = i + 1;
                assert(v@.take(i as int) =~= v@.take(i - 1).push(v@[i - 1]));
                assert(p@.take(i as int) =~= p@.take(i - 1).push(p@[i - 1]));
            }
            assert(p@.take(p@.len() as int) =~= p@);
            let mut rest: Vec<char> = Vec::new();
            let mut j: usize = p.len();
            while j < v.len()
                invariant
                    p@.len() <= j <= v@.len(),
                    rest@ == v@.subrange(p@.len() as int, j as int),
                decreases v@.len() - j,
            {
                rest.push(v[j]);
                j = j + 1;
                assert(v@.subrange(p@.len() as int, j as int) =~= v@.subrange(p@.len() as int, j - 1).push(v@[j - 1]));
            }
            assert(rest@ =~= v@.skip(p@.len() as int));
            Some(string_of(&rest))
        },
    }
}

/// An `Authorization` header as plain text.
pub open spec fn header_view(header: Option<&str>) -> Option<Seq<char>> {
    match header {
        Some(h) => Some(h@),
        None => None,
    }
}

/// Admits an administrator request: 401 "토큰이 없습니다" exactly when the header
/// holds no bearer token; otherwise the token and the secret go to
/// `decode_admin_token`, and the request is admitted with its claims exactly
/// when that accepts them, else refused with 401 "유효하지 않은 토큰". An admitted
/// token is signed with the secret and holds administrator claims; a class
/// teacher's token is never admitted.
pub fn authorize_admin(header: Option<&str>, secret: &str) -> (r: Result<AdminClaims, Refusal>)
    ensures
        bearer_spec(header_view(header)) is None ==> is_refusal(r, 401, "토큰이 없습니다"@),
        bearer_spec(header_view(header)) is Some ==> r is Ok || is_refusal(r, 401, "유효하지 않은 토큰"@),
        r is Err ==> r->Err_0.status == 401,
        r matches Ok(c) ==> c.role@ == "admin"@ && (bearer_spec(header_view(header)) matches Some(t) && signed_with(
            t,
            secret@,
        ) && admin_claims_spec(token_claims(t)) == Ok::<(Seq<char>, u64), Seq<char>>((c.role@, c.exp as u64))),
        bearer_spec(header_view(header)) matches Some(t) && admin_claims_spec(token_claims(t)) is Err ==> r is Err,
        forall|g: i64, k: i64, e: usize|
            bearer_spec(header_view(header)) == Some(#[trigger] token_text(teacher_json(g, k, e), secret@)) ==> r is Err,
{
    match bearer_token(header) {
        None => Err(refuse(401, "토큰이 없습니다")),
        Some(t) => match decode_admin_token(t.as_str(), secret) {
            Ok(c) => Ok(c),
            Err(_) => Err(refuse(401, "유효하지 않은 토큰")),
        },
    }
}

/// Admits a class-teacher request: 401 "토큰이 없습니다" exactly when the header
/// holds no bearer token; otherwise the token and the secret go to
/// `decode_teacher_token`, and the request is admitted with its claims exactly
/// when that accepts them, else refused with 401 "유효하지 않은 토큰". An admitted
/// token is signed with the secret and holds class-teacher claims; an
/// administrator's token is never admitted.
pub fn authorize_teacher(header: Option<&str>, secret: &str) -> (r: Result<TeacherClaims, Refusal>)
    ensures
        bearer_spec(header_view(header)) is None ==> is_refusal(r, 401, "토큰이 없습니다"@),
        bearer_spec(header_view(header)) is Some ==> r is Ok || is_refusal(r, 401, "유효하지 않은 토큰"@),
        r is Err ==> r->Err_0.status == 401,
        r matches Ok(c) ==> c.role@ == "teacher"@ && (bearer_spec(header_view(header)) matches Some(t) && signed_with(
            t,
            secret@,
        ) && teacher_claims_spec(token_claims(t)) == Ok::<(Seq<char>, i64, i64, u64), Seq<char>>(
            (c.role@, c.grade, c.class_no, c.exp as u64),
        )),
        bearer_spec(header_view(header)) matches Some(t) && teacher_claims_spec(token_claims(t)) is Err ==> r is Err,
        forall|e: usize| bearer_spec(header_view(header)) == Some(#[trigger] token_text(admin_json(e), secret@)) ==> r is Err,
{
    match bearer_token(header) {
        None => Err(refuse(401, "토큰이 없습니다")),
        Some(t) => match decode_teacher_token(t.as_str(), secret) {
            Ok(c) => Ok(c),
            Err(_) => Err(refuse(401, "유효하지 않은 토큰")),
        },
    }
}

/// The message of an upload over the 20 MB limit.
pub open spec fn too_large_text() -> Seq<char> {
    "업로드 파일 크기가 너무 큽니다 (최대 20MB)"@
}

/// A response with status 413 is answered with the Korean size message instead;
/// any other response passes unchanged (`None`).
pub fn korean_body_limit_message(status: u16) -> (r: Option<Refusal>)
    ensures
        status == 413 ==> (r matches Some(f) && f.status == 413 && f.message@ == too_large_text()),
        status != 413 ==> r is None,
{
    if status == 413 {
        Some(refuse(413, "업로드 파일 크기가 너무 큽니다 (최대 20MB)"))
    } else {
        None
    }
}

/// A multipart reading error: over the size limit it is 413 with the Korean
/// message; otherwise 400 with the error's own text.
pub fn multipart_err(status: u16, text: &str) -> (r: Refusal)
    ensures
        status == 413 ==> r.status == 413 && r.message@ == too_large_text(),
        status != 413 ==> r.status == 400 && r.message@ == text@,
{
    if status == 413 {
        refuse(413, "업로드 파일 크기가 너무 큽니다 (최대 20MB)")
    } else {
        refuse(400, text)
    }
}

} // verus!
