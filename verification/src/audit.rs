//! The audit log: who acted, and how an actor is recorded and shown.
use vstd::prelude::*;
use crate::guards::{is_refusal, refuse_chars, Refusal};
use crate::text::{append_str, chars_of, i64_text, int_text, push_all, string_of};

verus! {

/// Who performed an audited action.
#[derive(Debug, Clone, Copy, PartialEq, Eq, Structural)]
pub enum Actor {
    Admin,
    /// A class teacher; grade 0, class 0 is the teacher of the graduates.
    Teacher { grade: i64, class_no: i64 },
}

/// How an actor is stored: its type text and its class.
pub fn actor_columns(actor: Actor) -> (r: (String, Option<i64>, Option<i64>))
    ensures
        actor == Actor::Admin ==> r.0@ == "ADMIN"@ && r.1 is None && r.2 is None,
        actor matches Actor::Teacher { grade, class_no } ==> r.0@ == "TEACHER"@ && r.1 == Some(grade) && r.2 == Some(
            class_no,
        ),
{
    match actor {
        Actor::Admin => (string_of(&chars_of("ADMIN")), None, None),
        Actor::Teacher { grade, class_no } => (string_of(&chars_of("TEACHER")), Some(grade), Some(class_no)),
    }
}

/// Where the recorded name of an actor comes from.
#[derive(Debug, Clone, PartialEq, Eq)]
pub enum ActorName {
    /// A fixed name.
    Known(String),
    /// The teacher name of this class, which must exist.
    LookUp { grade: i64, class_no: i64 },
    /// No name (the administrator).
    Unnamed,
}

/// The name of the teacher of the graduates is fixed; a class teacher's
/// name is that of the class; the administrator has none.
pub fn actor_name_source(grade: Option<i64>, class_no: Option<i64>) -> (r: ActorName)
    ensures
        match (grade, class_no) {
            (Some(g), Some(c)) => if g == 0 && c == 0 {
                r matches ActorName::Known(n) && n@ == "졸업생"@
            } else {
                r == ActorName::LookUp { grade: g, class_no: c }
            },
            _ => r == ActorName::Unnamed,
        },
{
    match (grade, class_no) {
        (Some(g), Some(c)) => if g == 0 && c == 0 {
            ActorName::Known(string_of(&chars_of("졸업생")))
        } else {
            ActorName::LookUp { grade: g, class_no: c }
        },
        _ => ActorName::Unnamed,
    }
}

/// The fault when an acting class has no account.
pub fn missing_class_refusal(grade: i64, class_no: i64) -> (r: Refusal)
    ensures
        r.status == 500,
        r.message@ == "감사 기록 실패: "@ + int_text(grade as int) + "학년 "@ + int_text(class_no as int)
            + "반 계정이 존재하지 않습니다"@,
{
    let mut v = chars_of("감사 기록 실패: ");
    push_all(&mut v, &i64_text(grade));
    append_str(&mut v, "학년 ");
    push_all(&mut v, &i64_text(class_no));
    append_str(&mut v, "반 계정이 존재하지 않습니다");
    refuse_chars(500, &v)
}

/// A request of the audit list.
#[derive(Debug, Clone)]
pub struct AuditQuery {
    pub page: i64,
    pub per_page: i64,
    pub round_id: Option<i64>,
    pub action: Option<String>,
    /// The class filter applies only when both grade and class are given.
    pub grade: Option<i64>,
    pub class_no: Option<i64>,
}

/// A recorded action.
#[derive(Debug, Clone)]
pub struct AuditRow {
    pub id: i64,
    pub at: String,
    pub actor_type: String,
    pub actor_grade: Option<i64>,
    pub actor_class_no: Option<i64>,
    pub actor_name: Option<String>,
    pub actor_ip: Option<String>,
    pub action: String,
    pub round_id: Option<i64>,
    pub student_id: Option<i64>,
    pub detail: String,
}

/// A page of the audit list.
#[derive(Debug, Clone)]
pub struct AuditPage {
    pub rows: Vec<AuditRow>,
    pub total: i64,
    pub page: i64,
    pub per_page: i64,
}

/// The window of an audit-list request: 1 to 200 rows per page.
pub fn audit_window(q: &AuditQuery) -> (w: crate::listing::PageWindow)
    requires
        ({
            let (p, pp) = crate::listing::window_of(q.page, q.per_page, Some(200));
            (p - 1) * pp <= i64::MAX
        }),
    ensures
        ({
            let (p, pp) = crate::listing::window_of(q.page, q.per_page, Some(200));
            w.page == p && w.per_page == pp && w.offset == (p - 1) * pp
        }),
{
    crate::listing::page_window(q.page, q.per_page, Some(200))
}

/// How an actor is shown in the exported log.
pub open spec fn actor_label(
    actor_type: Seq<char>,
    grade: Option<i64>,
    class_no: Option<i64>,
    name: Option<Seq<char>>,
) -> Seq<char> {
    if actor_type == "ADMIN"@ {
        "관리자"@
    } else {
        match (grade, class_no) {
            (Some(g), Some(c)) => if g == 0 && c == 0 {
                "졸업생 담당"@
            } else {
                match name {
                    Some(n) => int_text(g as int) + "학년 "@ + int_text(c as int) + "반 "@ + n,
                    None => int_text(g as int) + "학년 "@ + int_text(c as int) + "반"@,
                }
            },
            _ => actor_type,
        }
    }
}

/// Shows the actor of a recorded action (see `actor_label`).
pub fn audit_actor_label(row: &AuditRow) -> (s: String)
    ensures
        s@ == actor_label(
            row.actor_type@,
            row.actor_grade,
            row.actor_class_no,
            match row.actor_name {
                Some(n) => Some(n@),
                None => None,
            },
        ),
{
    if crate::text::str_is(row.actor_type.as_str(), "ADMIN") {
        return string_of(&chars_of("관리자"));
    }
    match (row.actor_grade, row.actor_class_no) {
        (Some(g), Some(c)) => {
            if g == 0 && c == 0 {
                return string_of(&chars_of("졸업생 담당"));
            }
            let mut v = i64_text(g);
            append_str(&mut v, "학년 ");
            push_all(&mut v, &i64_text(c));
            match &row.actor_name {
                Some(n) => {
                    append_str(&mut v, "반 ");
                    append_str(&mut v, n.as_str());
                },
                None => {
                    append_str(&mut v, "반");
                },
            }
            string_of(&v)
        },
        _ => row.actor_type.clone(),
    }
}

} // verus!
