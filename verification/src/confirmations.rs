//! A class teacher's confirmation that the class's applications for a round are
//! final, and the administrator's overview of those confirmations.
use vstd::prelude::*;
use crate::guards::{is_refusal, refuse, Refusal};
use crate::text::{chars_of, string_of};

verus! {

/// The grade of the graduates' pseudo-class.
pub const GRADUATE_GRADE: i64 = 0;

/// The class number of the graduates' pseudo-class.
pub const GRADUATE_CLASS_NO: i64 = 0;

/// One class's confirmation state.
#[derive(Debug, Clone)]
pub struct ConfirmationResponse {
    pub confirmed: bool,
    pub confirmed_at: Option<String>,
}

/// A class in the administrator's overview.
#[derive(Debug, Clone)]
pub struct ClassConfirmation {
    pub grade: i64,
    pub class_no: i64,
    pub teacher_name: Option<String>,
    pub confirmed: bool,
    pub confirmed_at: Option<String>,
}

/// The administrator's overview of a round's confirmations.
#[derive(Debug, Clone)]
pub struct ConfirmationStatusResponse {
    pub classes: Vec<ClassConfirmation>,
}

/// A class row with its confirmation time, if any.
#[derive(Debug, Clone)]
pub struct ClassConfirmRow {
    pub grade: i64,
    pub class_no: i64,
    pub teacher_name: Option<String>,
    pub confirmed_at: Option<String>,
}

/// A class is confirmed exactly when a confirmation time is recorded.
pub fn confirmation_of(confirmed_at: Option<String>) -> (r: ConfirmationResponse)
    ensures
        r.confirmed == confirmed_at is Some,
        r.confirmed_at == confirmed_at,
{
    ConfirmationResponse { confirmed: confirmed_at.is_some(), confirmed_at }
}

/// Confirming twice is refused.
pub fn check_not_confirmed(already: bool) -> (r: Result<(), Refusal>)
    ensures
        already ==> is_refusal(r, 409, "이미 확정되었습니다"@),
        !already ==> r is Ok,
{
    if already {
        Err(refuse(409, "이미 확정되었습니다"))
    } else {
        Ok(())
    }
}

/// Revoking a confirmation that was not there is refused.
pub fn check_revoked(affected: u64) -> (r: Result<(), Refusal>)
    ensures
        affected == 0 ==> is_refusal(r, 404, "확정 내역이 없습니다"@),
        affected != 0 ==> r is Ok,
{
    if affected == 0 {
        Err(refuse(404, "확정 내역이 없습니다"))
    } else {
        Ok(())
    }
}

/// The overview entry of a class row.
pub open spec fn class_entry(r: ClassConfirmRow) -> ClassConfirmation {
    ClassConfirmation {
        grade: r.grade,
        class_no: r.class_no,
        teacher_name: r.teacher_name,
        confirmed: r.confirmed_at is Some,
        confirmed_at: r.confirmed_at,
    }
}

/// The overview: the regular classes in the given order, then the graduates'
/// pseudo-class when graduates exist or a confirmation was recorded for it.
pub fn confirmation_status(rows: Vec<ClassConfirmRow>, grad_confirmed_at: Option<String>, has_graduates: bool) -> (r: ConfirmationStatusResponse)
    ensures
        (has_graduates || grad_confirmed_at is Some) ==> r.classes@.len() == rows@.len() + 1,
        !(has_graduates || grad_confirmed_at is Some) ==> r.classes@.len() == rows@.len(),
        forall|k: int| 0 <= k < rows@.len() ==> #[trigger] r.classes@[k] == class_entry(rows@[k]),
        (has_graduates || grad_confirmed_at is Some) ==> ({
            let g = r.classes@[rows@.len() as int];
            &&& g.grade == GRADUATE_GRADE
            &&& g.class_no == GRADUATE_CLASS_NO
            &&& g.teacher_name matches Some(n) && n@ == "졸업생"@
            &&& g.confirmed == grad_confirmed_at is Some
            &&& g.confirmed_at == grad_confirmed_at
        }),
{
    let mut classes: Vec<ClassConfirmation> = Vec::new();
    let n = rows.len();
    let mut rest = rows;
    let ghost all = rest@;
    let mut i: usize = 0;
    while i < n
        invariant
            n == all.len(),
            i <= n,
            rest@ == all.skip(i as int),
            classes@.len() == i,
            forall|k: int| 0 <= k < i ==> #[trigger] classes@[k] == class_entry(all[k]),
        decreases n - i,
    {
        let row = rest.remove(0);
        assert(row == all[i as int]);
        assert(rest@ =~= all.skip(i + 1));
        let confirmed = row.confirmed_at.is_some();
        classes.push(ClassConfirmation {
            grade: row.grade,
            class_no: row.class_no,
            teacher_name: row.teacher_name,
            confirmed,
            confirmed_at: row.confirmed_at,
        });
        i = i + 1;
    }
    if has_graduates || grad_confirmed_at.is_some() {
        let confirmed = grad_confirmed_at.is_some();
        classes.push(ClassConfirmation {
            grade: GRADUATE_GRADE,
            class_no: GRADUATE_CLASS_NO,
            teacher_name: Some(string_of(&chars_of("졸업생"))),
            confirmed,
            confirmed_at: grad_confirmed_at,
        });
    }
    ConfirmationStatusResponse { classes }
}

} // verus!
