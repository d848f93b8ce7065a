//! The checks that decide whether a request on a round is refused, and with
//! which status and message. The database supplies the facts; every check
//! here is a pure function of them.
use vstd::prelude::*;
use crate::display::{fmt_score, score_text};
use crate::enums::RoundStatus;
use crate::text::{append_str, chars_of, i64_text, int_text, push_all, string_of, trim, trim_chars};

verus! {

/// A refused request: an HTTP status and the message shown to the user.
#[derive(Debug, Clone, PartialEq, Eq)]
pub struct Refusal {
    pub status: u16,
    pub message: String,
}

/// `r` is the refusal with this status and message.
pub open spec fn refused(r: Refusal, status: u16, message: Seq<char>) -> bool {
    r.status == status && r.message@ == message
}

/// `r` fails with this status and message.
pub open spec fn is_refusal<T>(r: Result<T, Refusal>, status: u16, message: Seq<char>) -> bool {
    r matches Err(e) && refused(e, status, message)
}

/// The refusal with a fixed message.
pub fn refuse(status: u16, message: &str) -> (r: Refusal)
    ensures
        refused(r, status, message@),
{
    let v = chars_of(message);
    Refusal { status, message: string_of(&v) }
}

/// The refusal with a composed message.
pub fn refuse_chars(status: u16, message: &Vec<char>) -> (r: Refusal)
    ensures
        refused(r, status, message@),
{
    Refusal { status, message: string_of(message) }
}

/// The operations that need the round in one given state.
#[derive(Debug, Clone, Copy, PartialEq, Eq, Structural)]
pub enum RoundGate {
    /// Calculating scores (CLOSED).
    CalculateScores,
    /// Confirming a recommendation (CLOSED).
    Recommend,
    /// Cancelling a recommendation (CLOSED).
    Unrecommend,
    /// Running the automatic recommendation (CLOSED).
    AutoRecommend,
    /// Recording that an applicant gave up (FINALIZED).
    Abandon,
    /// Saving an application (OPEN).
    SaveApplication,
    /// Deleting an application (OPEN).
    DeleteApplication,
    /// A class teacher confirming the class's applications (OPEN).
    ConfirmClass,
    /// A class teacher revoking that confirmation (OPEN).
    RevokeClass,
}

/// The state a gate needs.
pub open spec fn gate_status(g: RoundGate) -> RoundStatus {
    match g {
        RoundGate::CalculateScores | RoundGate::Recommend | RoundGate::Unrecommend | RoundGate::AutoRecommend => RoundStatus::Closed,
        RoundGate::Abandon => RoundStatus::Finalized,
        _ => RoundStatus::Open,
    }
}

/// The message when the round is in another state.
pub open spec fn gate_text(g: RoundGate) -> Seq<char> {
    match g {
        RoundGate::CalculateScores => "CLOSED 라운드에서만 점수 계산이 가능합니다"@,
        RoundGate::Recommend => "CLOSED 라운드에서만 추천 확정이 가능합니다"@,
        RoundGate::Unrecommend => "CLOSED 라운드에서만 추천 취소가 가능합니다"@,
        RoundGate::AutoRecommend => "CLOSED 라운드에서만 자동 추천 확정이 가능합니다"@,
        RoundGate::Abandon => "FINALIZED 라운드에서만 포기 입력이 가능합니다"@,
        RoundGate::SaveApplication => "라운드가 OPEN 상태가 아닙니다"@,
        RoundGate::DeleteApplication => "OPEN 라운드의 지원만 취소할 수 있습니다"@,
        RoundGate::ConfirmClass => "OPEN 라운드에서만 확정할 수 있습니다"@,
        RoundGate::RevokeClass => "OPEN 라운드에서만 확정을 취소할 수 있습니다"@,
    }
}

/// Checks the round's state for an operation: a missing round is 404, a
/// round in another state is 400.
pub fn check_round_gate(status: Option<RoundStatus>, gate: RoundGate) -> (r: Result<(), Refusal>)
    ensures
        match status {
            None => is_refusal(r, 404, "라운드를 찾을 수 없습니다"@),
            Some(s) => if s == gate_status(gate) {
                r is Ok
            } else {
                is_refusal(r, 400, gate_text(gate))
            },
        },
{
    let s = match status {
        None => {
            return Err(refuse(404, "라운드를 찾을 수 없습니다"));
        },
        Some(s) => s,
    };
    let need = match gate {
        RoundGate::CalculateScores | RoundGate::Recommend | RoundGate::Unrecommend | RoundGate::AutoRecommend => RoundStatus::Closed,
        RoundGate::Abandon => RoundStatus::Finalized,
        _ => RoundStatus::Open,
    };
    if s == need {
        return Ok(());
    }
    let msg = match gate {
        RoundGate::CalculateScores => "CLOSED 라운드에서만 점수 계산이 가능합니다",
        RoundGate::Recommend => "CLOSED 라운드에서만 추천 확정이 가능합니다",
        RoundGate::Unrecommend => "CLOSED 라운드에서만 추천 취소가 가능합니다",
        RoundGate::AutoRecommend => "CLOSED 라운드에서만 자동 추천 확정이 가능합니다",
        RoundGate::Abandon => "FINALIZED 라운드에서만 포기 입력이 가능합니다",
        RoundGate::SaveApplication => "라운드가 OPEN 상태가 아닙니다",
        RoundGate::DeleteApplication => "OPEN 라운드의 지원만 취소할 수 있습니다",
        RoundGate::ConfirmClass => "OPEN 라운드에서만 확정할 수 있습니다",
        RoundGate::RevokeClass => "OPEN 라운드에서만 확정을 취소할 수 있습니다",
    };
    Err(refuse(400, msg))
}

/// Excluding an applicant, or clearing the exclusion, needs a CLOSED round.
pub fn check_round_closed_for_exclusion(status: Option<RoundStatus>) -> (r: Result<(), Refusal>)
    ensures
        match status {
            Some(RoundStatus::Closed) => r is Ok,
            Some(RoundStatus::Open) => is_refusal(r, 400, "진행 중 라운드는 담임이 지원을 삭제하세요"@),
            Some(RoundStatus::Finalized) => r matches Err(e) && refused(
                e,
                400,
                "마감된 라운드의 지원은 미선발 처리를 변경할 수 없습니다"@,
            ),
            None => is_refusal(r, 404, "라운드를 찾을 수 없습니다"@),
        },
{
    match status {
        Some(RoundStatus::Closed) => Ok(()),
        Some(RoundStatus::Open) => Err(refuse(400, "진행 중 라운드는 담임이 지원을 삭제하세요")),
        Some(RoundStatus::Finalized) => Err(refuse(400, "마감된 라운드의 지원은 미선발 처리를 변경할 수 없습니다")),
        None => Err(refuse(404, "라운드를 찾을 수 없습니다")),
    }
}

/// The message when scores are older than the base data.
pub open spec fn needs_recalc_text() -> Seq<char> {
    "기초데이터가 변경되어 점수가 최신이 아닙니다. 점수를 재계산한 뒤 다시 시도하세요."@
}

/// Scores older than the base data block a recommendation (409) and the
/// finalization of a round (422).
pub fn check_scores_current(needs_recalc: bool, finalizing: bool) -> (r: Result<(), Refusal>)
    ensures
        !needs_recalc ==> r is Ok,
        needs_recalc ==> is_refusal(r, if finalizing { 422u16 } else { 409u16 }, needs_recalc_text()),
{
    if needs_recalc {
        let status: u16 = if finalizing { 422 } else { 409 };
        Err(refuse(status, "기초데이터가 변경되어 점수가 최신이 아닙니다. 점수를 재계산한 뒤 다시 시도하세요."))
    } else {
        Ok(())
    }
}

/// An excluded application cannot be recommended.
pub fn check_not_excluded(excluded: Option<bool>) -> (r: Result<(), Refusal>)
    ensures
        excluded == Some(true) ==> is_refusal(r, 409, "미선발 처리된 지원은 추천할 수 없습니다"@),
        excluded != Some(true) ==> r is Ok,
{
    if excluded == Some(true) {
        Err(refuse(409, "미선발 처리된 지원은 추천할 수 없습니다"))
    } else {
        Ok(())
    }
}

/// The message of a full quota: `prefix + quota + "명)이 이미 찼습니다 (현재 추천 확정 " + used + "명)"`.
pub open spec fn quota_full_text(prefix: Seq<char>, quota: i64, used: i64) -> Seq<char> {
    prefix + int_text(quota as int) + "명)이 이미 찼습니다 (현재 추천 확정 "@ + int_text(used as int) + "명)"@
}

fn quota_full(prefix: &str, quota: i64, used: i64) -> (r: Refusal)
    ensures
        refused(r, 409, quota_full_text(prefix@, quota, used)),
{
    let mut v = chars_of(prefix);
    push_all(&mut v, &i64_text(quota));
    append_str(&mut v, "명)이 이미 찼습니다 (현재 추천 확정 ");
    push_all(&mut v, &i64_text(used));
    append_str(&mut v, "명)");
    refuse_chars(409, &v)
}

/// A finite track quota already reached blocks a recommendation.
pub fn check_track_quota(unit_quota: Option<i64>, used: i64) -> (r: Result<(), Refusal>)
    ensures
        match unit_quota {
            Some(q) if used >= q => is_refusal(r, 409, quota_full_text("모집단위 정원("@, q, used)),
            _ => r is Ok,
        },
{
    match unit_quota {
        Some(q) => if used >= q {
            Err(quota_full("모집단위 정원(", q, used))
        } else {
            Ok(())
        },
        None => Ok(()),
    }
}

/// A finite university quota already reached blocks a recommendation.
pub fn check_univ_quota(total_quota: Option<i64>, used: i64) -> (r: Result<(), Refusal>)
    ensures
        match total_quota {
            Some(q) if used >= q => is_refusal(r, 409, quota_full_text("대학 전체 정원("@, q, used)),
            _ => r is Ok,
        },
{
    match total_quota {
        Some(q) => if used >= q {
            Err(quota_full("대학 전체 정원(", q, used))
        } else {
            Ok(())
        },
        None => Ok(()),
    }
}

/// The message when better-ranked applicants of the same track are still open.
pub open spec fn track_order_text(blockers: i64, top: i64) -> Seq<char> {
    "같은 모집단위에 아직 추천되지 않은 상위 순위 지원자가 "@ + int_text(blockers as int)
        + "명 있습니다 (최상위 모집단위 순위 "@ + int_text(top as int)
        + "위). 모집단위 순위를 건너뛴 추천은 할 수 없습니다. 상위 지원자를 먼저 추천하거나, 해당 지원자가 지원을 포기한 경우 포기 처리 후 다시 시도하세요."@
}

/// A recommendation may not skip an open applicant ranked strictly higher in
/// the same track (`blockers` of them, the best at track rank `top_rank`).
pub fn check_track_order(blockers: i64, top_rank: Option<i64>) -> (r: Result<(), Refusal>)
    ensures
        blockers <= 0 ==> r is Ok,
        blockers > 0 ==> match top_rank {
            None => is_refusal(r, 500, "상위 미추천자 순위를 계산할 수 없습니다"@),
            Some(top) => is_refusal(r, 409, track_order_text(blockers, top)),
        },
{
    if blockers > 0 {
        let top = match top_rank {
            None => {
                return Err(refuse(500, "상위 미추천자 순위를 계산할 수 없습니다"));
            },
            Some(top) => top,
        };
        let mut v = chars_of("같은 모집단위에 아직 추천되지 않은 상위 순위 지원자가 ");
        push_all(&mut v, &i64_text(blockers));
        append_str(&mut v, "명 있습니다 (최상위 모집단위 순위 ");
        push_all(&mut v, &i64_text(top));
        append_str(
            &mut v,
            "위). 모집단위 순위를 건너뛴 추천은 할 수 없습니다. 상위 지원자를 먼저 추천하거나, 해당 지원자가 지원을 포기한 경우 포기 처리 후 다시 시도하세요.",
        );
        return Err(refuse_chars(409, &v));
    }
    Ok(())
}

/// The message when better university-ranked applicants of other tracks with
/// free seats are still open.
pub open spec fn cross_order_text(blockers: i64, top: i64) -> Seq<char> {
    "같은 대학 내 다른 모집단위에 아직 추천되지 않은 상위 대학 순위 지원자가 "@ + int_text(blockers as int)
        + "명 있습니다 (최상위 대학 순위 "@ + int_text(top as int)
        + "위). 해당 모집단위에 빈자리가 있으므로, 상위 지원자를 먼저 추천하거나 미선발 처리 후 다시 시도하세요."@
}

/// Under a finite university quota, a recommendation may not squeeze out an
/// open applicant of another track of the university who is ranked higher in
/// the university and whose track still has a free seat.
pub fn check_cross_track_order(blockers: i64, top_rank: Option<i64>) -> (r: Result<(), Refusal>)
    ensures
        blockers <= 0 ==> r is Ok,
        blockers > 0 ==> match top_rank {
            None => is_refusal(r, 500, "상위 미추천자 대학 순위를 계산할 수 없습니다"@),
            Some(top) => is_refusal(r, 409, cross_order_text(blockers, top)),
        },
{
    if blockers > 0 {
        let top = match top_rank {
            None => {
                return Err(refuse(500, "상위 미추천자 대학 순위를 계산할 수 없습니다"));
            },
            Some(top) => top,
        };
        let mut v = chars_of("같은 대학 내 다른 모집단위에 아직 추천되지 않은 상위 대학 순위 지원자가 ");
        push_all(&mut v, &i64_text(blockers));
        append_str(&mut v, "명 있습니다 (최상위 대학 순위 ");
        push_all(&mut v, &i64_text(top));
        append_str(
            &mut v,
            "위). 해당 모집단위에 빈자리가 있으므로, 상위 지원자를 먼저 추천하거나 미선발 처리 후 다시 시도하세요.",
        );
        return Err(refuse_chars(409, &v));
    }
    Ok(())
}

/// A recommendation, or its cancellation, must have changed a result row.
pub fn check_result_changed(affected: u64, cancelling: bool) -> (r: Result<(), Refusal>)
    ensures
        affected > 0 ==> r is Ok,
        affected == 0 && !cancelling ==> is_refusal(r, 404, "결과 행을 찾을 수 없습니다 (점수 계산 후 시도하세요)"@),
        affected == 0 && cancelling ==> is_refusal(r, 404, "해당 지원자·모집단위·라운드의 결과가 없습니다"@),
{
    if affected > 0 {
        Ok(())
    } else if cancelling {
        Err(refuse(404, "해당 지원자·모집단위·라운드의 결과가 없습니다"))
    } else {
        Err(refuse(404, "결과 행을 찾을 수 없습니다 (점수 계산 후 시도하세요)"))
    }
}

/// An application can be excluded only when it exists and is not excluded yet.
pub fn check_can_exclude(current_excluded: Option<bool>) -> (r: Result<(), Refusal>)
    ensures
        current_excluded == Some(false) ==> r is Ok,
        current_excluded is None ==> is_refusal(r, 404, "지원 내역을 찾을 수 없습니다"@),
        current_excluded == Some(true) ==> is_refusal(r, 409, "이미 미선발 처리된 지원입니다"@),
{
    match current_excluded {
        None => Err(refuse(404, "지원 내역을 찾을 수 없습니다")),
        Some(true) => Err(refuse(409, "이미 미선발 처리된 지원입니다")),
        Some(false) => Ok(()),
    }
}

/// A recommended application cannot be excluded: both flags would count it
/// against the quota while it is not selectable.
pub fn check_not_recommended(recommended: Option<bool>) -> (r: Result<(), Refusal>)
    ensures
        recommended == Some(true) ==> is_refusal(
            r,
            409,
            "이미 추천 확정된 지원은 미선발 처리할 수 없습니다. 추천을 먼저 취소한 후 미선발 처리하세요."@,
        ),
        recommended != Some(true) ==> r is Ok,
{
    if recommended == Some(true) {
        Err(refuse(409, "이미 추천 확정된 지원은 미선발 처리할 수 없습니다. 추천을 먼저 취소한 후 미선발 처리하세요."))
    } else {
        Ok(())
    }
}

/// An exclusion can be cleared only when the application exists and is excluded.
pub fn check_can_clear_exclusion(current_excluded: Option<bool>) -> (r: Result<(), Refusal>)
    ensures
        current_excluded == Some(true) ==> r is Ok,
        current_excluded is None ==> is_refusal(r, 404, "지원 내역을 찾을 수 없습니다"@),
        current_excluded == Some(false) ==> is_refusal(r, 409, "미선발 상태가 아닙니다"@),
{
    match current_excluded {
        None => Err(refuse(404, "지원 내역을 찾을 수 없습니다")),
        Some(false) => Err(refuse(409, "미선발 상태가 아닙니다")),
        Some(true) => Ok(()),
    }
}

/// The reason given for an exclusion, trimmed; it may not be blank.
pub fn exclusion_reason(reason: &str) -> (r: Result<String, Refusal>)
    ensures
        trim(reason@).len() > 0 ==> (r matches Ok(s) && s@ == trim(reason@)),
        trim(reason@).len() == 0 ==> is_refusal(r, 400, "미선발 사유는 필수입니다"@),
{
    let cs = chars_of(reason);
    let t = trim_chars(&cs);
    if t.len() == 0 {
        Err(refuse(400, "미선발 사유는 필수입니다"))
    } else {
        Ok(string_of(&t))
    }
}

/// Moving an application from `prev_track_id` to `track_id` within a round: refused
/// when the student already applied to the target track, or when the application
/// being moved is gone. Keeping the same track (or no previous track) moves nothing.
pub fn check_track_switch(prev_track_id: Option<i64>, track_id: i64, target_exists: bool, prev_exists: bool) -> (r: Result<(), Refusal>)
    ensures
        match prev_track_id {
            Some(p) if p != track_id => if target_exists {
                is_refusal(r, 409, "이미 해당 모집단위에 지원되어 있습니다. 기존 지원을 먼저 취소하세요"@)
            } else if !prev_exists {
                is_refusal(r, 404, "수정할 지원 내역을 찾을 수 없습니다"@)
            } else {
                r is Ok
            },
            _ => r is Ok,
        },
{
    match prev_track_id {
        Some(p) => {
            if p != track_id {
                if target_exists {
                    return Err(refuse(409, "이미 해당 모집단위에 지원되어 있습니다. 기존 지원을 먼저 취소하세요"));
                }
                if !prev_exists {
                    return Err(refuse(404, "수정할 지원 내역을 찾을 수 없습니다"));
                }
            }
            Ok(())
        },
        None => Ok(()),
    }
}

/// A class teacher may act only on the students of the class (for the graduates'
/// teacher: on graduates). `abandoning` selects the wording of the abandon screen.
pub fn check_own_student(ok: bool, abandoning: bool) -> (r: Result<(), Refusal>)
    ensures
        ok ==> r is Ok,
        !ok && !abandoning ==> is_refusal(r, 403, "해당 학생은 담당 학급이 아닙니다"@),
        !ok && abandoning ==> is_refusal(r, 403, "해당 학생이 이 반 소속이 아닙니다"@),
{
    if ok {
        Ok(())
    } else if abandoning {
        Err(refuse(403, "해당 학생이 이 반 소속이 아닙니다"))
    } else {
        Err(refuse(403, "해당 학생은 담당 학급이 아닙니다"))
    }
}

/// An update or delete that touched no application means there was none.
pub fn check_application_touched(affected: u64) -> (r: Result<(), Refusal>)
    ensures
        affected == 0 ==> is_refusal(r, 404, "지원 내역을 찾을 수 없습니다"@),
        affected != 0 ==> r is Ok,
{
    if affected == 0 {
        Err(refuse(404, "지원 내역을 찾을 수 없습니다"))
    } else {
        Ok(())
    }
}

} // verus!
