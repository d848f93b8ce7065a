//! The round lifecycle: OPEN → CLOSED → FINALIZED, with CLOSED → OPEN to
//! reopen. A new round opens only when every earlier round is finalized, so
//! at most one round is ever in progress.
use vstd::prelude::*;
use crate::enums::RoundStatus;
use crate::guards::{is_refusal, refuse, refuse_chars, Refusal};
use crate::text::{append_str, chars_of, i64_text, int_text, push_all, string_of};

verus! {

/// A change of state of an existing round.
#[derive(Debug, Clone, Copy, PartialEq, Eq, Structural)]
pub enum RoundStep {
    /// OPEN → CLOSED (scores are then calculated).
    Close,
    /// CLOSED → OPEN (recommendations, rankings and exclusions are reset).
    Reopen,
    /// CLOSED → FINALIZED (results become final).
    Finalize,
}

/// The state a step leads to from `s`, when the step is allowed there.
pub open spec fn step_result(s: RoundStatus, step: RoundStep) -> Option<RoundStatus> {
    match (s, step) {
        (RoundStatus::Open, RoundStep::Close) => Some(RoundStatus::Closed),
        (RoundStatus::Closed, RoundStep::Reopen) => Some(RoundStatus::Open),
        (RoundStatus::Closed, RoundStep::Finalize) => Some(RoundStatus::Finalized),
        _ => None,
    }
}

/// The message when a step is not allowed on round `id`.
pub open spec fn step_refusal_text(step: RoundStep, id: i64) -> Seq<char> {
    match step {
        RoundStep::Close => "라운드 id="@ + int_text(id as int) + " 없거나 이미 CLOSED"@,
        _ => "라운드를 찾을 수 없거나 CLOSED 상태가 아닙니다"@,
    }
}

/// Decides a step on round `id` in state `status` (`None`: no such round):
/// the new state, or 404 when the round is missing or in the wrong state.
pub fn round_step(status: Option<RoundStatus>, step: RoundStep, id: i64) -> (r: Result<RoundStatus, Refusal>)
    ensures
        match status {
            Some(s) if step_result(s, step) is Some => r == Ok::<RoundStatus, Refusal>(step_result(s, step)->0),
            _ => is_refusal(r, 404, step_refusal_text(step, id)),
        },
{
    let next = match (status, step) {
        (Some(RoundStatus::Open), RoundStep::Close) => Some(RoundStatus::Closed),
        (Some(RoundStatus::Closed), RoundStep::Reopen) => Some(RoundStatus::Open),
        (Some(RoundStatus::Closed), RoundStep::Finalize) => Some(RoundStatus::Finalized),
        _ => None,
    };
    match next {
        Some(s) => Ok(s),
        None => match step {
            RoundStep::Close => {
                let mut v = chars_of("라운드 id=");
                push_all(&mut v, &i64_text(id));
                append_str(&mut v, " 없거나 이미 CLOSED");
                Err(refuse_chars(404, &v))
            },
            _ => Err(refuse(404, "라운드를 찾을 수 없거나 CLOSED 상태가 아닙니다")),
        },
    }
}

/// Every round is finalized.
pub open spec fn all_finalized(rounds: Seq<RoundStatus>) -> bool {
    forall|i: int| 0 <= i < rounds.len() ==> rounds[i] == RoundStatus::Finalized
}

/// A new round may open only when no round is OPEN or CLOSED (409 otherwise).
pub fn check_can_open(rounds: &Vec<RoundStatus>) -> (r: Result<(), Refusal>)
    ensures
        all_finalized(rounds@) ==> r is Ok,
        !all_finalized(rounds@) ==> is_refusal(
            r,
            409,
            "진행 중인 라운드가 있습니다. 모든 라운드가 마감된 후에만 새 라운드를 열 수 있습니다"@,
        ),
{
    let mut i: usize = 0;
    while i < rounds.len()
        invariant
            i <= rounds@.len(),
            forall|j: int| 0 <= j < i ==> rounds@[j] == RoundStatus::Finalized,
        decreases rounds@.len() - i,
    {
        if rounds[i] != RoundStatus::Finalized {
            return Err(refuse(409, "진행 중인 라운드가 있습니다. 모든 라운드가 마감된 후에만 새 라운드를 열 수 있습니다"));
        }
        i = i + 1;
    }
    Ok(())
}

/// A lifecycle operation on the table of rounds (in creation order).
#[derive(Debug, Clone, Copy, PartialEq, Eq, Structural)]
pub enum RoundOp {
    /// Open a new round.
    Open,
    /// Apply a step to the round at an index.
    Step(RoundStep, usize),
}

/// The table of rounds after an operation, when the operation is allowed.
pub open spec fn apply_op(rounds: Seq<RoundStatus>, op: RoundOp) -> Option<Seq<RoundStatus>> {
    match op {
        RoundOp::Open => if all_finalized(rounds) {
            Some(rounds.push(RoundStatus::Open))
        } else {
            None
        },
        RoundOp::Step(step, i) => if i < rounds.len() && step_result(rounds[i as int], step) is Some {
            Some(rounds.update(i as int, step_result(rounds[i as int], step)->0))
        } else {
            None
        },
    }
}

/// A round in progress: OPEN or CLOSED.
pub open spec fn in_progress(s: RoundStatus) -> bool {
    s == RoundStatus::Open || s == RoundStatus::Closed
}

/// At most one round is in progress.
pub open spec fn single_in_progress(rounds: Seq<RoundStatus>) -> bool {
    forall|i: int, j: int|
        0 <= i < rounds.len() && 0 <= j < rounds.len() && in_progress(#[trigger] rounds[i]) && in_progress(
            #[trigger] rounds[j],
        ) ==> i == j
}

/// Law: every allowed operation keeps at most one round in progress.
pub proof fn law_single_round_in_progress(rounds: Seq<RoundStatus>, op: RoundOp)
    requires
        single_in_progress(rounds),
        apply_op(rounds, op) is Some,
    ensures
        single_in_progress(apply_op(rounds, op)->0),
{
    let r = apply_op(rounds, op)->0;
    match op {
        RoundOp::Open => {
            assert forall|i: int, j: int|
                0 <= i < r.len() && 0 <= j < r.len() && in_progress(#[trigger] r[i]) && in_progress(#[trigger] r[j]) implies i
                == j by {
                if i < rounds.len() {
                    assert(r[i] == rounds[i]);
                }
                if j < rounds.len() {
                    assert(r[j] == rounds[j]);
                }
            }
        },
        RoundOp::Step(step, k) => {
            assert forall|i: int, j: int|
                0 <= i < r.len() && 0 <= j < r.len() && in_progress(#[trigger] r[i]) && in_progress(#[trigger] r[j]) implies i
                == j by {
                assert(in_progress(rounds[k as int]));
                if i != k as int {
                    assert(r[i] == rounds[i]);
                }
                if j != k as int {
                    assert(r[j] == rounds[j]);
                }
            }
        },
    }
}

/// Law: reopening undoes closing.
pub proof fn law_reopen_undoes_close(rounds: Seq<RoundStatus>, i: usize)
    requires
        apply_op(rounds, RoundOp::Step(RoundStep::Close, i)) is Some,
    ensures
        apply_op(apply_op(rounds, RoundOp::Step(RoundStep::Close, i))->0, RoundOp::Step(RoundStep::Reopen, i))
            == Some(rounds),
{
    let closed = apply_op(rounds, RoundOp::Step(RoundStep::Close, i))->0;
    assert(closed.update(i as int, RoundStatus::Open) =~= rounds);
}

/// Law: a finalized round never changes state again.
pub proof fn law_finalized_is_final(rounds: Seq<RoundStatus>, i: usize, op: RoundOp)
    requires
        i < rounds.len(),
        rounds[i as int] == RoundStatus::Finalized,
        apply_op(rounds, op) is Some,
    ensures
        (apply_op(rounds, op)->0)[i as int] == RoundStatus::Finalized,
{
}

/// An application whose student lacks base data for an area.
#[derive(Debug, Clone)]
pub struct MissingBaseData {
    pub area: String,
    pub student: String,
    pub code: String,
    pub univ: String,
    pub track: String,
}

/// One line of the missing-data message.
pub open spec fn missing_line(m: MissingBaseData) -> Seq<char> {
    "전형요소 '"@ + m.area@ + "': "@ + m.univ@ + " "@ + m.track@ + " 지원자 "@ + m.student@ + " ("@ + m.code@ + ")"@
}

/// The lines of the missing-data message, each after a line break.
pub open spec fn missing_lines(ms: Seq<MissingBaseData>) -> Seq<char>
    decreases ms.len(),
{
    if ms.len() == 0 {
        Seq::empty()
    } else {
        missing_lines(ms.drop_last()) + "\n"@ + missing_line(ms.last())
    }
}

/// Closing a round is refused (422) while applications lack base data; the message
/// lists the gaps found, one per line.
pub fn check_base_data_complete(missing: &Vec<MissingBaseData>) -> (r: Result<(), Refusal>)
    ensures
        missing@.len() == 0 ==> r is Ok,
        missing@.len() > 0 ==> is_refusal(r, 422, "기초데이터 누락으로 라운드를 종료할 수 없습니다:"@ + missing_lines(missing@)),
{
    if missing.len() == 0 {
        return Ok(());
    }
    let mut v = chars_of("기초데이터 누락으로 라운드를 종료할 수 없습니다:");
    let ghost head = v@;
    let mut i: usize = 0;
    while i < missing.len()
        invariant
            i <= missing@.len(),
            v@ == head + missing_lines(missing@.take(i as int)),
        decreases missing@.len() - i,
    {
        let m = &missing[i];
        append_str(&mut v, "\n");
        append_str(&mut v, "전형요소 '");
        append_str(&mut v, m.area.as_str());
        append_str(&mut v, "': ");
        append_str(&mut v, m.univ.as_str());
        append_str(&mut v, " ");
        append_str(&mut v, m.track.as_str());
        append_str(&mut v, " 지원자 ");
        append_str(&mut v, m.student.as_str());
        append_str(&mut v, " (");
        append_str(&mut v, m.code.as_str());
        append_str(&mut v, ")");
        assert(missing@.take(i + 1).drop_last() =~= missing@.take(i as int));
        assert(missing@.take(i + 1).last() == missing@[i as int]);
        i = i + 1;
    }
    assert(missing@.take(i as int) =~= missing@);
    Err(refuse_chars(422, &v))
}

/// Why a round cannot be finalized.
#[derive(Debug, Clone, Copy, PartialEq, Eq, Structural)]
pub enum FinalizeBlock {
    /// Some applications are neither recommended nor excluded.
    Undecided,
    /// Some track or university holds more recommendations than its quota.
    OverQuota,
}

/// The message shown with the list of what blocks finalization.
pub open spec fn finalize_block_text(b: FinalizeBlock) -> Seq<char> {
    match b {
        FinalizeBlock::Undecided => "추천 또는 제외가 결정되지 않은 지원자가 있어 라운드를 마감할 수 없습니다"@,
        FinalizeBlock::OverQuota => "정원 초과로 라운드를 확정할 수 없습니다"@,
    }
}

/// Finalizing needs every application decided, then no quota exceeded.
pub fn check_finalizable(undecided: usize, track_violations: usize, univ_violations: usize) -> (r: Result<(), FinalizeBlock>)
    ensures
        undecided > 0 ==> r == Err::<(), FinalizeBlock>(FinalizeBlock::Undecided),
        undecided == 0 && (track_violations > 0 || univ_violations > 0) ==> r == Err::<(), FinalizeBlock>(FinalizeBlock::OverQuota),
        undecided == 0 && track_violations == 0 && univ_violations == 0 ==> r is Ok,
{
    if undecided > 0 {
        Err(FinalizeBlock::Undecided)
    } else if track_violations > 0 || univ_violations > 0 {
        Err(FinalizeBlock::OverQuota)
    } else {
        Ok(())
    }
}

/// The message of a finalization block.
pub fn finalize_block_message(b: FinalizeBlock) -> (s: String)
    ensures
        s@ == finalize_block_text(b),
{
    match b {
        FinalizeBlock::Undecided => string_of(&chars_of("추천 또는 제외가 결정되지 않은 지원자가 있어 라운드를 마감할 수 없습니다")),
        FinalizeBlock::OverQuota => string_of(&chars_of("정원 초과로 라운드를 확정할 수 없습니다")),
    }
}

} // verus!
