//! An application's total: the area scores added in area order, stopping at the
//! first partial sum that leaves the `i64` range.
use vstd::prelude::*;
use crate::text::{append_str, chars_of, string_of};

verus! {

/// The running total of `s`, or `None` once a partial sum leaves the `i64` range.
pub open spec fn checked_sum(s: Seq<i64>) -> Option<int>
    decreases s.len(),
{
    if s.len() == 0 {
        Some(0)
    } else {
        match checked_sum(s.drop_last()) {
            None => None,
            Some(t) => if i64::MIN <= t + s.last() <= i64::MAX {
                Some(t + s.last())
            } else {
                None
            },
        }
    }
}

/// Adds the scores in order with `checked_add`.
pub fn checked_total(scores: &Vec<i64>) -> (r: Option<i64>)
    ensures
        match checked_sum(scores@) {
            Some(t) => r == Some(t as i64),
            None => r is None,
        },
{
    let mut acc: i64 = 0;
    let mut i: usize = 0;
    while i < scores.len()
        invariant
            i <= scores@.len(),
            checked_sum(scores@.take(i as int)) == Some(acc as int),
        decreases scores@.len() - i,
    {
        assert(scores@.take(i + 1).drop_last() =~= scores@.take(i as int));
        match acc.checked_add(scores[i]) {
            Some(v) => {
                acc = v;
            },
            None => {
                proof {
                    lemma_none_stays(scores@, i as int + 1);
                    assert(scores@.take(scores@.len() as int) =~= scores@);
                }
                return None;
            },
        }
        i = i + 1;
    }
    assert(scores@.take(i as int) =~= scores@);
    Some(acc)
}

proof fn lemma_none_stays(s: Seq<i64>, k: int)
    requires
        0 < k <= s.len(),
        checked_sum(s.take(k)) is None,
    ensures
        checked_sum(s) is None,
    decreases s.len() - k,
{
    if k < s.len() {
        assert(s.take(k + 1).drop_last() =~= s.take(k));
        lemma_none_stays(s, k + 1);
    } else {
        assert(s.take(k) =~= s);
    }
}

/// The overflow message naming the applicant.
pub open spec fn overflow_text(name: Seq<char>, code: Seq<char>) -> Seq<char> {
    "점수 합산 오버플로우: 지원자 "@ + name + " ("@ + code + ")"@
}

/// An application's total score during a round calculation, or the overflow
/// message naming the applicant.
pub fn application_total(scores: &Vec<i64>, student_name: &str, student_code: &str) -> (r: Result<i64, String>)
    ensures
        match checked_sum(scores@) {
            Some(t) => r == Ok::<i64, String>(t as i64),
            None => r matches Err(m) && m@ == overflow_text(student_name@, student_code@),
        },
{
    match checked_total(scores) {
        Some(t) => Ok(t),
        None => {
            let mut v = chars_of("점수 합산 오버플로우: 지원자 ");
            append_str(&mut v, student_name);
            append_str(&mut v, " (");
            append_str(&mut v, student_code);
            append_str(&mut v, ")");
            Err(string_of(&v))
        },
    }
}

} // verus!
