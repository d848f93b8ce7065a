//! Range-table lookup: matching a numeric value against `(threshold, score)`
//! rows in the UPPER, LOWER or EXACT direction.
use vstd::prelude::*;
use crate::display::{fmt_score, score_text};
use crate::enums::MatchMode;
use crate::text::{chars_of, concat3};

verus! {

/// The row chosen in UPPER mode among rows `0..n`: the largest threshold not
/// above `value` (on equal thresholds, the last such row).
pub open spec fn upper_pick(value: i64, rows: Seq<(i64, i64)>, n: int) -> Option<int>
    decreases n,
{
    if n <= 0 {
        None
    } else {
        let prev = upper_pick(value, rows, n - 1);
        let i = n - 1;
        if rows[i].0 <= value {
            match prev {
                None => Some(i),
                Some(p) => if rows[i].0 >= rows[p].0 { Some(i) } else { prev },
            }
        } else {
            prev
        }
    }
}

/// The row chosen in LOWER mode among rows `0..n` before the fallback: the
/// smallest threshold not below `value` (on equal thresholds, the first such row).
pub open spec fn lower_pick(value: i64, rows: Seq<(i64, i64)>, n: int) -> Option<int>
    decreases n,
{
    if n <= 0 {
        None
    } else {
        let prev = lower_pick(value, rows, n - 1);
        let i = n - 1;
        if rows[i].0 >= value {
            match prev {
                None => Some(i),
                Some(p) => if rows[i].0 < rows[p].0 { Some(i) } else { prev },
            }
        } else {
            prev
        }
    }
}

/// The row with the largest threshold among rows `0..n` (the last on ties).
pub open spec fn max_pick(rows: Seq<(i64, i64)>, n: int) -> Option<int>
    decreases n,
{
    if n <= 0 {
        None
    } else {
        let prev = max_pick(rows, n - 1);
        let i = n - 1;
        match prev {
            None => Some(i),
            Some(p) => if rows[i].0 >= rows[p].0 { Some(i) } else { prev },
        }
    }
}

/// The first row among `0..n` whose threshold equals `value`.
pub open spec fn exact_pick(value: i64, rows: Seq<(i64, i64)>, n: int) -> Option<int>
    decreases n,
{
    if n <= 0 {
        None
    } else {
        let prev = exact_pick(value, rows, n - 1);
        if prev is Some {
            prev
        } else if rows[n - 1].0 == value {
            Some(n - 1)
        } else {
            None
        }
    }
}

/// The row a value selects in the given mode, if any. LOWER falls back to the
/// largest threshold when every threshold is below the value.
pub open spec fn select_row(value: i64, rows: Seq<(i64, i64)>, mode: MatchMode) -> Option<int> {
    let n = rows.len() as int;
    match mode {
        MatchMode::Upper => upper_pick(value, rows, n),
        MatchMode::Lower => match lower_pick(value, rows, n) {
            Some(i) => Some(i),
            None => max_pick(rows, n),
        },
        MatchMode::Exact => exact_pick(value, rows, n),
    }
}

pub open spec fn msg_upper_no_match(value: i64) -> Seq<char> {
    "UPPER 매칭 실패: 값 "@ + score_text(value as int) + "에 해당하는 구간 항목이 없습니다 (모든 하한치보다 낮습니다)"@
}

pub open spec fn msg_lower_empty() -> Seq<char> {
    "LOWER 매칭 실패: 구간 테이블이 비어 있습니다"@
}

pub open spec fn msg_exact_no_match(value: i64) -> Seq<char> {
    "EXACT 매칭 실패: 값 "@ + score_text(value as int) + "에 해당하는 구간 항목이 없습니다"@
}

/// The score a value earns from a range table, or the message of the failure.
pub open spec fn spec_lookup(value: i64, rows: Seq<(i64, i64)>, mode: MatchMode) -> Result<i64, Seq<char>> {
    match select_row(value, rows, mode) {
        Some(i) => Ok(rows[i].1),
        None => match mode {
            MatchMode::Upper => Err(msg_upper_no_match(value)),
            MatchMode::Lower => Err(msg_lower_empty()),
            MatchMode::Exact => Err(msg_exact_no_match(value)),
        },
    }
}

proof fn lemma_pick_in_range(value: i64, rows: Seq<(i64, i64)>, n: int)
    requires
        0 <= n <= rows.len(),
    ensures
        upper_pick(value, rows, n) matches Some(i) ==> 0 <= i < n,
        lower_pick(value, rows, n) matches Some(i) ==> 0 <= i < n,
        max_pick(rows, n) matches Some(i) ==> 0 <= i < n,
        exact_pick(value, rows, n) matches Some(i) ==> 0 <= i < n,
        n > 0 ==> max_pick(rows, n) is Some,
    decreases n,
{
    if n > 0 {
        lemma_pick_in_range(value, rows, n - 1);
    }
}

proof fn lemma_exact_pick_stable(value: i64, rows: Seq<(i64, i64)>, i: int, n: int)
    requires
        0 <= i < n <= rows.len(),
        exact_pick(value, rows, i) is None,
        rows[i].0 == value,
    ensures
        exact_pick(value, rows, n) == Some(i),
    decreases n,
{
    if n > i + 1 {
        lemma_exact_pick_stable(value, rows, i, n - 1);
    }
}

/// The index of the row a value selects.
fn select_index(value: i64, rows: &[(i64, i64)], mode: MatchMode) -> (r: Option<usize>)
    ensures
        match r {
            Some(i) => select_row(value, rows@, mode) == Some(i as int) && i < rows@.len(),
            None => select_row(value, rows@, mode) is None,
        },
{
    let n = rows.len();
    proof {
        lemma_pick_in_range(value, rows@, n as int);
    }
    match mode {
        MatchMode::Upper => {
            let mut best: Option<usize> = None;
            let mut i: usize = 0;
            while i < n
                invariant
                    n == rows@.len(),
                    i <= n,
                    match best {
                        Some(b) => upper_pick(value, rows@, i as int) == Some(b as int) && b < i,
                        None => upper_pick(value, rows@, i as int) is None,
                    },
                decreases n - i,
            {
                if rows[i].0 <= value {
                    match best {
                        None => { best = Some(i); },
                        Some(b) => if rows[i].0 >= rows[b].0 { best = Some(i); },
                    }
                }
                i = i + 1;
            }
            best
        },
        MatchMode::Lower => {
            let mut best: Option<usize> = None;
            let mut i: usize = 0;
            while i < n
                invariant
                    n == rows@.len(),
                    i <= n,
                    match best {
                        Some(b) => lower_pick(value, rows@, i as int) == Some(b as int) && b < i,
                        None => lower_pick(value, rows@, i as int) is None,
                    },
                decreases n - i,
            {
                if rows[i].0 >= value {
                    match best {
                        None => { best = Some(i); },
                        Some(b) => if rows[i].0 < rows[b].0 { best = Some(i); },
                    }
                }
                i = i + 1;
            }
            if best.is_some() {
                return best;
            }
            let mut top: Option<usize> = None;
            let mut i: usize = 0;
            while i < n
                invariant
                    n == rows@.len(),
                    i <= n,
                    lower_pick(value, rows@, n as int) is None,
                    match top {
                        Some(b) => max_pick(rows@, i as int) == Some(b as int) && b < i,
                        None => max_pick(rows@, i as int) is None,
                    },
                decreases n - i,
            {
                match top {
                    None => { top = Some(i); },
                    Some(b) => if rows[i].0 >= rows[b].0 { top = Some(i); },
                }
                i = i + 1;
            }
            top
        },
        MatchMode::Exact => {
            let mut i: usize = 0;
            while i < n
                invariant
                    n == rows@.len(),
                    i <= n,
                    exact_pick(value, rows@, i as int) is None,
                    mode == MatchMode::Exact,
                decreases n - i,
            {
                if rows[i].0 == value {
                    proof {
                        lemma_exact_pick_stable(value, rows@, i as int, n as int);
                    }
                    return Some(i);
                }
                i = i + 1;
            }
            None
        },
    }
}

/// Looks a value up in a range table: UPPER takes the largest threshold not
/// above the value, LOWER the smallest threshold not below it (or the largest
/// threshold when the value exceeds them all), EXACT the threshold equal to it.
pub fn lookup_range_score(value: i64, rows: &[(i64, i64)], direction: MatchMode) -> (r: Result<i64, String>)
    ensures
        match r {
            Ok(s) => spec_lookup(value, rows@, direction) == Ok::<i64, Seq<char>>(s),
            Err(m) => spec_lookup(value, rows@, direction) == Err::<i64, Seq<char>>(m@),
        },
{
    match select_index(value, rows, direction) {
        Some(i) => Ok(rows[i].1),
        None => match direction {
            MatchMode::Upper => {
                let v = fmt_score(value);
                let vc = chars_of(v.as_str());
                Err(concat3("UPPER 매칭 실패: 값 ", &vc, "에 해당하는 구간 항목이 없습니다 (모든 하한치보다 낮습니다)"))
            },
            MatchMode::Lower => Err("LOWER 매칭 실패: 구간 테이블이 비어 있습니다".to_owned()),
            MatchMode::Exact => {
                let v = fmt_score(value);
                let vc = chars_of(v.as_str());
                Err(concat3("EXACT 매칭 실패: 값 ", &vc, "에 해당하는 구간 항목이 없습니다"))
            },
        },
    }
}

/// The threshold a value matches (the row `lookup_range_score` takes its score from).
pub fn find_numeric_matched_threshold(value: i64, rows: &[(i64, i64)], mode: MatchMode) -> (r: Option<i64>)
    ensures
        match select_row(value, rows@, mode) {
            Some(i) => r == Some(rows@[i].0),
            None => r is None,
        },
{
    match select_index(value, rows, mode) {
        Some(i) => Some(rows[i].0),
        None => None,
    }
}

proof fn lemma_upper_pick_meaning(value: i64, rows: Seq<(i64, i64)>, n: int)
    requires
        0 <= n <= rows.len(),
    ensures
        upper_pick(value, rows, n) is None <==> forall|j: int| 0 <= j < n ==> rows[j].0 > value,
        upper_pick(value, rows, n) matches Some(i) ==> 0 <= i < n && rows[i].0 <= value && forall|j: int|
            0 <= j < n && rows[j].0 <= value ==> rows[j].0 <= rows[i].0,
    decreases n,
{
    if n > 0 {
        lemma_upper_pick_meaning(value, rows, n - 1);
    }
}

proof fn lemma_lower_pick_meaning(value: i64, rows: Seq<(i64, i64)>, n: int)
    requires
        0 <= n <= rows.len(),
    ensures
        lower_pick(value, rows, n) is None <==> forall|j: int| 0 <= j < n ==> rows[j].0 < value,
        lower_pick(value, rows, n) matches Some(i) ==> 0 <= i < n && rows[i].0 >= value && forall|j: int|
            0 <= j < n && rows[j].0 >= value ==> rows[i].0 <= rows[j].0,
        max_pick(rows, n) matches Some(i) ==> 0 <= i < n && forall|j: int| 0 <= j < n ==> rows[j].0 <= rows[i].0,
        n > 0 ==> max_pick(rows, n) is Some,
    decreases n,
{
    if n > 0 {
        lemma_lower_pick_meaning(value, rows, n - 1);
    }
}

proof fn lemma_exact_pick_meaning(value: i64, rows: Seq<(i64, i64)>, n: int)
    requires
        0 <= n <= rows.len(),
    ensures
        exact_pick(value, rows, n) is None <==> forall|j: int| 0 <= j < n ==> rows[j].0 != value,
        exact_pick(value, rows, n) matches Some(i) ==> 0 <= i < n && rows[i].0 == value && forall|j: int|
            0 <= j < i ==> rows[j].0 != value,
    decreases n,
{
    if n > 0 {
        lemma_exact_pick_meaning(value, rows, n - 1);
    }
}

/// Law (what each direction selects): UPPER selects a row with the largest
/// threshold not above the value and fails only when every threshold is above
/// it; LOWER selects a row with the smallest threshold not below the value, or
/// a row with the largest threshold when all are below, and fails only on an
/// empty table; EXACT selects the first row whose threshold equals the value.
pub proof fn law_lookup_selection(value: i64, rows: Seq<(i64, i64)>)
    ensures
        select_row(value, rows, MatchMode::Upper) is None <==> forall|j: int| 0 <= j < rows.len() ==> rows[j].0 > value,
        select_row(value, rows, MatchMode::Upper) matches Some(i) ==> 0 <= i < rows.len() && rows[i].0 <= value
            && forall|j: int| 0 <= j < rows.len() && rows[j].0 <= value ==> rows[j].0 <= rows[i].0,
        select_row(value, rows, MatchMode::Lower) is None <==> rows.len() == 0,
        select_row(value, rows, MatchMode::Lower) matches Some(i) ==> 0 <= i < rows.len() && (
            (rows[i].0 >= value && forall|j: int| 0 <= j < rows.len() && rows[j].0 >= value ==> rows[i].0 <= rows[j].0)
            || (forall|j: int| 0 <= j < rows.len() ==> rows[j].0 < value && rows[j].0 <= rows[i].0)),
        select_row(value, rows, MatchMode::Exact) is None <==> forall|j: int| 0 <= j < rows.len() ==> rows[j].0 != value,
        select_row(value, rows, MatchMode::Exact) matches Some(i) ==> 0 <= i < rows.len() && rows[i].0 == value,
{
    let n = rows.len() as int;
    lemma_upper_pick_meaning(value, rows, n);
    lemma_lower_pick_meaning(value, rows, n);
    lemma_exact_pick_meaning(value, rows, n);
}

/// Law (symmetry): a lookup succeeds exactly when a threshold is matched, and
/// the score it returns belongs to the row of that threshold.
pub proof fn law_lookup_matches_threshold(value: i64, rows: Seq<(i64, i64)>, mode: MatchMode)
    ensures
        spec_lookup(value, rows, mode) is Ok <==> select_row(value, rows, mode) is Some,
        select_row(value, rows, mode) matches Some(i) ==> 0 <= i < rows.len() && spec_lookup(value, rows, mode)
            == Ok::<i64, Seq<char>>(rows[i].1),
{
    lemma_pick_in_range(value, rows, rows.len() as int);
}

/// Law (monotone tables give monotone scores): when thresholds are distinct and
/// a higher threshold never carries a lower score — what the range-table import
/// enforces for UPPER — a higher value never earns a lower UPPER score.
pub proof fn law_upper_monotone(v1: i64, v2: i64, rows: Seq<(i64, i64)>)
    requires
        v1 <= v2,
        forall|i: int, j: int| 0 <= i < rows.len() && 0 <= j < rows.len() && i != j ==> rows[i].0 != rows[j].0,
        forall|i: int, j: int| 0 <= i < rows.len() && 0 <= j < rows.len() && rows[i].0 < rows[j].0 ==> rows[i].1 <= rows[j].1,
        spec_lookup(v1, rows, MatchMode::Upper) is Ok,
    ensures
        spec_lookup(v2, rows, MatchMode::Upper) is Ok,
        spec_lookup(v1, rows, MatchMode::Upper)->Ok_0 <= spec_lookup(v2, rows, MatchMode::Upper)->Ok_0,
{
    let n = rows.len() as int;
    lemma_upper_pick_meaning(v1, rows, n);
    lemma_upper_pick_meaning(v2, rows, n);
    let i1 = upper_pick(v1, rows, n)->0;
    assert(rows[i1].0 <= v2);
    let i2 = upper_pick(v2, rows, n)->0;
    assert(rows[i1].0 <= rows[i2].0);
    if i1 != i2 {
        assert(rows[i1].0 < rows[i2].0);
    }
}

/// Law (monotone tables give monotone scores, LOWER direction): when thresholds
/// are distinct and a higher threshold never carries a higher score — what the
/// range-table import enforces for LOWER — a higher value never earns a higher
/// LOWER score.
pub proof fn law_lower_monotone(v1: i64, v2: i64, rows: Seq<(i64, i64)>)
    requires
        v1 <= v2,
        forall|i: int, j: int| 0 <= i < rows.len() && 0 <= j < rows.len() && i != j ==> rows[i].0 != rows[j].0,
        forall|i: int, j: int| 0 <= i < rows.len() && 0 <= j < rows.len() && rows[i].0 < rows[j].0 ==> rows[i].1 >= rows[j].1,
        spec_lookup(v1, rows, MatchMode::Lower) is Ok,
    ensures
        spec_lookup(v2, rows, MatchMode::Lower) is Ok,
        spec_lookup(v1, rows, MatchMode::Lower)->Ok_0 >= spec_lookup(v2, rows, MatchMode::Lower)->Ok_0,
{
    let n = rows.len() as int;
    lemma_lower_pick_meaning(v1, rows, n);
    lemma_lower_pick_meaning(v2, rows, n);
    law_lookup_selection(v1, rows);
    law_lookup_selection(v2, rows);
    law_lookup_matches_threshold(v1, rows, MatchMode::Lower);
    law_lookup_matches_threshold(v2, rows, MatchMode::Lower);
    let i1 = select_row(v1, rows, MatchMode::Lower)->0;
    let i2 = select_row(v2, rows, MatchMode::Lower)->0;
    assert(rows[i1].0 <= rows[i2].0);
    if i1 != i2 {
        assert(rows[i1].0 < rows[i2].0);
    }
}

} // verus!
