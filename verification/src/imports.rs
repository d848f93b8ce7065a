//! The rules applied to uploaded score tables and base data: the checks of
//! each row, and the checks of a whole table once every row is read.
use vstd::prelude::*;
use crate::display::{fmt_score, parse_display_value, score_text, spec_parse_display};
use crate::enums::{CalcType, LookupScope, MatchMode};
use crate::guards::{is_refusal, refuse, refuse_chars, Refusal};
use crate::text::{
    append_str, chars_of, i64_text, int_text, parse_i64, push_all, push_decimal, spec_parse_i64, str_is, string_of,
};

verus! {

/// The outcome of a table or base-data import.
#[derive(Debug, Clone)]
pub struct ImportResult {
    pub rows: usize,
    pub errors: Vec<String>,
    pub warnings: Vec<String>,
    pub info: Vec<String>,
}

/// `"<n>행: "`.
pub open spec fn row_head(n: int) -> Seq<char> {
    int_text(n) + "행: "@
}

fn row_head_chars(n: usize) -> (v: Vec<char>)
    ensures
        v@ == row_head(n as int),
{
    let mut v: Vec<char> = Vec::new();
    push_decimal(&mut v, n as u64);
    append_str(&mut v, "행: ");
    v
}

fn row_text(n: usize, tail: &str) -> (s: String)
    ensures
        s@ == row_head(n as int) + tail@,
{
    let mut v = row_head_chars(n);
    append_str(&mut v, tail);
    string_of(&v)
}

/// A display value of row `n` in column `label`: missing, unreadable, or its value.
pub open spec fn value_cell(raw: Seq<char>, label: Seq<char>, n: int) -> Result<i64, Seq<char>> {
    if raw.len() == 0 {
        Err(row_head(n) + label + " 누락"@)
    } else {
        match spec_parse_display(raw) {
            Ok(v) => Ok(v),
            Err(e) => Err(row_head(n) + label + " — "@ + e),
        }
    }
}

fn value_cell_exec(raw: &str, label: &str, n: usize) -> (r: Result<i64, String>)
    ensures
        match r {
            Ok(v) => value_cell(raw@, label@, n as int) == Ok::<i64, Seq<char>>(v),
            Err(m) => value_cell(raw@, label@, n as int) == Err::<i64, Seq<char>>(m@),
        },
{
    if chars_of(raw).len() == 0 {
        let mut v = row_head_chars(n);
        append_str(&mut v, label);
        append_str(&mut v, " 누락");
        return Err(string_of(&v));
    }
    match parse_display_value(raw) {
        Ok(x) => Ok(x),
        Err(e) => {
            let mut v = row_head_chars(n);
            append_str(&mut v, label);
            append_str(&mut v, " — ");
            push_all(&mut v, &chars_of(e.as_str()));
            Err(string_of(&v))
        },
    }
}

fn over_max_exec(n: usize, score_label: bool, v: i64, max_score: i64) -> (s: String)
    ensures
        s@ == row_head(n as int) + (if score_label {
            "점수("@
        } else {
            "값("@
        }) + score_text(v as int) + (if score_label {
            ")가 전형요소 만점("@
        } else {
            ")이 전형요소 만점("@
        }) + score_text(max_score as int) + ")을 초과합니다"@,
{
    let mut m = row_head_chars(n);
    if score_label {
        append_str(&mut m, "점수(");
    } else {
        append_str(&mut m, "값(");
    }
    push_all(&mut m, &chars_of(fmt_score(v).as_str()));
    if score_label {
        append_str(&mut m, ")가 전형요소 만점(");
    } else {
        append_str(&mut m, ")이 전형요소 만점(");
    }
    push_all(&mut m, &chars_of(fmt_score(max_score).as_str()));
    append_str(&mut m, ")을 초과합니다");
    string_of(&m)
}

/// A score cell of row `n`: its value, which may not exceed the area's maximum.
pub open spec fn score_cell(raw: Seq<char>, max_score: i64, n: int) -> Result<i64, Seq<char>> {
    match value_cell(raw, "점수"@, n) {
        Err(e) => Err(e),
        Ok(v) => if v > max_score {
            Err(row_head(n) + "점수("@ + score_text(v as int) + ")가 전형요소 만점("@ + score_text(max_score as int) + ")을 초과합니다"@)
        } else {
            Ok(v)
        },
    }
}

fn score_cell_exec(raw: &str, max_score: i64, n: usize) -> (r: Result<i64, String>)
    ensures
        match r {
            Ok(v) => score_cell(raw@, max_score, n as int) == Ok::<i64, Seq<char>>(v),
            Err(m) => score_cell(raw@, max_score, n as int) == Err::<i64, Seq<char>>(m@),
        },
{
    let v = value_cell_exec(raw, "점수", n)?;
    if v > max_score {
        return Err(over_max_exec(n, true, v, max_score));
    }
    Ok(v)
}

/// Checks a row of a range table: its threshold and its score (`row` is the
/// sheet line). Returns `(threshold, score)`.
pub fn parse_threshold_row(raw_threshold: &str, raw_score: &str, max_score: i64, row: usize) -> (r: Result<(i64, i64), String>)
    ensures
        match value_cell(raw_threshold@, "기준값"@, row as int) {
            Err(e) => r matches Err(m) && m@ == e,
            Ok(th) => match score_cell(raw_score@, max_score, row as int) {
                Err(e) => r matches Err(m) && m@ == e,
                Ok(sc) => r == Ok::<(i64, i64), String>((th, sc)),
            },
        },
{
    let th = value_cell_exec(raw_threshold, "기준값", row)?;
    let sc = score_cell_exec(raw_score, max_score, row)?;
    Ok((th, sc))
}

/// Checks a row of a category table: its category and its score.
pub fn parse_category_row(category: &str, raw_score: &str, max_score: i64, row: usize) -> (r: Result<i64, String>)
    ensures
        category@.len() == 0 ==> (r matches Err(m) && m@ == row_head(row as int) + "범주 누락"@),
        category@.len() > 0 ==> match score_cell(raw_score@, max_score, row as int) {
            Err(e) => r matches Err(m) && m@ == e,
            Ok(sc) => r == Ok::<i64, String>(sc),
        },
{
    if chars_of(category).len() == 0 {
        return Err(row_text(row, "범주 누락"));
    }
    score_cell_exec(raw_score, max_score, row)
}

/// University and track names of a per-track row: both empty (the common
/// table, `false`), both given (`true`), or an error.
pub fn check_track_names(univ_name: &str, track_name: &str, row: usize) -> (r: Result<bool, String>)
    ensures
        univ_name@.len() == 0 && track_name@.len() == 0 ==> r == Ok::<bool, String>(false),
        univ_name@.len() > 0 && track_name@.len() > 0 ==> r == Ok::<bool, String>(true),
        (univ_name@.len() == 0) != (track_name@.len() == 0) ==> (r matches Err(m) && m@ == row_head(row as int)
            + "대학명과 모집단위명은 함께 입력하거나 함께 비워야 합니다"@),
{
    let u = chars_of(univ_name).len() == 0;
    let t = chars_of(track_name).len() == 0;
    if u && t {
        Ok(false)
    } else if u || t {
        Err(row_text(row, "대학명과 모집단위명은 함께 입력하거나 함께 비워야 합니다"))
    } else {
        Ok(true)
    }
}

/// The note that a track was created on import.
pub fn track_created_info(univ_name: &str, track_name: &str) -> (s: String)
    ensures
        s@ == "'"@ + univ_name@ + "/"@ + track_name@ + "' 모집단위 자동 추가됨"@,
{
    let mut v = chars_of("'");
    append_str(&mut v, univ_name);
    append_str(&mut v, "/");
    append_str(&mut v, track_name);
    append_str(&mut v, "' 모집단위 자동 추가됨");
    string_of(&v)
}

/// The error when a track cannot be found or created.
pub fn track_error(row: usize, cause: &str) -> (s: String)
    ensures
        s@ == row_head(row as int) + "모집단위 처리 오류 — "@ + cause@,
{
    let mut v = row_head_chars(row);
    append_str(&mut v, "모집단위 처리 오류 — ");
    append_str(&mut v, cause);
    string_of(&v)
}

/// The error of a repeated key in a table (`threshold == true`: a threshold,
/// else a category).
pub fn duplicate_key_error(row: usize, raw_key: &str, threshold: bool) -> (s: String)
    ensures
        threshold ==> s@ == row_head(row as int) + "기준값 '"@ + raw_key@ + "' 중복 — 같은 기준값은 한 번만 등록할 수 있습니다"@,
        !threshold ==> s@ == row_head(row as int) + "범주 '"@ + raw_key@ + "' 중복 — 같은 범주는 한 번만 등록할 수 있습니다"@,
{
    let mut v = row_head_chars(row);
    if threshold {
        append_str(&mut v, "기준값 '");
        append_str(&mut v, raw_key);
        append_str(&mut v, "' 중복 — 같은 기준값은 한 번만 등록할 수 있습니다");
    } else {
        append_str(&mut v, "범주 '");
        append_str(&mut v, raw_key);
        append_str(&mut v, "' 중복 — 같은 범주는 한 번만 등록할 수 있습니다");
    }
    string_of(&v)
}

/// `" (모집단위 id=<t>)"` for a track's table, `otherwise` for the common one.
pub open spec fn track_label(track: Option<i64>, otherwise: Seq<char>) -> Seq<char> {
    match track {
        Some(t) => " (모집단위 id="@ + int_text(t as int) + ")"@,
        None => otherwise,
    }
}

fn track_label_chars(track: Option<i64>, otherwise: &str) -> (v: Vec<char>)
    ensures
        v@ == track_label(track, otherwise@),
{
    match track {
        Some(t) => {
            let mut v = chars_of(" (모집단위 id=");
            push_all(&mut v, &i64_text(t));
            append_str(&mut v, ")");
            v
        },
        None => chars_of(otherwise),
    }
}

/// The smallest of values `0..n` (0 when there are none).
pub open spec fn min_of(s: Seq<i64>, n: int) -> i64
    decreases n,
{
    if n <= 0 {
        0
    } else if n == 1 {
        s[0]
    } else {
        let m = min_of(s, n - 1);
        if s[n - 1] < m {
            s[n - 1]
        } else {
            m
        }
    }
}

/// The warning for an UPPER table without a threshold 0: students below the
/// lowest threshold get no score.
pub open spec fn upper_zero_text(track: Option<i64>, thresholds: Seq<i64>) -> Option<Seq<char>> {
    if thresholds.contains(0) {
        None
    } else {
        Some(
            "기준값 0 항목이 없습니다"@ + track_label(track, Seq::empty()) + ": 최저 기준값 "@ + score_text(
                min_of(thresholds, thresholds.len() as int) as int,
            ) + " 미만 학생은 점수 산출이 되지 않습니다"@,
        )
    }
}

/// Warns when an UPPER table (of a track, or the common one) has no threshold 0.
pub fn upper_zero_warning(track: Option<i64>, thresholds: &Vec<i64>) -> (r: Option<String>)
    ensures
        match upper_zero_text(track, thresholds@) {
            None => r is None,
            Some(m) => r matches Some(s) && s@ == m,
        },
{
    let mut has_zero = false;
    let mut min: i64 = 0;
    let mut i: usize = 0;
    while i < thresholds.len()
        invariant
            i <= thresholds@.len(),
            has_zero <==> thresholds@.take(i as int).contains(0),
            min == min_of(thresholds@, i as int),
        decreases thresholds@.len() - i,
    {
        let x = thresholds[i];
        if x == 0 {
            has_zero = true;
        }
        if i == 0 || x < min {
            min = x;
        }
        proof {
            let s = thresholds@.take(i + 1);
            assert(s =~= thresholds@.take(i as int).push(x));
            if thresholds@.take(i as int).contains(0) {
                let k = choose|k: int| 0 <= k < i && thresholds@.take(i as int)[k] == 0;
                assert(s[k] == 0);
            }
            if x == 0 {
                assert(s[i as int] == 0);
            }
            if s.contains(0) && x != 0 {
                let k = choose|k: int| 0 <= k < i + 1 && s[k] == 0;
                assert(thresholds@.take(i as int)[k] == 0);
            }
        }
        i = i + 1;
    }
    assert(thresholds@.take(thresholds@.len() as int) =~= thresholds@);
    if has_zero {
        return None;
    }
    let mut v = chars_of("기준값 0 항목이 없습니다");
    push_all(&mut v, &track_label_chars(track, ""));
    append_str(&mut v, ": 최저 기준값 ");
    push_all(&mut v, &chars_of(fmt_score(min).as_str()));
    append_str(&mut v, " 미만 학생은 점수 산출이 되지 않습니다");
    proof {
        reveal_strlit("");
    }
    assert(v@ =~= upper_zero_text(track, thresholds@)->0);
    Some(string_of(&v))
}

/// Inserts a `(threshold, score)` pair after every pair whose threshold is not above its own.
pub open spec fn insert_by_threshold(s: Seq<(i64, i64)>, x: (i64, i64)) -> Seq<(i64, i64)>
    decreases s.len(),
{
    if s.len() == 0 {
        seq![x]
    } else if s.last().0 <= x.0 {
        s.push(x)
    } else {
        insert_by_threshold(s.drop_last(), x).push(s.last())
    }
}

/// The pairs sorted stably by threshold.
pub open spec fn sort_by_threshold(s: Seq<(i64, i64)>) -> Seq<(i64, i64)>
    decreases s.len(),
{
    if s.len() == 0 {
        Seq::empty()
    } else {
        insert_by_threshold(sort_by_threshold(s.drop_last()), s.last())
    }
}

fn sort_pairs(items: &Vec<(i64, i64)>) -> (r: Vec<(i64, i64)>)
    ensures
        r@ == sort_by_threshold(items@),
{
    let mut out: Vec<(i64, i64)> = Vec::new();
    let mut i: usize = 0;
    while i < items.len()
        invariant
            i <= items@.len(),
            out@ == sort_by_threshold(items@.take(i as int)),
        decreases items@.len() - i,
    {
        let x = items[i];
        let mut p: usize = out.len();
        assert(out@.take(p as int) =~= out@);
        assert(out@.skip(p as int) =~= Seq::<(i64, i64)>::empty());
        assert(insert_by_threshold(out@, x) + Seq::<(i64, i64)>::empty() =~= insert_by_threshold(out@, x));
        while p > 0 && out[p - 1].0 > x.0
            invariant
                p <= out@.len(),
                insert_by_threshold(out@, x) == insert_by_threshold(out@.take(p as int), x) + out@.skip(p as int),
            decreases p,
        {
            let ghost s = out@.take(p as int);
            assert(s.drop_last() =~= out@.take(p - 1));
            assert(out@.skip(p - 1) =~= seq![s.last()] + out@.skip(p as int));
            assert(insert_by_threshold(s, x) == insert_by_threshold(out@.take(p - 1), x).push(s.last()));
            assert(insert_by_threshold(out@.take(p - 1), x).push(s.last()) + out@.skip(p as int) =~= insert_by_threshold(
                out@.take(p - 1),
                x,
            ) + out@.skip(p - 1));
            p = p - 1;
        }
        proof {
            if p == 0 {
                assert(out@.take(0) =~= Seq::<(i64, i64)>::empty());
            }
            assert(insert_by_threshold(out@.take(p as int), x) =~= out@.take(p as int).push(x));
            assert(out@.take(p as int).push(x) + out@.skip(p as int) =~= out@.insert(p as int, x));
            assert(items@.take(i + 1).drop_last() =~= items@.take(i as int));
        }
        out.insert(p, x);
        i = i + 1;
    }
    assert(items@.take(items@.len() as int) =~= items@);
    out
}

/// Between two neighbouring thresholds, the score moves against the mode:
/// down for UPPER, up for LOWER (EXACT has no order).
pub open spec fn order_broken(mode: MatchMode, a: (i64, i64), b: (i64, i64)) -> bool {
    match mode {
        MatchMode::Upper => b.1 < a.1,
        MatchMode::Lower => b.1 > a.1,
        MatchMode::Exact => false,
    }
}

/// The first `i` from `start` at which neighbours `i`, `i + 1` break the order.
pub open spec fn first_break(s: Seq<(i64, i64)>, mode: MatchMode, start: int) -> Option<int>
    decreases s.len() - start,
{
    if start < 0 || start + 1 >= s.len() {
        None
    } else if order_broken(mode, s[start], s[start + 1]) {
        Some(start)
    } else {
        first_break(s, mode, start + 1)
    }
}

/// The message for a broken order between neighbours `a` and `b`.
pub open spec fn order_text(mode: MatchMode, track: Option<i64>, a: (i64, i64), b: (i64, i64)) -> Seq<char> {
    "점수 순서 오류"@ + track_label(track, Seq::empty()) + ": 기준값 "@ + score_text(a.0 as int) + "→"@ + score_text(
        b.0 as int,
    ) + " 구간에서 점수가 "@ + score_text(a.1 as int) + "→"@ + score_text(b.1 as int) + " — "@ + match mode {
        MatchMode::Upper => "UPPER 모드에서는 기준값이 높을수록 점수도 높거나 같아야 합니다"@,
        _ => "LOWER 모드에서는 기준값이 높을수록 점수도 낮거나 같아야 합니다"@,
    }
}

/// The order rule of a range table (of one track, or the common one): with
/// its pairs sorted by threshold, UPPER scores may not fall and LOWER scores
/// may not rise; the error names the first pair of neighbours that breaks it.
pub open spec fn order_error(mode: MatchMode, track: Option<i64>, pairs: Seq<(i64, i64)>) -> Option<Seq<char>> {
    let s = sort_by_threshold(pairs);
    match first_break(s, mode, 0) {
        None => None,
        Some(i) => Some(order_text(mode, track, s[i], s[i + 1])),
    }
}

/// Checks the order rule of a range table (see `order_error`).
pub fn monotonic_error(mode: MatchMode, track: Option<i64>, pairs: &Vec<(i64, i64)>) -> (r: Option<String>)
    ensures
        match order_error(mode, track, pairs@) {
            None => r is None,
            Some(m) => r matches Some(s) && s@ == m,
        },
{
    let s = sort_pairs(pairs);
    let len = s.len();
    let mut i: usize = 0;
    while i < len && len - i > 1
        invariant
            s@ == sort_by_threshold(pairs@),
            len == s@.len(),
            i <= s@.len(),
            first_break(s@, mode, 0) == first_break(s@, mode, i as int),
        decreases s@.len() - i,
    {
        let a = s[i];
        let b = s[i + 1];
        let broken = match mode {
            MatchMode::Upper => b.1 < a.1,
            MatchMode::Lower => b.1 > a.1,
            MatchMode::Exact => false,
        };
        if broken {
            let mut v = chars_of("점수 순서 오류");
            push_all(&mut v, &track_label_chars(track, ""));
            append_str(&mut v, ": 기준값 ");
            push_all(&mut v, &chars_of(fmt_score(a.0).as_str()));
            append_str(&mut v, "→");
            push_all(&mut v, &chars_of(fmt_score(b.0).as_str()));
            append_str(&mut v, " 구간에서 점수가 ");
            push_all(&mut v, &chars_of(fmt_score(a.1).as_str()));
            append_str(&mut v, "→");
            push_all(&mut v, &chars_of(fmt_score(b.1).as_str()));
            append_str(&mut v, " — ");
            match mode {
                MatchMode::Upper => append_str(&mut v, "UPPER 모드에서는 기준값이 높을수록 점수도 높거나 같아야 합니다"),
                _ => append_str(&mut v, "LOWER 모드에서는 기준값이 높을수록 점수도 낮거나 같아야 합니다"),
            }
            proof {
                reveal_strlit("");
            }
            assert(v@ =~= order_text(mode, track, s@[i as int], s@[i + 1]));
            return Some(string_of(&v));
        }
        i = i + 1;
    }
    None
}

/// The rule of a category table (of one track, or the common one): when any
/// category scores above zero, some category must score exactly zero (the
/// score of a student in none of them).
pub open spec fn zero_rule_error(track: Option<i64>, scores: Seq<i64>) -> Option<Seq<char>> {
    if (exists|i: int| 0 <= i < scores.len() && scores[i] > 0) && !scores.contains(0) {
        Some(
            "전형요소 점수 0점 기준(해당하지 않음)이 필수입니다"@ + track_label(track, " (공통)"@)
                + ": 가장 낮은 점수를 0점으로 설정해 주세요"@,
        )
    } else {
        None
    }
}

/// Checks the zero rule of a category table (see `zero_rule_error`).
pub fn category_zero_error(track: Option<i64>, scores: &Vec<i64>) -> (r: Option<String>)
    ensures
        match zero_rule_error(track, scores@) {
            None => r is None,
            Some(m) => r matches Some(s) && s@ == m,
        },
{
    let mut positive = false;
    let mut zero = false;
    let mut i: usize = 0;
    while i < scores.len()
        invariant
            i <= scores@.len(),
            positive <==> exists|j: int| 0 <= j < i && scores@[j] > 0,
            zero <==> exists|j: int| 0 <= j < i && scores@[j] == 0,
        decreases scores@.len() - i,
    {
        if scores[i] > 0 {
            positive = true;
        }
        if scores[i] == 0 {
            zero = true;
        }
        i = i + 1;
    }
    if positive && !zero {
        let mut v = chars_of("전형요소 점수 0점 기준(해당하지 않음)이 필수입니다");
        push_all(&mut v, &track_label_chars(track, " (공통)"));
        append_str(&mut v, ": 가장 낮은 점수를 0점으로 설정해 주세요");
        return Some(string_of(&v));
    }
    proof {
        if scores@.contains(0) {
            let k = choose|k: int| 0 <= k < scores@.len() && scores@[k] == 0;
            assert(scores@[k] == 0);
        }
    }
    None
}

/// Reads the `student_type` parameter: `"enrolled"` or `"graduated"`.
pub fn parse_student_type(s: &str) -> (r: Result<bool, Refusal>)
    ensures
        s@ == "enrolled"@ ==> r == Ok::<bool, Refusal>(true),
        s@ == "graduated"@ ==> r == Ok::<bool, Refusal>(false),
        s@ != "enrolled"@ && s@ != "graduated"@ ==> is_refusal(
            r,
            400,
            "student_type은 'enrolled' 또는 'graduated'만 허용됩니다 (입력값: '"@ + s@ + "')"@,
        ),
{
    proof {
        reveal_strlit("enrolled");
        reveal_strlit("graduated");
        assert("enrolled"@[0] != "graduated"@[0]);
    }
    if str_is(s, "enrolled") {
        return Ok(true);
    }
    if str_is(s, "graduated") {
        return Ok(false);
    }
    let mut v = chars_of("student_type은 'enrolled' 또는 'graduated'만 허용됩니다 (입력값: '");
    append_str(&mut v, s);
    append_str(&mut v, "')");
    Err(refuse_chars(400, &v))
}

/// The student type when none is given.
pub fn student_type_enrolled() -> (s: String)
    ensures
        s@ == "enrolled"@,
{
    string_of(&chars_of("enrolled"))
}

/// The first page.
pub fn default_page() -> (n: i64)
    ensures
        n == 1,
{
    1
}

/// The page size of the table and base-data lists when none is asked for.
pub fn default_per_page() -> (n: i64)
    ensures
        n == 50,
{
    50
}

/// The columns of a table sheet: the key column and the score, plus the
/// university and track names for a per-track area.
pub fn score_headers(scope: LookupScope, key_col: &'static str) -> (r: Vec<&'static str>)
    ensures
        scope == LookupScope::Composite ==> r@ == seq![key_col, "점수", "대학명", "모집단위명"],
        scope == LookupScope::Simple ==> r@ == seq![key_col, "점수"],
{
    let mut r: Vec<&'static str> = Vec::new();
    r.push(key_col);
    r.push("점수");
    if scope == LookupScope::Composite {
        r.push("대학명");
        r.push("모집단위명");
    }
    assert(scope == LookupScope::Composite ==> r@ =~= seq![key_col, "점수", "대학명", "모집단위명"]);
    assert(scope == LookupScope::Simple ==> r@ =~= seq![key_col, "점수"]);
    r
}

/// Range tables belong to numeric areas, category tables to category areas.
pub fn check_table_kind(calc_type: CalcType, range_table: bool) -> (r: Result<(), Refusal>)
    ensures
        range_table && calc_type != CalcType::Numeric ==> is_refusal(r, 400, "RANGE 전형요소만 구간표를 사용합니다"@),
        !range_table && calc_type != CalcType::Category ==> is_refusal(r, 400, "CATEGORY 전형요소만 범주표를 사용합니다"@),
        (range_table && calc_type == CalcType::Numeric) || (!range_table && calc_type == CalcType::Category) ==> r is Ok,
{
    if range_table {
        if calc_type != CalcType::Numeric {
            return Err(refuse(400, "RANGE 전형요소만 구간표를 사용합니다"));
        }
    } else if calc_type != CalcType::Category {
        return Err(refuse(400, "CATEGORY 전형요소만 범주표를 사용합니다"));
    }
    Ok(())
}

/// A table file without data rows would silently empty the table (400).
pub fn check_rows_present(rows: usize) -> (r: Result<(), Refusal>)
    ensures
        rows > 0 ==> r is Ok,
        rows == 0 ==> is_refusal(r, 400, "파일에 데이터 행이 없습니다"@),
{
    if rows == 0 {
        return Err(refuse(400, "파일에 데이터 행이 없습니다"));
    }
    Ok(())
}

/// An integer cell of row `n` named `label`: its value or the row's error.
pub open spec fn int_cell(raw: Seq<char>, label: Seq<char>, n: int) -> Result<i64, Seq<char>> {
    match spec_parse_i64(raw) {
        Some(v) => Ok(v),
        None => Err(row_head(n) + label + " '"@ + raw + "' 숫자 변환 실패"@),
    }
}

fn int_cell_exec(raw: &str, label: &str, n: usize) -> (r: Result<i64, String>)
    ensures
        match r {
            Ok(v) => int_cell(raw@, label@, n as int) == Ok::<i64, Seq<char>>(v),
            Err(m) => int_cell(raw@, label@, n as int) == Err::<i64, Seq<char>>(m@),
        },
{
    match parse_i64(&chars_of(raw)) {
        Some(v) => Ok(v),
        None => {
            let mut v = row_head_chars(n);
            append_str(&mut v, label);
            append_str(&mut v, " '");
            append_str(&mut v, raw);
            append_str(&mut v, "' 숫자 변환 실패");
            Err(string_of(&v))
        },
    }
}

/// The key of an enrolled student in a base-data row: a name, then grade,
/// class and number, all given and all integers.
pub open spec fn enrolled_key(name: Seq<char>, g: Seq<char>, c: Seq<char>, s: Seq<char>, n: int) -> Result<
    (i64, i64, i64),
    Seq<char>,
> {
    if name.len() == 0 {
        Err(row_head(n) + "이름 누락"@)
    } else if g.len() == 0 || c.len() == 0 || s.len() == 0 {
        Err(row_head(n) + "학년/반/번호 누락"@)
    } else {
        match (int_cell(g, "학년"@, n), int_cell(c, "반"@, n), int_cell(s, "번호"@, n)) {
            (Err(e), _, _) => Err(e),
            (Ok(_), Err(e), _) => Err(e),
            (Ok(_), Ok(_), Err(e)) => Err(e),
            (Ok(a), Ok(b), Ok(d)) => Ok((a, b, d)),
        }
    }
}

/// Reads the key of an enrolled student (see `enrolled_key`).
pub fn parse_enrolled_key(row: usize, name: &str, grade: &str, class_no: &str, seq_no: &str) -> (r: Result<
    (i64, i64, i64),
    String,
>)
    ensures
        match r {
            Ok(k) => enrolled_key(name@, grade@, class_no@, seq_no@, row as int) == Ok::<_, Seq<char>>(k),
            Err(m) => enrolled_key(name@, grade@, class_no@, seq_no@, row as int) == Err::<(i64, i64, i64), _>(m@),
        },
{
    if chars_of(name).len() == 0 {
        return Err(row_text(row, "이름 누락"));
    }
    if chars_of(grade).len() == 0 || chars_of(class_no).len() == 0 || chars_of(seq_no).len() == 0 {
        return Err(row_text(row, "학년/반/번호 누락"));
    }
    let g = int_cell_exec(grade, "학년", row)?;
    let c = int_cell_exec(class_no, "반", row)?;
    let s = int_cell_exec(seq_no, "번호", row)?;
    Ok((g, c, s))
}

/// `"<g>학년 <c>반 <s>번"`.
pub open spec fn position_text(g: i64, c: i64, s: i64) -> Seq<char> {
    int_text(g as int) + "학년 "@ + int_text(c as int) + "반 "@ + int_text(s as int) + "번"@
}

fn position_chars(g: i64, c: i64, s: i64) -> (v: Vec<char>)
    ensures
        v@ == position_text(g, c, s),
{
    let mut v = i64_text(g);
    append_str(&mut v, "학년 ");
    push_all(&mut v, &i64_text(c));
    append_str(&mut v, "반 ");
    push_all(&mut v, &i64_text(s));
    append_str(&mut v, "번");
    v
}

/// How an enrolled student is named in messages.
pub fn enrolled_label(g: i64, c: i64, s: i64) -> (r: String)
    ensures
        r@ == position_text(g, c, s),
{
    string_of(&position_chars(g, c, s))
}

/// The error when no enrolled student sits at a position.
pub fn enrolled_missing_error(row: usize, g: i64, c: i64, s: i64) -> (r: String)
    ensures
        r@ == row_head(row as int) + position_text(g, c, s) + " — 등록된 재학생을 찾을 수 없습니다"@,
{
    let mut v = row_head_chars(row);
    push_all(&mut v, &position_chars(g, c, s));
    append_str(&mut v, " — 등록된 재학생을 찾을 수 없습니다");
    string_of(&v)
}

/// The key of a graduate in a base-data row: a code, then a name.
pub fn check_graduated_key(row: usize, code: &str, name: &str) -> (r: Result<(), String>)
    ensures
        code@.len() == 0 ==> (r matches Err(m) && m@ == row_head(row as int) + "학생코드 누락"@),
        code@.len() > 0 && name@.len() == 0 ==> (r matches Err(m) && m@ == row_head(row as int) + "이름 누락"@),
        code@.len() > 0 && name@.len() > 0 ==> r is Ok,
{
    if chars_of(code).len() == 0 {
        return Err(row_text(row, "학생코드 누락"));
    }
    if chars_of(name).len() == 0 {
        return Err(row_text(row, "이름 누락"));
    }
    Ok(())
}

/// How a graduate is named in messages.
pub fn graduated_label(code: &str) -> (r: String)
    ensures
        r@ == "학생코드 '"@ + code@ + "'"@,
{
    let mut v = chars_of("학생코드 '");
    append_str(&mut v, code);
    append_str(&mut v, "'");
    string_of(&v)
}

/// The error when no graduate has a code.
pub fn graduated_missing_error(row: usize, code: &str) -> (r: String)
    ensures
        r@ == row_head(row as int) + "학생코드 '"@ + code@ + "'에 해당하는 졸업생이 없습니다 (졸업생을 먼저 등록하세요)"@,
{
    let mut v = row_head_chars(row);
    append_str(&mut v, "학생코드 '");
    append_str(&mut v, code);
    append_str(&mut v, "'에 해당하는 졸업생이 없습니다 (졸업생을 먼저 등록하세요)");
    string_of(&v)
}

/// The stored form of a base-data value of row `n`: numeric and manual
/// values are fixed-point integers in decimal (a manual value may not exceed
/// the maximum); category values are kept as they are.
pub open spec fn base_value(raw: Seq<char>, calc_type: CalcType, max_score: i64, n: int) -> Result<Seq<char>, Seq<char>> {
    if raw.len() == 0 {
        Err(row_head(n) + "값 누락"@)
    } else if calc_type == CalcType::Category {
        Ok(raw)
    } else {
        match spec_parse_display(raw) {
            Err(e) => Err(row_head(n) + "값 — "@ + e),
            Ok(v) => if calc_type == CalcType::Manual && v > max_score {
                Err(row_head(n) + "값("@ + score_text(v as int) + ")이 전형요소 만점("@ + score_text(max_score as int) + ")을 초과합니다"@)
            } else {
                Ok(int_text(v as int))
            },
        }
    }
}

/// Converts a base-data value (see `base_value`).
pub fn convert_base_value(row: usize, raw: &str, calc_type: CalcType, max_score: i64) -> (r: Result<String, String>)
    ensures
        match r {
            Ok(s) => base_value(raw@, calc_type, max_score, row as int) == Ok::<Seq<char>, Seq<char>>(s@),
            Err(m) => base_value(raw@, calc_type, max_score, row as int) == Err::<Seq<char>, Seq<char>>(m@),
        },
{
    if chars_of(raw).len() == 0 {
        return Err(row_text(row, "값 누락"));
    }
    if calc_type == CalcType::Category {
        return Ok(string_of(&chars_of(raw)));
    }
    match parse_display_value(raw) {
        Err(e) => {
            let mut v = row_head_chars(row);
            append_str(&mut v, "값 — ");
            push_all(&mut v, &chars_of(e.as_str()));
            Err(string_of(&v))
        },
        Ok(x) => {
            if calc_type == CalcType::Manual && x > max_score {
                return Err(over_max_exec(row, false, x, max_score));
            }
            Ok(string_of(&i64_text(x)))
        },
    }
}

/// The error of a student given twice for a single-value area.
pub fn duplicate_student_error(row: usize, label: &str) -> (r: String)
    ensures
        r@ == row_head(row as int) + label@ + " 중복 — 파일에 같은 학생이 두 번 이상 존재합니다"@,
{
    let mut v = row_head_chars(row);
    append_str(&mut v, label);
    append_str(&mut v, " 중복 — 파일에 같은 학생이 두 번 이상 존재합니다");
    string_of(&v)
}

/// The error when base data of an applicant of a closed round would be replaced.
pub fn closed_base_data_error(code: &str) -> (r: String)
    ensures
        r@ == "종료(CLOSED)된 라운드 지원자의 기초데이터는 교체할 수 없습니다 (학생코드: "@ + code@
            + "). 라운드를 다시 열거나 해당 학생을 파일에서 제외하세요"@,
{
    let mut v = chars_of("종료(CLOSED)된 라운드 지원자의 기초데이터는 교체할 수 없습니다 (학생코드: ");
    append_str(&mut v, code);
    append_str(&mut v, "). 라운드를 다시 열거나 해당 학생을 파일에서 제외하세요");
    string_of(&v)
}

} // verus!
