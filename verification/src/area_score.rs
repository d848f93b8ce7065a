//! Area score computation: the single rule by which a student's base value
//! becomes an area score (range-table lookup, category aggregation with
//! per-category fallback to the common table, or a manual score).
use vstd::prelude::*;
use crate::enums::{CalcType, CategoryAgg, LookupScope, MatchMode};
use crate::lookup::{find_numeric_matched_threshold, lookup_range_score, select_row, spec_lookup};
use crate::text::{append_str, chars_of, parse_i64, push_all, spec_parse_i64, string_of, trim, trim_chars};

verus! {

/// The area settings that the computation reads.
pub struct AreaMeta<'a> {
    pub id: i64,
    pub name: &'a str,
    pub max_score: i64,
    pub match_mode: Option<MatchMode>,
    pub category_agg: Option<CategoryAgg>,
}

/// A normalized input value (numeric values scaled by 100000).
pub enum AreaScoreInput<'a> {
    Numeric(i64),
    Category(&'a [String]),
    Manual(i64),
}

/// The result of a computation before the cap at the area's full score.
pub struct AreaScoreOutcome {
    /// The score before capping at `max_score` (the caller caps).
    pub raw: i64,
    /// For NUMERIC, the matched threshold.
    pub matched_numeric_threshold: Option<i64>,
    /// For CATEGORY, the matched categories.
    pub matched_categories: Vec<String>,
}

/// Why a score could not be computed.
#[derive(Debug)]
pub enum AreaScoreError {
    /// A NUMERIC area without a match mode.
    NumericMatchModeUnset,
    /// Neither the track's nor the common range table has rows.
    NumericTableEmpty,
    /// The value matched no row; the detailed message.
    NumericNoMatch(String),
    /// No category was given.
    CategoryEmpty,
    /// A category absent from the score table.
    CategoryUnknown(String),
    /// A CATEGORY area without an aggregation.
    CategoryAggUnset,
    /// The SUM aggregation overflowed.
    CategorySumOverflow,
    /// A database failure while reading the tables.
    Db(String),
}

/// The score tables of an area as read for one computation: the rows of the
/// requested table (the track's for a per-track lookup, else the common one)
/// and the rows of the common table, which per-track lookups fall back to.
pub struct AreaTables {
    pub numeric_rows: Vec<(i64, i64)>,
    pub numeric_common: Vec<(i64, i64)>,
    pub category_rows: Vec<(String, i64)>,
    pub category_common: Vec<(String, i64)>,
}

/// The first score listed for category `cat` in `m`.
pub open spec fn category_find(cat: Seq<char>, m: Seq<(String, i64)>, n: int) -> Option<i64>
    decreases n,
{
    if n <= 0 {
        None
    } else {
        match category_find(cat, m, n - 1) {
            Some(v) => Some(v),
            None => if m[n - 1].0@ == cat { Some(m[n - 1].1) } else { None },
        }
    }
}

/// The score of a category: from the requested table, else from the fallback table.
pub open spec fn category_score(cat: Seq<char>, rows: Seq<(String, i64)>, fallback: Seq<(String, i64)>) -> Option<i64> {
    match category_find(cat, rows, rows.len() as int) {
        Some(v) => Some(v),
        None => category_find(cat, fallback, fallback.len() as int),
    }
}

/// The sum of a sequence of scores.
pub open spec fn seq_sum(s: Seq<i64>) -> int
    decreases s.len(),
{
    if s.len() == 0 {
        0
    } else {
        seq_sum(s.drop_last()) + s.last()
    }
}

/// The largest of a non-empty sequence of scores.
pub open spec fn seq_max(s: Seq<i64>) -> i64
    decreases s.len(),
{
    if s.len() <= 1 {
        s[0]
    } else if s.last() >= seq_max(s.drop_last()) {
        s.last()
    } else {
        seq_max(s.drop_last())
    }
}

/// Every running sum of `s` fits in an `i64`.
pub open spec fn sums_fit(s: Seq<i64>) -> bool {
    forall|k: int| 0 <= k <= s.len() ==> i64::MIN <= #[trigger] seq_sum(s.take(k)) <= i64::MAX
}

/// The fallback table of a lookup: the common table for per-track lookups.
pub open spec fn category_fallback(tables: AreaTables, lookup_track: Option<i64>) -> Seq<(String, i64)> {
    if lookup_track is Some {
        tables.category_common@
    } else {
        Seq::empty()
    }
}

/// The range table a NUMERIC lookup uses: the requested rows, or the common
/// rows when a per-track table is empty.
pub open spec fn numeric_table(tables: AreaTables, lookup_track: Option<i64>) -> Seq<(i64, i64)> {
    if tables.numeric_rows@.len() == 0 && lookup_track is Some {
        tables.numeric_common@
    } else {
        tables.numeric_rows@
    }
}

/// The index of the first category of `values` that no table scores.
pub open spec fn first_unknown(values: Seq<String>, rows: Seq<(String, i64)>, fallback: Seq<(String, i64)>) -> Option<int> {
    if exists|i: int| 0 <= i < values.len() && category_score(values[i]@, rows, fallback) is None {
        Some(choose|i: int| 0 <= i < values.len() && category_score(values[i]@, rows, fallback) is None
            && forall|j: int| 0 <= j < i ==> category_score(values[j]@, rows, fallback) is Some)
    } else {
        None
    }
}

/// The scores of the categories of `values` (all known).
pub open spec fn category_scores(values: Seq<String>, rows: Seq<(String, i64)>, fallback: Seq<(String, i64)>) -> Seq<i64> {
    Seq::new(values.len(), |i: int| category_score(values[i]@, rows, fallback)->0)
}

/// The score listed for a category in a table (its first entry).
fn category_lookup(cat: &String, m: &Vec<(String, i64)>) -> (r: Option<i64>)
    ensures
        r == category_find(cat@, m@, m@.len() as int),
{
    let mut i: usize = 0;
    while i < m.len()
        invariant
            i <= m@.len(),
            category_find(cat@, m@, i as int) is None,
        decreases m@.len() - i,
    {
        if m[i].0 == *cat {
            proof {
                lemma_category_find_stable(cat@, m@, i as int, m@.len() as int);
            }
            return Some(m[i].1);
        }
        i = i + 1;
    }
    None
}

proof fn lemma_category_find_stable(cat: Seq<char>, m: Seq<(String, i64)>, i: int, n: int)
    requires
        0 <= i < n <= m.len(),
        category_find(cat, m, i) is None,
        m[i].0@ == cat,
    ensures
        category_find(cat, m, n) == Some(m[i].1),
    decreases n,
{
    if n > i + 1 {
        lemma_category_find_stable(cat, m, i, n - 1);
    }
}

/// The exact contract of `compute_area_score` on a NUMERIC value.
pub open spec fn numeric_result(
    area: AreaMeta,
    value: i64,
    tables: AreaTables,
    lookup_track: Option<i64>,
    r: Result<AreaScoreOutcome, AreaScoreError>,
) -> bool {
    let rows = numeric_table(tables, lookup_track);
    match area.match_mode {
        None => r matches Err(AreaScoreError::NumericMatchModeUnset),
        Some(mode) => if rows.len() == 0 {
            r matches Err(AreaScoreError::NumericTableEmpty)
        } else {
            match spec_lookup(value, rows, mode) {
                Err(m) => r matches Err(AreaScoreError::NumericNoMatch(e)) && e@ == m,
                Ok(sc) => r matches Ok(o) && o.raw == sc && o.matched_categories@.len() == 0
                    && o.matched_numeric_threshold == Some(rows[select_row(value, rows, mode)->0].0),
            }
        },
    }
}

/// The exact contract of `compute_area_score` on categories.
pub open spec fn category_result(
    area: AreaMeta,
    values: Seq<String>,
    tables: AreaTables,
    lookup_track: Option<i64>,
    r: Result<AreaScoreOutcome, AreaScoreError>,
) -> bool {
    let rows = tables.category_rows@;
    let fallback = category_fallback(tables, lookup_track);
    if values.len() == 0 {
        r matches Err(AreaScoreError::CategoryEmpty)
    } else if area.category_agg is None {
        r matches Err(AreaScoreError::CategoryAggUnset)
    } else if first_unknown(values, rows, fallback) is Some {
        r matches Err(AreaScoreError::CategoryUnknown(c)) && c@ == values[first_unknown(values, rows, fallback)->0]@
    } else {
        let scores = category_scores(values, rows, fallback);
        match area.category_agg->0 {
            CategoryAgg::Sum => if sums_fit(scores) {
                r matches Ok(o) && o.raw == seq_sum(scores)
                    && o.matched_numeric_threshold is None
                    && o.matched_categories@.len() == values.len()
                    && forall|i: int| 0 <= i < values.len() ==> #[trigger] o.matched_categories@[i]@ == values[i]@
            } else {
                r matches Err(AreaScoreError::CategorySumOverflow)
            },
            CategoryAgg::Max => r matches Ok(o) && o.raw == seq_max(scores)
                && o.matched_numeric_threshold is None
                && o.matched_categories@.len() == values.len()
                && forall|i: int| 0 <= i < values.len() ==> #[trigger] o.matched_categories@[i]@ == values[i]@,
        }
    }
}

/// Computes the raw score of an area from a normalized input and the area's
/// score tables. The caller caps the result at the area's full score.
pub fn compute_area_score(
    area: &AreaMeta,
    input: AreaScoreInput,
    lookup_track: Option<i64>,
    tables: &AreaTables,
) -> (r: Result<AreaScoreOutcome, AreaScoreError>)
    ensures
        match input {
            AreaScoreInput::Numeric(v) => numeric_result(*area, v, *tables, lookup_track, r),
            AreaScoreInput::Category(values) => category_result(*area, values@, *tables, lookup_track, r),
            AreaScoreInput::Manual(v) => r matches Ok(o) && o.raw == v && o.matched_numeric_threshold is None
                && o.matched_categories@.len() == 0,
        },
{
    match input {
        AreaScoreInput::Numeric(value) => {
            let mode = match area.match_mode {
                None => { return Err(AreaScoreError::NumericMatchModeUnset); },
                Some(m) => m,
            };
            let rows: &Vec<(i64, i64)> = if tables.numeric_rows.len() == 0 && lookup_track.is_some() {
                &tables.numeric_common
            } else {
                &tables.numeric_rows
            };
            if rows.len() == 0 {
                return Err(AreaScoreError::NumericTableEmpty);
            }
            let raw = match lookup_range_score(value, rows.as_slice(), mode) {
                Ok(v) => v,
                Err(e) => { return Err(AreaScoreError::NumericNoMatch(e)); },
            };
            let th = find_numeric_matched_threshold(value, rows.as_slice(), mode);
            Ok(AreaScoreOutcome { raw, matched_numeric_threshold: th, matched_categories: Vec::new() })
        },
        AreaScoreInput::Category(values) => {
            if values.len() == 0 {
                return Err(AreaScoreError::CategoryEmpty);
            }
            let agg = match area.category_agg {
                None => { return Err(AreaScoreError::CategoryAggUnset); },
                Some(a) => a,
            };
            let empty: Vec<(String, i64)> = Vec::new();
            let fallback: &Vec<(String, i64)> = if lookup_track.is_some() { &tables.category_common } else { &empty };
            let ghost rows = tables.category_rows@;
            let ghost fb = fallback@;
            assert(fb == category_fallback(*tables, lookup_track));
            let mut scores: Vec<i64> = Vec::new();
            let mut matched: Vec<String> = Vec::new();
            let mut i: usize = 0;
            while i < values.len()
                invariant
                    input == AreaScoreInput::Category(values),
                    values@.len() > 0,
                    area.category_agg == Some(agg),
                    fb == category_fallback(*tables, lookup_track),
                    i <= values@.len(),
                    rows == tables.category_rows@,
                    fb == fallback@,
                    scores@.len() == i,
                    matched@.len() == i,
                    forall|j: int| 0 <= j < i ==> category_score(values@[j]@, rows, fb) is Some,
                    forall|j: int| 0 <= j < i ==> #[trigger] scores@[j] == category_score(values@[j]@, rows, fb)->0,
                    forall|j: int| 0 <= j < i ==> #[trigger] matched@[j]@ == values@[j]@,
                decreases values@.len() - i,
            {
                let cat = &values[i];
                let found = match category_lookup(cat, &tables.category_rows) {
                    Some(v) => Some(v),
                    None => category_lookup(cat, fallback),
                };
                match found {
                    Some(sc) => {
                        scores.push(sc);
                        matched.push(cat.clone());
                    },
                    None => {
                        proof {
                            assert(category_score(values@[i as int]@, rows, fb) is None);
                            let w = choose|w: int| 0 <= w < values@.len() && category_score(values@[w]@, rows, fb) is None
                                && forall|j: int| 0 <= j < w ==> category_score(values@[j]@, rows, fb) is Some;
                            if w < i {
                                assert(category_score(values@[w]@, rows, fb) is Some);
                            }
                            if w > i {
                                assert(category_score(values@[i as int]@, rows, fb) is Some);
                            }
                        }
                        return Err(AreaScoreError::CategoryUnknown(cat.clone()));
                    },
                }
                i = i + 1;
            }
            let ghost all = category_scores(values@, rows, fb);
            assert(scores@ =~= all);
            assert(first_unknown(values@, rows, fb) is None);
            let raw = match agg {
                CategoryAgg::Sum => {
                    let mut acc: i64 = 0;
                    let mut k: usize = 0;
                    while k < scores.len()
                        invariant
                            input == AreaScoreInput::Category(values),
                            values@.len() > 0,
                            area.category_agg == Some(CategoryAgg::Sum),
                            fb == category_fallback(*tables, lookup_track),
                            rows == tables.category_rows@,
                            first_unknown(values@, rows, fb) is None,
                            scores@ == category_scores(values@, rows, fb),
                            k <= scores@.len(),
                            acc == seq_sum(scores@.take(k as int)),
                            forall|j: int| 0 <= j <= k ==> i64::MIN <= #[trigger] seq_sum(scores@.take(j)) <= i64::MAX,
                        decreases scores@.len() - k,
                    {
                        assert(scores@.take(k + 1).drop_last() =~= scores@.take(k as int));
                        match acc.checked_add(scores[k]) {
                            Some(v) => { acc = v; },
                            None => {
                                assert(!(i64::MIN <= seq_sum(scores@.take(k + 1)) <= i64::MAX));
                                return Err(AreaScoreError::CategorySumOverflow);
                            },
                        }
                        k = k + 1;
                    }
                    assert(scores@.take(scores@.len() as int) =~= scores@);
                    acc
                },
                CategoryAgg::Max => {
                    let mut best: i64 = scores[0];
                    let mut k: usize = 1;
                    assert(scores@.take(1).drop_last().len() == 0);
                    while k < scores.len()
                        invariant
                            1 <= k <= scores@.len(),
                            best == seq_max(scores@.take(k as int)),
                        decreases scores@.len() - k,
                    {
                        assert(scores@.take(k + 1).drop_last() =~= scores@.take(k as int));
                        if scores[k] >= best {
                            best = scores[k];
                        }
                        k = k + 1;
                    }
                    assert(scores@.take(scores@.len() as int) =~= scores@);
                    best
                },
            };
            Ok(AreaScoreOutcome { raw, matched_numeric_threshold: None, matched_categories: matched })
        },
        AreaScoreInput::Manual(value) => Ok(
            AreaScoreOutcome { raw: value, matched_numeric_threshold: None, matched_categories: Vec::new() },
        ),
    }
}

/// The message of a computation failure.
pub open spec fn error_text(e: AreaScoreError) -> Seq<char> {
    match e {
        AreaScoreError::NumericMatchModeUnset => "NUMERIC 타입에 match_mode가 설정되지 않았습니다"@,
        AreaScoreError::NumericTableEmpty => "NUMERIC 점수 기준표가 설정되지 않았습니다"@,
        AreaScoreError::NumericNoMatch(s) => s@,
        AreaScoreError::CategoryEmpty => "선택된 범주가 없습니다"@,
        AreaScoreError::CategoryUnknown(c) => "점수표에 없는 범주: "@ + c@,
        AreaScoreError::CategoryAggUnset => "CATEGORY 타입에 category_agg가 설정되지 않았습니다"@,
        AreaScoreError::CategorySumOverflow => "CATEGORY SUM 점수 합산 오버플로우"@,
        AreaScoreError::Db(s) => "DB 오류: "@ + s@,
    }
}

impl AreaScoreError {
    /// The message shown for the failure.
    pub fn message(&self) -> (m: String)
        ensures
            m@ == error_text(*self),
    {
        match self {
            AreaScoreError::NumericMatchModeUnset => "NUMERIC 타입에 match_mode가 설정되지 않았습니다".to_owned(),
            AreaScoreError::NumericTableEmpty => "NUMERIC 점수 기준표가 설정되지 않았습니다".to_owned(),
            AreaScoreError::NumericNoMatch(s) => s.clone(),
            AreaScoreError::CategoryEmpty => "선택된 범주가 없습니다".to_owned(),
            AreaScoreError::CategoryUnknown(c) => {
                let mut v = chars_of("점수표에 없는 범주: ");
                append_str(&mut v, c.as_str());
                string_of(&v)
            },
            AreaScoreError::CategoryAggUnset => "CATEGORY 타입에 category_agg가 설정되지 않았습니다".to_owned(),
            AreaScoreError::CategorySumOverflow => "CATEGORY SUM 점수 합산 오버플로우".to_owned(),
            AreaScoreError::Db(s) => {
                let mut v = chars_of("DB 오류: ");
                append_str(&mut v, s.as_str());
                string_of(&v)
            },
        }
    }
}

/// An area as the score calculation reads it.
pub struct AreaRow {
    pub id: i64,
    pub name: String,
    pub calc_type: CalcType,
    pub max_score: i64,
    pub match_mode: Option<MatchMode>,
    pub category_agg: Option<CategoryAgg>,
    pub lookup_scope: LookupScope,
}

/// Who is being scored, for the messages.
pub struct StudentTrackCtx {
    pub student_code: String,
    pub student_name: String,
    pub univ_name: String,
    pub track_name: String,
}

/// The track whose data a computation reads: the application's track for a
/// per-track (COMPOSITE) area, none (the common data) for a SIMPLE one.
pub open spec fn spec_lookup_track(scope: LookupScope, track_id: i64) -> Option<i64> {
    if scope == LookupScope::Composite {
        Some(track_id)
    } else {
        None
    }
}

/// The track whose data a computation of `area` for `track_id` reads.
pub fn area_lookup_track(area: &AreaRow, track_id: i64) -> (r: Option<i64>)
    ensures
        r == spec_lookup_track(area.lookup_scope, track_id),
{
    if area.lookup_scope == LookupScope::Composite {
        Some(track_id)
    } else {
        None
    }
}

/// `전형요소 '<area>': <univ> <track> 지원자 <student> (<code>)` — the subject of every message.
pub open spec fn subject_text(area: AreaRow, ctx: StudentTrackCtx) -> Seq<char> {
    "전형요소 '"@ + area.name@ + "': "@ + ctx.univ_name@ + " "@ + ctx.track_name@ + " 지원자 "@
        + ctx.student_name@ + " ("@ + ctx.student_code@ + ")"@
}

fn subject_chars(area: &AreaRow, ctx: &StudentTrackCtx) -> (v: Vec<char>)
    ensures
        v@ == subject_text(*area, *ctx),
{
    let mut v = chars_of("전형요소 '");
    append_str(&mut v, area.name.as_str());
    append_str(&mut v, "': ");
    append_str(&mut v, ctx.univ_name.as_str());
    append_str(&mut v, " ");
    append_str(&mut v, ctx.track_name.as_str());
    append_str(&mut v, " 지원자 ");
    append_str(&mut v, ctx.student_name.as_str());
    append_str(&mut v, " (");
    append_str(&mut v, ctx.student_code.as_str());
    append_str(&mut v, ")");
    v
}

/// `subject + a + b + c` as a string.
fn subject_message(subject: &Vec<char>, a: &str, b: &Vec<char>, c: &str) -> (s: String)
    ensures
        s@ == subject@ + a@ + b@ + c@,
{
    let mut v: Vec<char> = Vec::new();
    push_all(&mut v, subject);
    append_str(&mut v, a);
    push_all(&mut v, b);
    append_str(&mut v, c);
    string_of(&v)
}

/// `subject + a` as a string.
fn subject_message2(subject: &Vec<char>, a: &str) -> (s: String)
    ensures
        s@ == subject@ + a@,
{
    let mut v: Vec<char> = Vec::new();
    push_all(&mut v, subject);
    append_str(&mut v, a);
    string_of(&v)
}

/// `subject + a + b` as a string.
fn subject_message3(subject: &Vec<char>, a: &str, b: &Vec<char>) -> (s: String)
    ensures
        s@ == subject@ + a@ + b@,
{
    let mut v: Vec<char> = Vec::new();
    push_all(&mut v, subject);
    append_str(&mut v, a);
    push_all(&mut v, b);
    string_of(&v)
}

/// The raw score (or failure message) of a NUMERIC value.
pub open spec fn numeric_outcome(mode: Option<MatchMode>, value: i64, rows: Seq<(i64, i64)>) -> Result<i64, Seq<char>> {
    match mode {
        None => Err("NUMERIC 타입에 match_mode가 설정되지 않았습니다"@),
        Some(m) => if rows.len() == 0 {
            Err("NUMERIC 점수 기준표가 설정되지 않았습니다"@)
        } else {
            spec_lookup(value, rows, m)
        },
    }
}

/// The raw score of categories, or the failure: `(true, category)` for an
/// unknown category, `(false, message)` otherwise.
pub open spec fn category_outcome(
    agg: Option<CategoryAgg>,
    values: Seq<String>,
    rows: Seq<(String, i64)>,
    fallback: Seq<(String, i64)>,
) -> Result<i64, (bool, Seq<char>)> {
    if values.len() == 0 {
        Err((false, "선택된 범주가 없습니다"@))
    } else if agg is None {
        Err((false, "CATEGORY 타입에 category_agg가 설정되지 않았습니다"@))
    } else if first_unknown(values, rows, fallback) is Some {
        Err((true, values[first_unknown(values, rows, fallback)->0]@))
    } else {
        let scores = category_scores(values, rows, fallback);
        match agg->0 {
            CategoryAgg::Sum => if sums_fit(scores) {
                Ok(seq_sum(scores) as i64)
            } else {
                Err((false, "CATEGORY SUM 점수 합산 오버플로우"@))
            },
            CategoryAgg::Max => Ok(seq_max(scores)),
        }
    }
}

/// `min(raw, max_score)`.
pub open spec fn capped(raw: i64, max_score: i64) -> i64 {
    if raw < max_score {
        raw
    } else {
        max_score
    }
}

/// The area score of one application, or the message of the failure.
/// `base_values` are the stored values of the student for the area (in the
/// track's data for a COMPOSITE area); NUMERIC and MANUAL read the first one.
pub open spec fn spec_calc_area_score(
    area: AreaRow,
    track_id: i64,
    ctx: StudentTrackCtx,
    base_values: Seq<String>,
    tables: AreaTables,
) -> Result<i64, Seq<char>> {
    let subject = subject_text(area, ctx);
    let lt = spec_lookup_track(area.lookup_scope, track_id);
    match area.calc_type {
        CalcType::Numeric => if base_values.len() == 0 {
            Err(subject + "의 NUMERIC base_data가 없습니다"@)
        } else {
            let t = trim(base_values[0]@);
            match spec_parse_i64(t) {
                None => Err(subject + "의 base_data 값 '"@ + t + "' 을 정수로 파싱할 수 없습니다"@),
                Some(v) => match numeric_outcome(area.match_mode, v, numeric_table(tables, lt)) {
                    Ok(raw) => Ok(capped(raw, area.max_score)),
                    Err(m) => Err(subject + " - "@ + m),
                },
            }
        },
        CalcType::Category => if base_values.len() == 0 {
            Err(subject + "의 CATEGORY base_data가 없습니다"@)
        } else {
            match category_outcome(area.category_agg, base_values, tables.category_rows@, category_fallback(tables, lt)) {
                Ok(raw) => Ok(capped(raw, area.max_score)),
                Err((true, cat)) => Err(subject + "에 대해 범주 '"@ + cat + "' 에 해당하는 category_map 항목이 없습니다"@),
                Err((false, m)) => Err(subject + " - "@ + m),
            }
        },
        CalcType::Manual => if base_values.len() == 0 {
            Err(subject + "의 MANUAL base_data가 없습니다"@)
        } else {
            let t = trim(base_values[0]@);
            match spec_parse_i64(t) {
                None => Err(subject + "의 MANUAL base_data 값 '"@ + t + "' 을 정수로 파싱할 수 없습니다"@),
                Some(v) => Ok(capped(v, area.max_score)),
            }
        },
    }
}

/// Computes the final (capped) score of one area for one application from the
/// student's stored values and the area's score tables — the same rule for the
/// round's calculation and for every preview.
pub fn calc_area_score(
    area: &AreaRow,
    track_id: i64,
    ctx: &StudentTrackCtx,
    base_values: &Vec<String>,
    tables: &AreaTables,
) -> (r: Result<i64, String>)
    ensures
        match r {
            Ok(v) => spec_calc_area_score(*area, track_id, *ctx, base_values@, *tables) == Ok::<i64, Seq<char>>(v),
            Err(m) => spec_calc_area_score(*area, track_id, *ctx, base_values@, *tables) == Err::<i64, Seq<char>>(m@),
        },
        r matches Ok(v) ==> v <= area.max_score,
{
    proof {
        law_area_score_is_capped(*area, track_id, *ctx, base_values@, *tables);
    }
    let lt = area_lookup_track(area, track_id);
    let meta = AreaMeta {
        id: area.id,
        name: area.name.as_str(),
        max_score: area.max_score,
        match_mode: area.match_mode,
        category_agg: area.category_agg,
    };
    let subject = subject_chars(area, ctx);
    match area.calc_type {
        CalcType::Numeric | CalcType::Manual => {
            let is_numeric = area.calc_type == CalcType::Numeric;
            if base_values.len() == 0 {
                if is_numeric {
                    return Err(subject_message2(&subject, "의 NUMERIC base_data가 없습니다"));
                } else {
                    return Err(subject_message2(&subject, "의 MANUAL base_data가 없습니다"));
                }
            }
            let t = trim_chars(&chars_of(base_values[0].as_str()));
            let v = match parse_i64(&t) {
                None => {
                    if is_numeric {
                        return Err(subject_message(&subject, "의 base_data 값 '", &t, "' 을 정수로 파싱할 수 없습니다"));
                    } else {
                        return Err(subject_message(&subject, "의 MANUAL base_data 값 '", &t, "' 을 정수로 파싱할 수 없습니다"));
                    }
                },
                Some(v) => v,
            };
            if !is_numeric {
                return Ok(if v < area.max_score { v } else { area.max_score });
            }
            match compute_area_score(&meta, AreaScoreInput::Numeric(v), lt, tables) {
                Ok(o) => Ok(if o.raw < area.max_score { o.raw } else { area.max_score }),
                Err(e) => {
                    let m = chars_of(e.message().as_str());
                    Err(subject_message3(&subject, " - ", &m))
                },
            }
        },
        CalcType::Category => {
            if base_values.len() == 0 {
                return Err(subject_message2(&subject, "의 CATEGORY base_data가 없습니다"));
            }
            match compute_area_score(&meta, AreaScoreInput::Category(base_values.as_slice()), lt, tables) {
                Ok(o) => Ok(if o.raw < area.max_score { o.raw } else { area.max_score }),
                Err(AreaScoreError::CategoryUnknown(cat)) => {
                    let c = chars_of(cat.as_str());
                    Err(subject_message(&subject, "에 대해 범주 '", &c, "' 에 해당하는 category_map 항목이 없습니다"))
                },
                Err(e) => {
                    let m = chars_of(e.message().as_str());
                    Err(subject_message3(&subject, " - ", &m))
                },
            }
        },
    }
}

/// Law (an area score is the raw score capped at the area's full score): an
/// area score is never above the area's maximum; it is the raw score itself
/// when that is not above the maximum, and the maximum otherwise. The raw score
/// is the range-table lookup of a numeric value, the sum or maximum of the
/// category scores, or the manual value itself.
pub proof fn law_area_score_is_capped(
    area: AreaRow,
    track_id: i64,
    ctx: StudentTrackCtx,
    base_values: Seq<String>,
    tables: AreaTables,
)
    ensures
        spec_calc_area_score(area, track_id, ctx, base_values, tables) matches Ok(v) ==> v <= area.max_score,
        ({
            let lt = spec_lookup_track(area.lookup_scope, track_id);
            let raw: Option<i64> = if base_values.len() == 0 {
                None
            } else {
                match area.calc_type {
                    CalcType::Numeric => match spec_parse_i64(trim(base_values[0]@)) {
                        Some(v) => match numeric_outcome(area.match_mode, v, numeric_table(tables, lt)) {
                            Ok(x) => Some(x),
                            Err(_) => None,
                        },
                        None => None,
                    },
                    CalcType::Category => match category_outcome(
                        area.category_agg,
                        base_values,
                        tables.category_rows@,
                        category_fallback(tables, lt),
                    ) {
                        Ok(x) => Some(x),
                        Err(_) => None,
                    },
                    CalcType::Manual => spec_parse_i64(trim(base_values[0]@)),
                }
            };
            &&& raw is Some ==> spec_calc_area_score(area, track_id, ctx, base_values, tables) is Ok
            &&& raw is Some && raw->0 <= area.max_score ==> spec_calc_area_score(area, track_id, ctx, base_values, tables)
                == Ok::<i64, Seq<char>>(raw->0)
            &&& raw is Some && raw->0 > area.max_score ==> spec_calc_area_score(area, track_id, ctx, base_values, tables)
                == Ok::<i64, Seq<char>>(area.max_score)
            &&& raw is None ==> spec_calc_area_score(area, track_id, ctx, base_values, tables) is Err
        }),
{
}

} // verus!
