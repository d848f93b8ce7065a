//! The score preview a class teacher sees while typing an area's value: the
//! capped score, what was matched, a warning when the cap applied, or the error.
use vstd::prelude::*;
use crate::area_score::{
    category_result, compute_area_score, error_text, numeric_result, AreaMeta, AreaScoreError, AreaScoreInput,
    AreaScoreOutcome, AreaTables,
};
use crate::display::{parse_display_value, spec_parse_display};
use crate::enums::{CalcType, CategoryAgg, LookupScope, MatchMode};
use crate::score::Score;
use crate::totals::{checked_sum, checked_total};
use crate::text::{chars_of, string_of};

verus! {

/// A preview request: the area, the application's track, and the typed values.
#[derive(Debug, Clone)]
pub struct AreaScorePreviewBody {
    pub area_id: i64,
    pub track_id: i64,
    pub values: Vec<String>,
}

/// The properties of the area being previewed.
#[derive(Debug, Clone, Copy)]
pub struct AreaProps {
    pub calc_type: CalcType,
    pub max_score: i64,
    pub lookup_scope: LookupScope,
    pub match_mode: Option<MatchMode>,
    pub category_agg: Option<CategoryAgg>,
}

/// The preview: a score, or an error. The matched categories (CATEGORY) or the
/// matched threshold (NUMERIC) say which table rows gave the score.
#[derive(Debug, Clone)]
pub struct AreaScorePreview {
    pub score: Option<Score>,
    pub matched_categories: Vec<String>,
    pub matched_threshold: Option<i64>,
    pub warning: Option<String>,
    pub error: Option<String>,
}

/// The cap warning: a typed (MANUAL) value or a computed score above the full score.
pub open spec fn cap_warning_text(calc_type: CalcType) -> Seq<char> {
    match calc_type {
        CalcType::Manual => "입력값이 만점을 초과하여 만점으로 처리됩니다"@,
        _ => "계산된 점수가 만점을 초과하여 만점으로 처리됩니다"@,
    }
}

/// The preview is an error with this message and nothing else.
pub open spec fn is_error_preview(p: AreaScorePreview, msg: Seq<char>) -> bool {
    &&& p.score is None
    &&& p.matched_categories@.len() == 0
    &&& p.matched_threshold is None
    &&& p.warning is None
    &&& p.error matches Some(e) && e@ == msg
}

/// The preview of a computed outcome: the score capped at `max_score`, a warning when
/// the cap applied, and the matched categories, or else the matched threshold.
pub open spec fn outcome_preview(calc_type: CalcType, max_score: i64, o: AreaScoreOutcome, p: AreaScorePreview) -> bool {
    &&& p.score == Some(Score(if o.raw < max_score { o.raw } else { max_score }))
    &&& p.error is None
    &&& (if o.raw > max_score {
        p.warning matches Some(w) && w@ == cap_warning_text(calc_type)
    } else {
        p.warning is None
    })
    &&& (if o.matched_categories@.len() > 0 {
        p.matched_categories@ == o.matched_categories@ && p.matched_threshold is None
    } else {
        p.matched_categories@.len() == 0 && p.matched_threshold == o.matched_numeric_threshold
    })
}

/// The preview of a computation's result.
pub open spec fn result_preview(calc_type: CalcType, max_score: i64, r: Result<AreaScoreOutcome, AreaScoreError>, p: AreaScorePreview) -> bool {
    match r {
        Ok(o) => outcome_preview(calc_type, max_score, o, p),
        Err(e) => is_error_preview(p, error_text(e)),
    }
}

/// The preview of a typed MANUAL value: the value capped at the full score.
pub open spec fn manual_preview(max_score: i64, v: i64, p: AreaScorePreview) -> bool {
    &&& p.score == Some(Score(if v < max_score { v } else { max_score }))
    &&& p.matched_categories@.len() == 0
    &&& p.matched_threshold is None
    &&& p.error is None
    &&& (if v > max_score {
        p.warning matches Some(w) && w@ == cap_warning_text(CalcType::Manual)
    } else {
        p.warning is None
    })
}

/// The track whose tables the preview reads: the application's for a per-track area.
pub open spec fn preview_track(body: AreaScorePreviewBody, props: AreaProps) -> Option<i64> {
    if props.lookup_scope == LookupScope::Composite {
        Some(body.track_id)
    } else {
        None
    }
}

/// The area as the computation sees it (the preview never names the area).
pub open spec fn preview_meta(area_id: i64, props: AreaProps) -> AreaMeta<'static> {
    AreaMeta { id: area_id, name: "", max_score: props.max_score, match_mode: props.match_mode, category_agg: props.category_agg }
}

fn error_preview(msg: String) -> (p: AreaScorePreview)
    ensures
        is_error_preview(p, msg@),
{
    AreaScorePreview { score: None, matched_categories: Vec::new(), matched_threshold: None, warning: None, error: Some(msg) }
}

fn preview_of(calc_type: CalcType, max_score: i64, r: Result<AreaScoreOutcome, AreaScoreError>) -> (p: AreaScorePreview)
    ensures
        result_preview(calc_type, max_score, r, p),
{
    match r {
        Err(e) => error_preview(e.message()),
        Ok(o) => {
            let capped = if o.raw < max_score { o.raw } else { max_score };
            let warning = if o.raw > max_score {
                let w = match calc_type {
                    CalcType::Manual => "입력값이 만점을 초과하여 만점으로 처리됩니다",
                    _ => "계산된 점수가 만점을 초과하여 만점으로 처리됩니다",
                };
                Some(string_of(&chars_of(w)))
            } else {
                None
            };
            if o.matched_categories.len() > 0 {
                AreaScorePreview {
                    score: Some(Score(capped)),
                    matched_categories: o.matched_categories,
                    matched_threshold: None,
                    warning,
                    error: None,
                }
            } else {
                AreaScorePreview {
                    score: Some(Score(capped)),
                    matched_categories: Vec::new(),
                    matched_threshold: o.matched_numeric_threshold,
                    warning,
                    error: None,
                }
            }
        },
    }
}

/// The preview of a parsed NUMERIC value is that of a computation on it.
pub open spec fn numeric_preview_holds(body: AreaScorePreviewBody, props: AreaProps, tables: AreaTables, p: AreaScorePreview) -> bool {
    exists|r: Result<AreaScoreOutcome, AreaScoreError>|
        #[trigger] numeric_result(
            preview_meta(body.area_id, props),
            spec_parse_display(body.values@[0]@)->Ok_0,
            tables,
            preview_track(body, props),
            r,
        ) && result_preview(props.calc_type, props.max_score, r, p)
}

fn numeric_preview(body: &AreaScorePreviewBody, props: &AreaProps, tables: &AreaTables, meta: &AreaMeta, track: Option<i64>) -> (p: AreaScorePreview)
    requires
        body.values@.len() > 0,
        props.calc_type == CalcType::Numeric,
        *meta == preview_meta(body.area_id, *props),
        track == preview_track(*body, *props),
    ensures
        spec_parse_display(body.values@[0]@) is Err ==> is_error_preview(p, spec_parse_display(body.values@[0]@)->Err_0),
        spec_parse_display(body.values@[0]@) is Ok ==> numeric_preview_holds(*body, *props, *tables, p),
{
    match parse_display_value(body.values[0].as_str()) {
        Ok(v) => {
            let r = compute_area_score(meta, AreaScoreInput::Numeric(v), track, tables);
            let p = preview_of(props.calc_type, props.max_score, r);
            assert(spec_parse_display(body.values@[0]@)->Ok_0 == v);
            assert(numeric_result(
                preview_meta(body.area_id, *props),
                spec_parse_display(body.values@[0]@)->Ok_0,
                *tables,
                preview_track(*body, *props),
                r,
            ));
            p
        },
        Err(e) => error_preview(e),
    }
}

/// Previews the score of typed values for an area, reading the area's tables
/// (`tables`: the track's and the common ones, as the computation reads them).
/// No value is an error; a NUMERIC or MANUAL value must parse as a display value;
/// otherwise the preview is that of the area score computation, capped.
#[verifier::spinoff_prover]
pub fn teacher_area_score_preview(body: &AreaScorePreviewBody, props: &AreaProps, tables: &AreaTables) -> (p: AreaScorePreview)
    ensures
        body.values@.len() == 0 ==> is_error_preview(p, "값이 입력되지 않았습니다"@),
        body.values@.len() > 0 && props.calc_type == CalcType::Category ==> exists|r: Result<AreaScoreOutcome, AreaScoreError>|
            #[trigger] category_result(preview_meta(body.area_id, *props), body.values@, *tables, preview_track(*body, *props), r)
                && result_preview(props.calc_type, props.max_score, r, p),
        body.values@.len() > 0 && props.calc_type != CalcType::Category ==> (spec_parse_display(body.values@[0]@) matches Err(m)
            ==> is_error_preview(p, m)),
        body.values@.len() > 0 && props.calc_type == CalcType::Numeric && spec_parse_display(body.values@[0]@) is Ok
            ==> numeric_preview_holds(*body, *props, *tables, p),
        body.values@.len() > 0 && props.calc_type == CalcType::Manual ==> (spec_parse_display(body.values@[0]@) matches Ok(v)
            ==> manual_preview(props.max_score, v, p)),
{
    if body.values.len() == 0 {
        return error_preview(string_of(&chars_of("값이 입력되지 않았습니다")));
    }
    let track = if props.lookup_scope == LookupScope::Composite { Some(body.track_id) } else { None };
    let meta = AreaMeta {
        id: body.area_id,
        name: "",
        max_score: props.max_score,
        match_mode: props.match_mode,
        category_agg: props.category_agg,
    };
    assert(meta == preview_meta(body.area_id, *props));
    match props.calc_type {
        CalcType::Numeric => numeric_preview(body, props, tables, &meta, track),
        CalcType::Category => {
            let r = compute_area_score(&meta, AreaScoreInput::Category(body.values.as_slice()), track, tables);
            let p = preview_of(props.calc_type, props.max_score, r);
            assert(category_result(preview_meta(body.area_id, *props), body.values@, *tables, track, r));
            assert(result_preview(props.calc_type, props.max_score, r, p));
            p
        },
        CalcType::Manual => match parse_display_value(body.values[0].as_str()) {
            Ok(v) => {
                let r = compute_area_score(&meta, AreaScoreInput::Manual(v), track, tables);
                preview_of(props.calc_type, props.max_score, r)
            },
            Err(e) => error_preview(e),
        },
    }
}

/// The applicant and track whose scores are previewed.
#[derive(Debug, Clone, Copy)]
pub struct ScorePreviewQuery {
    pub student_id: i64,
    pub track_id: i64,
}

/// One area's score in the preview.
#[derive(Debug, Clone)]
pub struct AreaPreview {
    pub area_id: i64,
    pub area_name: String,
    pub score: Score,
}

/// The preview of all areas' scores and their total.
#[derive(Debug, Clone)]
pub struct ScorePreviewResponse {
    pub total: Score,
    pub detail: Vec<AreaPreview>,
}

/// The message of a preview whose total leaves the `i64` range.
pub open spec fn preview_overflow_text() -> Seq<char> {
    "점수 합산 오버플로우"@
}

/// The preview of area scores computed in area order: each area with its score,
/// and their total; `Err` with the overflow message where a partial sum leaves
/// the `i64` range.
pub fn score_preview_response(ids: &Vec<i64>, names: &Vec<String>, scores: &Vec<i64>) -> (r: Result<
    ScorePreviewResponse,
    String,
>)
    requires
        ids@.len() == names@.len(),
        names@.len() == scores@.len(),
    ensures
        match checked_sum(scores@) {
            None => r matches Err(m) && m@ == preview_overflow_text(),
            Some(t) => r matches Ok(p) && {
                &&& p.total.0 == t
                &&& p.detail@.len() == ids@.len()
                &&& forall|k: int|
                    0 <= k < ids@.len() ==> {
                        &&& (#[trigger] p.detail@[k]).area_id == ids@[k]
                        &&& p.detail@[k].area_name@ == names@[k]@
                        &&& p.detail@[k].score.0 == scores@[k]
                    }
            },
        },
{
    let total = match checked_total(scores) {
        Some(t) => t,
        None => {
            return Err("점수 합산 오버플로우".to_owned());
        },
    };
    let mut detail: Vec<AreaPreview> = Vec::new();
    let mut k: usize = 0;
    while k < ids.len()
        invariant
            k <= ids@.len(),
            ids@.len() == names@.len(),
            names@.len() == scores@.len(),
            detail@.len() == k,
            forall|j: int|
                0 <= j < k ==> {
                    &&& (#[trigger] detail@[j]).area_id == ids@[j]
                    &&& detail@[j].area_name@ == names@[j]@
                    &&& detail@[j].score.0 == scores@[j]
                },
        decreases ids@.len() - k,
    {
        detail.push(AreaPreview { area_id: ids[k], area_name: names[k].clone(), score: Score(scores[k]) });
        k = k + 1;
    }
    Ok(ScorePreviewResponse { total: Score(total), detail })
}

} // verus!
