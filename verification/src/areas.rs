//! Scoring areas (전형요소): the rules for creating, renaming and deleting them.
//! Areas are frozen once any round was closed.
use vstd::prelude::*;
use crate::enums::{CalcType, CategoryAgg, LookupScope, MatchMode};
use crate::guards::{is_refusal, refuse, Refusal};
use crate::score::Score;
use crate::text::{chars_of, string_of, trim, trim_chars};

verus! {

/// An area as listed.
#[derive(Debug, Clone)]
pub struct AreaRow {
    pub id: i64,
    pub name: String,
    pub max_score: Score,
    pub calc_type: CalcType,
    pub teacher_editable: bool,
    pub lookup_scope: LookupScope,
    pub match_mode: Option<MatchMode>,
    pub category_agg: Option<CategoryAgg>,
    pub multi_value: bool,
}

/// A new area, as requested.
#[derive(Debug, Clone)]
pub struct CreateAreaBody {
    pub name: String,
    pub max_score: Score,
    pub calc_type: CalcType,
    pub teacher_editable: bool,
    pub lookup_scope: LookupScope,
    pub match_mode: Option<MatchMode>,
    pub category_agg: Option<CategoryAgg>,
    pub multi_value: bool,
}

/// The fields of an area that may change.
#[derive(Debug, Clone)]
pub struct UpdateAreaBody {
    pub name: Option<String>,
    pub teacher_editable: Option<bool>,
}

/// The sample score sheets that can be downloaded.
pub open spec fn is_template_name(name: Seq<char>) -> bool {
    name == "grade"@ || name == "attendance"@ || name == "volunteer"@ || name == "award"@
        || name == "extracurricular"@ || name == "penalty"@
}

/// Whether a sample score sheet of this name exists.
pub fn score_template_known(name: &str) -> (r: bool)
    ensures
        r == is_template_name(name@),
{
    crate::text::str_is(name, "grade") || crate::text::str_is(name, "attendance") || crate::text::str_is(name, "volunteer")
        || crate::text::str_is(name, "award") || crate::text::str_is(name, "extracurricular") || crate::text::str_is(
        name,
        "penalty",
    )
}

/// Areas cannot change once a round was closed or finalized.
pub fn guard_no_closed_round(closed_or_finalized: i64) -> (r: Result<(), Refusal>)
    ensures
        closed_or_finalized > 0 ==> is_refusal(
            r,
            409,
            "종료되거나 마감된 라운드가 존재하므로 전형요소 설정을 변경할 수 없습니다"@,
        ),
        closed_or_finalized <= 0 ==> r is Ok,
{
    if closed_or_finalized > 0 {
        Err(refuse(409, "종료되거나 마감된 라운드가 존재하므로 전형요소 설정을 변경할 수 없습니다"))
    } else {
        Ok(())
    }
}

/// The refusal of a new area, if any: a name, a non-negative full score, a match
/// mode for NUMERIC areas and an aggregation for CATEGORY areas are required.
pub open spec fn create_area_refusal(body: CreateAreaBody) -> Option<Seq<char>> {
    if trim(body.name@).len() == 0 {
        Some("전형요소 이름은 필수입니다"@)
    } else if body.max_score.0 < 0 {
        Some("만점은 0 이상이어야 합니다"@)
    } else if body.calc_type == CalcType::Numeric && body.match_mode is None {
        Some("수치형 입력 전형요소는 구간 탐색 방향(UPPER/LOWER/EXACT)이 필수입니다"@)
    } else if body.calc_type == CalcType::Category && body.category_agg is None {
        Some("선택형 입력 전형요소는 복수 활동 처리 방식(SUM/MAX)이 필수입니다"@)
    } else {
        None
    }
}

/// Checks a new area; on success gives the area's multi-value flag, which is set
/// exactly for SUM aggregation (the requested flag is not used).
pub fn check_create_area(body: &CreateAreaBody) -> (r: Result<bool, Refusal>)
    ensures
        match create_area_refusal(*body) {
            Some(m) => is_refusal(r, 400, m),
            None => r == Ok::<bool, Refusal>(body.category_agg == Some(CategoryAgg::Sum)),
        },
{
    let t = trim_chars(&chars_of(body.name.as_str()));
    if t.len() == 0 {
        return Err(refuse(400, "전형요소 이름은 필수입니다"));
    }
    if body.max_score.0 < 0 {
        return Err(refuse(400, "만점은 0 이상이어야 합니다"));
    }
    if body.calc_type == CalcType::Numeric && body.match_mode.is_none() {
        return Err(refuse(400, "수치형 입력 전형요소는 구간 탐색 방향(UPPER/LOWER/EXACT)이 필수입니다"));
    }
    if body.calc_type == CalcType::Category && body.category_agg.is_none() {
        return Err(refuse(400, "선택형 입력 전형요소는 복수 활동 처리 방식(SUM/MAX)이 필수입니다"));
    }
    Ok(match body.category_agg {
        Some(CategoryAgg::Sum) => true,
        _ => false,
    })
}

/// Checks an area update: something must change, and a new name (trimmed) must not
/// be empty. Gives the trimmed new name, if one was given.
pub fn check_update_area(body: &UpdateAreaBody) -> (r: Result<Option<String>, Refusal>)
    ensures
        body.name is None && body.teacher_editable is None ==> is_refusal(r, 400, "수정할 내용이 없습니다"@),
        body.name is Some && trim(body.name->0@).len() == 0 ==> is_refusal(r, 400, "전형요소 이름은 필수입니다"@),
        body.name is Some && trim(body.name->0@).len() > 0 ==> (r matches Ok(Some(t)) && t@ == trim(body.name->0@)),
        body.name is None && body.teacher_editable is Some ==> (r matches Ok(None)),
{
    if body.name.is_none() && body.teacher_editable.is_none() {
        return Err(refuse(400, "수정할 내용이 없습니다"));
    }
    match &body.name {
        Some(n) => {
            let t = trim_chars(&chars_of(n.as_str()));
            if t.len() == 0 {
                return Err(refuse(400, "전형요소 이름은 필수입니다"));
            }
            Ok(Some(string_of(&t)))
        },
        None => Ok(None),
    }
}

/// Deleting an area that does not exist is refused.
pub fn check_area_found(found: bool) -> (r: Result<(), Refusal>)
    ensures
        !found ==> is_refusal(r, 404, "전형요소를 찾을 수 없습니다"@),
        found ==> r is Ok,
{
    if found {
        Ok(())
    } else {
        Err(refuse(404, "전형요소를 찾을 수 없습니다"))
    }
}

} // verus!
