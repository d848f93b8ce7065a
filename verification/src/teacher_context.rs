//! What a class teacher sees of each area while entering an applicant's data:
//! the area's settings, its score table, and the values stored so far.
use vstd::prelude::*;
use crate::display::{fmt_score, score_text};
use crate::enums::{CalcType, CategoryAgg, LookupScope, MatchMode};
use crate::score::Score;
use crate::text::{chars_of, parse_i64, spec_parse_i64, trim, trim_chars};

verus! {

/// The applicant and track whose context is asked for.
#[derive(Debug, Clone, Copy)]
pub struct AreaContextQuery {
    pub student_id: i64,
    pub track_id: i64,
}

/// The key of a score table row: a threshold (fixed-point) or a category.
#[derive(Debug, Clone)]
pub enum TableKey {
    Threshold(i64),
    Category(String),
}

/// One row of an area's score table.
#[derive(Debug, Clone)]
pub struct ScoreTableRow {
    pub key: TableKey,
    pub score: Score,
}

/// An area as stored, with the unit its values are typed in.
#[derive(Debug, Clone)]
pub struct ContextAreaRow {
    pub id: i64,
    pub name: String,
    pub max_score: i64,
    pub calc_type: CalcType,
    pub teacher_editable: bool,
    pub lookup_scope: LookupScope,
    pub match_mode: Option<MatchMode>,
    pub category_agg: Option<CategoryAgg>,
    pub unit: Option<String>,
}

/// One area of the context.
#[derive(Debug, Clone)]
pub struct AreaContextItem {
    pub area_id: i64,
    pub area_name: String,
    pub calc_type: CalcType,
    pub max_score: Score,
    pub teacher_editable: bool,
    pub match_mode: Option<MatchMode>,
    pub category_agg: Option<CategoryAgg>,
    pub multi_value: bool,
    pub unit: Option<String>,
    pub current_values: Vec<String>,
    pub table: Option<Vec<ScoreTableRow>>,
}

/// The track whose table and values the context reads for `track_id`: the
/// track itself for a per-track area, none (the shared data) otherwise.
pub open spec fn context_track(scope: LookupScope, track_id: i64) -> Option<i64> {
    if scope == LookupScope::Composite { Some(track_id) } else { None }
}

/// The track whose data the context of `area` reads.
pub fn context_lookup_track(area: &ContextAreaRow, track_id: i64) -> (r: Option<i64>)
    ensures
        r == context_track(area.lookup_scope, track_id),
{
    if area.lookup_scope == LookupScope::Composite {
        Some(track_id)
    } else {
        None
    }
}

/// A track's own table is empty: the shared table is shown in its place.
pub fn use_shared_table(track_rows: usize, lookup_track: Option<i64>) -> (r: bool)
    ensures
        r == (track_rows == 0 && lookup_track is Some),
{
    track_rows == 0 && lookup_track.is_some()
}

/// A stored value as shown to the teacher: numeric and manual values that read
/// (after trimming) as whole numbers in display form, anything else unchanged.
pub open spec fn shown_value(raw: Seq<char>, calc_type: CalcType) -> Seq<char> {
    match calc_type {
        CalcType::Category => raw,
        _ => match spec_parse_i64(trim(raw)) {
            Some(n) => score_text(n as int),
            None => raw,
        },
    }
}

/// The stored values as shown to the teacher, in order.
pub fn shown_values(raw: &Vec<String>, calc_type: CalcType) -> (r: Vec<String>)
    ensures
        r@.len() == raw@.len(),
        forall|k: int| 0 <= k < raw@.len() ==> (#[trigger] r@[k])@ == shown_value(raw@[k]@, calc_type),
{
    let mut r: Vec<String> = Vec::new();
    let mut k: usize = 0;
    while k < raw.len()
        invariant
            k <= raw@.len(),
            r@.len() == k,
            forall|j: int| 0 <= j < k ==> (#[trigger] r@[j])@ == shown_value(raw@[j]@, calc_type),
        decreases raw@.len() - k,
    {
        let v = &raw[k];
        let shown = match calc_type {
            CalcType::Category => v.clone(),
            _ => {
                let t = trim_chars(&chars_of(v.as_str()));
                match parse_i64(&t) {
                    Some(n) => fmt_score(n),
                    None => v.clone(),
                }
            },
        };
        r.push(shown);
        k = k + 1;
    }
    r
}

/// The context of one area: its settings (a summing category area takes many
/// values), the table shown (none for a manual area) and the values shown.
pub fn area_context_item(
    area: &ContextAreaRow,
    current_values: Vec<String>,
    table: Option<Vec<ScoreTableRow>>,
) -> (r: AreaContextItem)
    ensures
        r.area_id == area.id,
        r.area_name@ == area.name@,
        r.calc_type == area.calc_type,
        r.max_score.0 == area.max_score,
        r.teacher_editable == area.teacher_editable,
        r.match_mode == area.match_mode,
        r.category_agg == area.category_agg,
        r.multi_value == (area.category_agg == Some(CategoryAgg::Sum)),
        r.unit is Some == area.unit is Some,
        r.unit is Some ==> r.unit->0@ == area.unit->0@,
        r.current_values@ == current_values@,
        area.calc_type == CalcType::Manual ==> r.table is None,
        area.calc_type != CalcType::Manual ==> r.table == table,
{
    let multi_value = match area.category_agg {
        Some(CategoryAgg::Sum) => true,
        _ => false,
    };
    let unit = match &area.unit {
        Some(u) => Some(u.clone()),
        None => None,
    };
    let table = match area.calc_type {
        CalcType::Manual => None,
        _ => table,
    };
    AreaContextItem {
        area_id: area.id,
        area_name: area.name.clone(),
        calc_type: area.calc_type,
        max_score: Score(area.max_score),
        teacher_editable: area.teacher_editable,
        match_mode: area.match_mode,
        category_agg: area.category_agg,
        multi_value,
        unit,
        current_values,
        table,
    }
}

} // verus!
