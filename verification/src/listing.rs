//! Paged lists: the page window of a request, and the rows of the score
//! table and base-data lists.
use vstd::prelude::*;
use crate::display::{fmt_score, score_text};
use crate::enums::CalcType;
use crate::guards::{is_refusal, refuse_chars, Refusal};
use crate::score::Score;
use crate::text::{append_str, chars_of, i64_text, int_text, parse_i64, push_all, spec_parse_i64, string_of};

verus! {

/// A page request.
#[derive(Debug, Clone, Copy, PartialEq, Eq)]
pub struct PageQuery {
    pub page: i64,
    pub per_page: i64,
}

/// A page request of the base-data list, for enrolled students or graduates.
#[derive(Debug, Clone)]
pub struct BaseDataPageQuery {
    pub page: i64,
    pub per_page: i64,
    pub student_type: String,
}

/// The student type of a base-data request.
#[derive(Debug, Clone)]
pub struct StudentTypeQuery {
    pub student_type: String,
}

/// The rows a list request asks for.
#[derive(Debug, Clone, Copy, PartialEq, Eq, Structural)]
pub struct PageWindow {
    pub page: i64,
    pub per_page: i64,
    pub offset: i64,
}

/// The window of a page request: at least page 1 and one row per page, at
/// most `max_per_page` rows when there is a cap; the offset skips the
/// earlier pages.
pub open spec fn window_of(page: i64, per_page: i64, max_per_page: Option<i64>) -> (int, int) {
    let pp: int = if per_page < 1 { 1 } else { per_page as int };
    let pp2: int = match max_per_page {
        Some(m) => if pp > m { m as int } else { pp },
        None => pp,
    };
    let p: int = if page < 1 { 1 } else { page as int };
    (p, pp2)
}

/// Computes the window of a page request (see `window_of`).
pub fn page_window(page: i64, per_page: i64, max_per_page: Option<i64>) -> (w: PageWindow)
    requires
        max_per_page matches Some(m) ==> m >= 1,
        ({
            let (p, pp) = window_of(page, per_page, max_per_page);
            (p - 1) * pp <= i64::MAX
        }),
    ensures
        ({
            let (p, pp) = window_of(page, per_page, max_per_page);
            &&& w.page == p
            &&& w.per_page == pp
            &&& w.offset == (p - 1) * pp
        }),
{
    let mut pp: i64 = if per_page < 1 { 1 } else { per_page };
    match max_per_page {
        Some(m) => if pp > m {
            pp = m;
        },
        None => {},
    }
    let p: i64 = if page < 1 { 1 } else { page };
    assert(0 <= (p - 1) * pp) by (nonlinear_arith)
        requires
            p >= 1,
            pp >= 1,
    ;
    let offset = (p - 1) * pp;
    PageWindow { page: p, per_page: pp, offset }
}

/// A row of the range-table list.
#[derive(Debug, Clone)]
pub struct RangeTableListRow {
    pub threshold: Score,
    pub score: Score,
    pub univ_name: Option<String>,
    pub track_name: Option<String>,
    pub track_id: Option<i64>,
}

/// A page of the range-table list.
#[derive(Debug, Clone)]
pub struct NumericTablePage {
    pub rows: Vec<RangeTableListRow>,
    pub total: i64,
    pub page: i64,
    pub per_page: i64,
}

/// A row of the category-table list.
#[derive(Debug, Clone)]
pub struct CategoryMapListRow {
    pub category: String,
    pub score: Score,
    pub univ_name: Option<String>,
    pub track_name: Option<String>,
    pub track_id: Option<i64>,
}

/// A page of the category-table list.
#[derive(Debug, Clone)]
pub struct CategoryMapPage {
    pub rows: Vec<CategoryMapListRow>,
    pub total: i64,
    pub page: i64,
    pub per_page: i64,
}

/// A row of the base-data list, the value as displayed.
#[derive(Debug, Clone)]
pub struct BaseDataListRow {
    pub student_code: String,
    pub name: String,
    pub value: String,
    pub univ_name: Option<String>,
    pub track_name: Option<String>,
}

/// A page of the base-data list.
#[derive(Debug, Clone)]
pub struct BaseDataPage {
    pub rows: Vec<BaseDataListRow>,
    pub total: i64,
    pub page: i64,
    pub per_page: i64,
}

/// A row of the range-table list: the track columns are shown only for a
/// per-track area.
pub fn range_list_row(
    composite: bool,
    threshold: i64,
    score: i64,
    univ_name: String,
    track_name: String,
    track_id: Option<i64>,
) -> (r: RangeTableListRow)
    ensures
        r.threshold == Score(threshold),
        r.score == Score(score),
        composite ==> r.univ_name == Some(univ_name) && r.track_name == Some(track_name) && r.track_id == track_id,
        !composite ==> r.univ_name is None && r.track_name is None && r.track_id is None,
{
    if composite {
        RangeTableListRow { threshold: Score::from_raw(threshold), score: Score::from_raw(score), univ_name: Some(univ_name), track_name: Some(track_name), track_id }
    } else {
        RangeTableListRow { threshold: Score::from_raw(threshold), score: Score::from_raw(score), univ_name: None, track_name: None, track_id: None }
    }
}

/// A row of the category-table list (track columns as in `range_list_row`).
pub fn category_list_row(
    composite: bool,
    category: String,
    score: i64,
    univ_name: String,
    track_name: String,
    track_id: Option<i64>,
) -> (r: CategoryMapListRow)
    ensures
        r.category == category,
        r.score == Score(score),
        composite ==> r.univ_name == Some(univ_name) && r.track_name == Some(track_name) && r.track_id == track_id,
        !composite ==> r.univ_name is None && r.track_name is None && r.track_id is None,
{
    if composite {
        CategoryMapListRow { category, score: Score::from_raw(score), univ_name: Some(univ_name), track_name: Some(track_name), track_id }
    } else {
        CategoryMapListRow { category, score: Score::from_raw(score), univ_name: None, track_name: None, track_id: None }
    }
}

/// The displayed form of a stored base-data value: numeric and manual values
/// are fixed-point integers shown as decimals; categories are shown as they are.
pub open spec fn display_value(raw: Seq<char>, calc_type: CalcType, area_id: i64) -> Result<Seq<char>, Seq<char>> {
    if calc_type == CalcType::Category {
        Ok(raw)
    } else {
        match spec_parse_i64(raw) {
            Some(v) => Ok(score_text(v as int)),
            None => Err("base_data 값 '"@ + raw + "' 을 정수로 파싱할 수 없습니다 (area_id="@ + int_text(area_id as int) + ")"@),
        }
    }
}

/// Shows a stored base-data value (see `display_value`); an unreadable
/// stored number is a fault (500).
pub fn base_data_display(raw: &str, calc_type: CalcType, area_id: i64) -> (r: Result<String, Refusal>)
    ensures
        match display_value(raw@, calc_type, area_id) {
            Ok(s) => r matches Ok(v) && v@ == s,
            Err(m) => is_refusal(r, 500, m),
        },
{
    if calc_type == CalcType::Category {
        return Ok(string_of(&chars_of(raw)));
    }
    match parse_i64(&chars_of(raw)) {
        Some(v) => Ok(fmt_score(v)),
        None => {
            let mut m = chars_of("base_data 값 '");
            append_str(&mut m, raw);
            append_str(&mut m, "' 을 정수로 파싱할 수 없습니다 (area_id=");
            push_all(&mut m, &i64_text(area_id));
            append_str(&mut m, ")");
            Err(refuse_chars(500, &m))
        },
    }
}

/// A row of the base-data list (track columns only for a per-track area).
pub fn base_list_row(
    composite: bool,
    student_code: String,
    name: String,
    raw_value: &str,
    calc_type: CalcType,
    area_id: i64,
    univ_name: String,
    track_name: String,
) -> (r: Result<BaseDataListRow, Refusal>)
    ensures
        match display_value(raw_value@, calc_type, area_id) {
            Ok(s) => r matches Ok(row) && row.value@ == s && row.student_code == student_code && row.name == name && (composite
                ==> row.univ_name == Some(univ_name) && row.track_name == Some(track_name)) && (!composite
                ==> row.univ_name is None && row.track_name is None),
            Err(m) => is_refusal(r, 500, m),
        },
{
    let value = base_data_display(raw_value, calc_type, area_id)?;
    if composite {
        Ok(BaseDataListRow { student_code, name, value, univ_name: Some(univ_name), track_name: Some(track_name) })
    } else {
        Ok(BaseDataListRow { student_code, name, value, univ_name: None, track_name: None })
    }
}

} // verus!
