//! The applicant roster sheet: every application with its result, the
//! area scores read from the stored score detail, and the round's marks.
use vstd::prelude::*;
use crate::grids::{opt_int, opt_int_cell, row_view, grid_view, text_cell, Cell, CellView};
use crate::text::{append_str, chars_equal, chars_of, i64_text, int_text, push_all, string_of};

verus! {

/// What the JSON text of a score detail (area id → fixed-point score) parses
/// to: its entries in ascending key order, or the parser's message.
pub uninterp spec fn score_detail_parse(json: Seq<char>) -> Result<Seq<(Seq<char>, i64)>, Seq<char>>;

/// The JSON text that a score detail is stored as, or the serializer's message.
pub uninterp spec fn score_detail_text(entries: Seq<(Seq<char>, i64)>) -> Result<Seq<char>, Seq<char>>;

/// Entries as plain values.
pub open spec fn entries_view(v: Seq<(String, i64)>) -> Seq<(Seq<char>, i64)> {
    v.map_values(|e: (String, i64)| (e.0@, e.1))
}

/// `serde_json::from_str` into a `BTreeMap<String, i64>`, its entries handed
/// out in key order. Claims that the outcome is the named parse of the text.
#[verifier::external_body]
pub(crate) fn parse_detail_json(json: &str) -> (r: Result<Vec<(String, i64)>, String>)
    ensures
        match r {
            Ok(v) => score_detail_parse(json@) == Ok::<Seq<(Seq<char>, i64)>, Seq<char>>(entries_view(v@)),
            Err(e) => score_detail_parse(json@) == Err::<Seq<(Seq<char>, i64)>, Seq<char>>(e@),
        },
{
    let m: std::collections::BTreeMap<String, i64> = serde_json::from_str(json).map_err(|e| e.to_string())?;
    Ok(m.into_iter().collect())
}

/// `serde_json::to_string` of the entries gathered into a `BTreeMap<String, i64>`.
/// Claims that the outcome is the named text of the entries, and that it is a
/// text: the crate's serializer of a map fails only on a key that is not a
/// string or on a failing writer, and here the keys are strings and the
/// writer is an in-memory buffer.
#[verifier::external_body]
fn write_detail_json(entries: &Vec<(String, i64)>) -> (r: Result<String, String>)
    ensures
        r is Ok,
        match r {
            Ok(s) => score_detail_text(entries_view(entries@)) == Ok::<Seq<char>, Seq<char>>(s@),
            Err(e) => score_detail_text(entries_view(entries@)) == Err::<Seq<char>, Seq<char>>(e@),
        },
{
    let m: std::collections::BTreeMap<String, i64> = entries.iter().cloned().collect();
    serde_json::to_string(&m).map_err(|e| e.to_string())
}

/// The score detail of one application: each area id (as decimal text) with its score.
pub open spec fn detail_entries(ids: Seq<i64>, scores: Seq<i64>) -> Seq<(Seq<char>, i64)> {
    Seq::new(ids.len(), |k: int| (int_text(ids[k] as int), scores[k]))
}

/// The stored JSON text of a score detail: area ids paired with their scores.
pub fn score_detail_json(ids: &Vec<i64>, scores: &Vec<i64>) -> (r: Result<String, String>)
    requires
        ids@.len() == scores@.len(),
    ensures
        r is Ok,
        match r {
            Ok(s) => score_detail_text(detail_entries(ids@, scores@)) == Ok::<Seq<char>, Seq<char>>(s@),
            Err(e) => score_detail_text(detail_entries(ids@, scores@)) == Err::<Seq<char>, Seq<char>>(e@),
        },
{
    let mut entries: Vec<(String, i64)> = Vec::new();
    let mut k: usize = 0;
    while k < ids.len()
        invariant
            k <= ids@.len(),
            ids@.len() == scores@.len(),
            entries_view(entries@) == detail_entries(ids@, scores@).take(k as int),
        decreases ids@.len() - k,
    {
        let key = string_of(&i64_text(ids[k]));
        let ghost before = entries_view(entries@);
        entries.push((key, scores[k]));
        assert(entries_view(entries@) =~= before.push((int_text(ids@[k as int] as int), scores@[k as int])));
        k = k + 1;
        assert(entries_view(entries@) =~= detail_entries(ids@, scores@).take(k as int));
    }
    assert(detail_entries(ids@, scores@).take(ids@.len() as int) =~= detail_entries(ids@, scores@));
    write_detail_json(&entries)
}

/// The score stored under `key` in entries `j..`: the first entry with that key.
pub open spec fn detail_lookup(d: Seq<(Seq<char>, i64)>, key: Seq<char>, j: int) -> Option<i64>
    decreases d.len() - j,
{
    if j < 0 || j >= d.len() {
        None
    } else if d[j].0 == key {
        Some(d[j].1)
    } else {
        detail_lookup(d, key, j + 1)
    }
}

/// The score of area `id` in a parsed detail.
pub open spec fn area_score_in(d: Seq<(Seq<char>, i64)>, id: i64) -> Option<i64> {
    detail_lookup(d, int_text(id as int), 0)
}

fn lookup_area(d: &Vec<(String, i64)>, id: i64) -> (r: Option<i64>)
    ensures
        r == area_score_in(entries_view(d@), id),
{
    let key = i64_text(id);
    let ghost dv = entries_view(d@);
    let mut j: usize = 0;
    while j < d.len()
        invariant
            j <= d@.len(),
            dv == entries_view(d@),
            key@ == int_text(id as int),
            detail_lookup(dv, key@, 0) == detail_lookup(dv, key@, j as int),
        decreases d@.len() - j,
    {
        let k = chars_of(d[j].0.as_str());
        if chars_equal(&k, &key) {
            return Some(d[j].1);
        }
        j = j + 1;
    }
    None
}

/// An area of the roster: its id and its name.
#[derive(Debug, Clone)]
pub struct AreaName {
    pub id: i64,
    pub name: String,
}

/// One application of the roster with its result, where it has one.
#[derive(Debug, Clone)]
pub struct RosterRow {
    pub round_id: i64,
    pub student_code: String,
    pub name: String,
    pub grade: Option<i64>,
    pub class_no: Option<i64>,
    pub seq_no: Option<i64>,
    pub is_enrolled: i64,
    pub univ_name: String,
    pub track_name: String,
    pub department_name: String,
    pub score_detail: Option<String>,
    pub total_score: Option<i64>,
    pub ranking: Option<i64>,
    pub track_rank: Option<i64>,
    pub recommended: Option<i64>,
    pub abandoned: i64,
    pub excluded: i64,
    pub excluded_reason: Option<String>,
}

/// The roster's columns: the round (on an all-round roster), fixed columns,
/// one per area, then the total and the marks.
pub open spec fn roster_headers(areas: Seq<AreaName>, with_round: bool) -> Seq<CellView> {
    (if with_round { seq![CellView::Text("라운드"@)] } else { Seq::empty() }) + seq![
        CellView::Text("대학 순위"@),
        CellView::Text("모집단위 순위"@),
        CellView::Text("대학"@),
        CellView::Text("모집단위"@),
        CellView::Text("지원학과"@),
        CellView::Text("학생명"@),
        CellView::Text("학생코드"@),
        CellView::Text("학년"@),
        CellView::Text("반"@),
        CellView::Text("번호"@),
        CellView::Text("재학구분"@),
    ] + areas.map_values(|a: AreaName| CellView::Text(a.name@)) + seq![
        CellView::Text("총점"@),
        CellView::Text("추천"@),
        CellView::Text("포기"@),
        CellView::Text("미선발여부"@),
        CellView::Text("미선발사유"@),
    ]
}

/// A text cell holding `s` where the flag is set, else an empty text cell.
pub open spec fn mark(flag: bool, s: Seq<char>) -> CellView {
    CellView::Text(if flag { s } else { Seq::empty() })
}

/// The score cell of an area: blank where there is no detail or the detail lacks the area.
pub open spec fn area_cell_of(detail: Option<Seq<(Seq<char>, i64)>>, a: AreaName) -> CellView {
    match detail {
        Some(d) => match area_score_in(d, a.id) {
            Some(v) => CellView::Score(v),
            None => CellView::Blank,
        },
        None => CellView::Blank,
    }
}

/// The cells of one application, given its parsed score detail.
pub open spec fn roster_cells(
    areas: Seq<AreaName>,
    r: RosterRow,
    detail: Option<Seq<(Seq<char>, i64)>>,
    with_round: bool,
) -> Seq<CellView> {
    (if with_round { seq![CellView::Int(r.round_id)] } else { Seq::empty() }) + seq![
        opt_int(r.ranking),
        opt_int(r.track_rank),
        CellView::Text(r.univ_name@),
        CellView::Text(r.track_name@),
        CellView::Text(r.department_name@),
        CellView::Text(r.name@),
        CellView::Text(r.student_code@),
        opt_int(r.grade),
        opt_int(r.class_no),
        opt_int(r.seq_no),
        CellView::Text(if r.is_enrolled == 1 { "재학"@ } else { "졸업"@ }),
    ] + areas.map_values(|a: AreaName| area_cell_of(detail, a)) + seq![
        match r.total_score {
            Some(t) => CellView::Score(t),
            None => CellView::Text("미계산"@),
        },
        mark(r.recommended == Some(1i64), "추천"@),
        mark(r.abandoned == 1, "포기"@),
        mark(r.excluded == 1, "미선발"@),
        CellView::Text(
            match r.excluded_reason {
                Some(s) => s@,
                None => Seq::empty(),
            },
        ),
    ]
}

/// The first area, from index `k` on, whose score the detail lacks.
pub open spec fn first_missing(areas: Seq<AreaName>, d: Seq<(Seq<char>, i64)>, k: int) -> Option<int>
    decreases areas.len() - k,
{
    if k < 0 || k >= areas.len() {
        None
    } else if area_score_in(d, areas[k].id) is None {
        Some(k)
    } else {
        first_missing(areas, d, k + 1)
    }
}

/// The message of a score detail that does not parse.
pub open spec fn detail_parse_message(code: Seq<char>, e: Seq<char>) -> Seq<char> {
    "학생코드 "@ + code + " score_detail JSON 파싱 실패: "@ + e
}

/// The message of an area score missing from a detail.
pub open spec fn missing_score_message(code: Seq<char>, area_id: i64) -> Seq<char> {
    "학생코드 "@ + code + " 전형요소 id="@ + int_text(area_id as int) + "의 점수가 없습니다. 점수 재계산이 필요합니다"@
}

/// The cells of one application, or why the roster cannot be made: its detail
/// does not parse, or (on a one-round roster) an area's score is missing from it.
pub open spec fn roster_row_outcome(areas: Seq<AreaName>, r: RosterRow, one_round: bool) -> Result<
    Seq<CellView>,
    Seq<char>,
> {
    let parsed: Result<Option<Seq<(Seq<char>, i64)>>, Seq<char>> = match r.score_detail {
        Some(j) => match score_detail_parse(j@) {
            Ok(d) => Ok(Some(d)),
            Err(e) => Err(detail_parse_message(r.student_code@, e)),
        },
        None => Ok(None),
    };
    match parsed {
        Err(m) => Err(m),
        Ok(detail) => match detail {
            Some(d) if one_round && first_missing(areas, d, 0) is Some => Err(
                missing_score_message(r.student_code@, areas[first_missing(areas, d, 0)->0].id),
            ),
            _ => Ok(roster_cells(areas, r, detail, !one_round)),
        },
    }
}

/// The roster of applications `0..n`: the header and their rows, or the first failure.
pub open spec fn roster_spec(areas: Seq<AreaName>, rows: Seq<RosterRow>, one_round: bool, n: int) -> Result<
    Seq<Seq<CellView>>,
    Seq<char>,
>
    decreases n,
{
    if n <= 0 {
        Ok(seq![roster_headers(areas, !one_round)])
    } else {
        match roster_spec(areas, rows, one_round, n - 1) {
            Err(m) => Err(m),
            Ok(g) => match roster_row_outcome(areas, rows[n - 1], one_round) {
                Err(m) => Err(m),
                Ok(c) => Ok(g.push(c)),
            },
        }
    }
}

fn roster_header_row(areas: &Vec<AreaName>, with_round: bool) -> (h: Vec<Cell>)
    ensures
        row_view(h) == roster_headers(areas@, with_round),
{
    let mut h: Vec<Cell> = Vec::new();
    if with_round {
        h.push(text_cell("라운드"));
    }
    let fixed = vec![
        text_cell("대학 순위"),
        text_cell("모집단위 순위"),
        text_cell("대학"),
        text_cell("모집단위"),
        text_cell("지원학과"),
        text_cell("학생명"),
        text_cell("학생코드"),
        text_cell("학년"),
        text_cell("반"),
        text_cell("번호"),
        text_cell("재학구분"),
    ];
    let mut fixed = fixed;
    h.append(&mut fixed);
    let ghost lead = row_view(h);
    assert(lead =~= (if with_round { seq![CellView::Text("라운드"@)] } else { Seq::<CellView>::empty() }) + seq![
        CellView::Text("대학 순위"@),
        CellView::Text("모집단위 순위"@),
        CellView::Text("대학"@),
        CellView::Text("모집단위"@),
        CellView::Text("지원학과"@),
        CellView::Text("학생명"@),
        CellView::Text("학생코드"@),
        CellView::Text("학년"@),
        CellView::Text("반"@),
        CellView::Text("번호"@),
        CellView::Text("재학구분"@),
    ]);
    let mut k: usize = 0;
    while k < areas.len()
        invariant
            k <= areas@.len(),
            row_view(h) == lead + areas@.take(k as int).map_values(|a: AreaName| CellView::Text(a.name@)),
        decreases areas@.len() - k,
    {
        let ghost before = row_view(h);
        h.push(Cell::Text(areas[k].name.clone()));
        assert(row_view(h) =~= before.push(CellView::Text(areas@[k as int].name@)));
        assert(areas@.take(k + 1) =~= areas@.take(k as int).push(areas@[k as int]));
        k = k + 1;
        assert(row_view(h) =~= lead + areas@.take(k as int).map_values(|a: AreaName| CellView::Text(a.name@)));
    }
    assert(areas@.take(areas@.len() as int) =~= areas@);
    let ghost mid = row_view(h);
    let mut tail = vec![text_cell("총점"), text_cell("추천"), text_cell("포기"), text_cell("미선발여부"), text_cell("미선발사유")];
    h.append(&mut tail);
    assert(row_view(h) =~= roster_headers(areas@, with_round));
    h
}

fn mark_cell(flag: bool, s: &str) -> (c: Cell)
    ensures
        c@ == mark(flag, s@),
{
    if flag {
        text_cell(s)
    } else {
        Cell::Text(String::new())
    }
}

/// The cells of one application, or the failure of its row.
fn roster_row(areas: &Vec<AreaName>, r: &RosterRow, one_round: bool) -> (out: Result<Vec<Cell>, String>)
    ensures
        match out {
            Ok(c) => roster_row_outcome(areas@, *r, one_round) == Ok::<Seq<CellView>, Seq<char>>(row_view(c)),
            Err(m) => roster_row_outcome(areas@, *r, one_round) == Err::<Seq<CellView>, Seq<char>>(m@),
        },
{
    let detail: Option<Vec<(String, i64)>> = match &r.score_detail {
        Some(j) => match parse_detail_json(j.as_str()) {
            Ok(d) => Some(d),
            Err(e) => {
                let mut m = chars_of("학생코드 ");
                append_str(&mut m, r.student_code.as_str());
                append_str(&mut m, " score_detail JSON 파싱 실패: ");
                append_str(&mut m, e.as_str());
                return Err(string_of(&m));
            },
        },
        None => None,
    };
    let ghost dv: Option<Seq<(Seq<char>, i64)>> = match &detail {
        Some(d) => Some(entries_view(d@)),
        None => None,
    };
    let mut c: Vec<Cell> = Vec::new();
    if !one_round {
        c.push(Cell::Int(r.round_id));
    }
    let mut fixed = vec![
        opt_int_cell(r.ranking),
        opt_int_cell(r.track_rank),
        Cell::Text(r.univ_name.clone()),
        Cell::Text(r.track_name.clone()),
        Cell::Text(r.department_name.clone()),
        Cell::Text(r.name.clone()),
        Cell::Text(r.student_code.clone()),
        opt_int_cell(r.grade),
        opt_int_cell(r.class_no),
        opt_int_cell(r.seq_no),
        if r.is_enrolled == 1 { text_cell("재학") } else { text_cell("졸업") },
    ];
    c.append(&mut fixed);
    let ghost lead = row_view(c);
    let mut k: usize = 0;
    while k < areas.len()
        invariant
            k <= areas@.len(),
            dv == (match detail {
                Some(d) => Some(entries_view(d@)),
                None => None::<Seq<(Seq<char>, i64)>>,
            }),
            row_view(c) == lead + areas@.take(k as int).map_values(|a: AreaName| area_cell_of(dv, a)),
            match dv {
                Some(d) => r.score_detail is Some && score_detail_parse(r.score_detail->0@) == Ok::<
                    Seq<(Seq<char>, i64)>,
                    Seq<char>,
                >(d),
                None => r.score_detail is None,
            },
            one_round && dv is Some ==> first_missing(areas@, dv->0, 0) == first_missing(areas@, dv->0, k as int),
        decreases areas@.len() - k,
    {
        let a = &areas[k];
        let cell = match &detail {
            Some(d) => match lookup_area(d, a.id) {
                Some(v) => Cell::Score(v),
                None => {
                    if one_round {
                        proof {
                            assert(first_missing(areas@, dv->0, k as int) == Some(k as int));
                        }
                        let mut m = chars_of("학생코드 ");
                        append_str(&mut m, r.student_code.as_str());
                        append_str(&mut m, " 전형요소 id=");
                        let idt = i64_text(a.id);
                        push_all(&mut m, &idt);
                        append_str(&mut m, "의 점수가 없습니다. 점수 재계산이 필요합니다");
                        proof {
                            assert(r.score_detail is Some);
                            assert(score_detail_parse(r.score_detail->0@) == Ok::<Seq<(Seq<char>, i64)>, Seq<char>>(dv->0));
                            assert(m@ =~= missing_score_message(r.student_code@, areas@[k as int].id));
                        }
                        return Err(string_of(&m));
                    }
                    Cell::Blank
                },
            },
            None => Cell::Blank,
        };
        assert(cell@ == area_cell_of(dv, areas@[k as int]));
        proof {
            if one_round && dv is Some {
                assert(area_score_in(dv->0, areas@[k as int].id) is Some);
            }
        }
        let ghost before = row_view(c);
        c.push(cell);
        assert(row_view(c) =~= before.push(area_cell_of(dv, areas@[k as int])));
        assert(areas@.take(k + 1) =~= areas@.take(k as int).push(areas@[k as int]));
        k = k + 1;
    }
    assert(areas@.take(areas@.len() as int) =~= areas@);
    let ghost mid = row_view(c);
    let total = match r.total_score {
        Some(t) => Cell::Score(t),
        None => text_cell("미계산"),
    };
    let reason = match &r.excluded_reason {
        Some(s) => Cell::Text(s.clone()),
        None => Cell::Text(String::new()),
    };
    let rec = match r.recommended {
        Some(v) => v == 1,
        None => false,
    };
    let mut tail = vec![
        total,
        mark_cell(rec, "추천"),
        mark_cell(r.abandoned == 1, "포기"),
        mark_cell(r.excluded == 1, "미선발"),
        reason,
    ];
    let ghost tail_v = row_view(tail);
    c.append(&mut tail);
    assert(row_view(c) =~= mid + tail_v);
    assert(mid =~= lead + areas@.map_values(|a: AreaName| area_cell_of(dv, a)));
    assert(row_view(c) =~= roster_cells(areas@, *r, dv, !one_round));
    Ok(c)
}

/// The roster sheet of the given applications: on a one-round roster the
/// round column is left out and every area score must be present in each
/// stored detail; on an all-round roster a missing score is a blank cell.
pub fn roster_grid(areas: &Vec<AreaName>, rows: &Vec<RosterRow>, one_round: bool) -> (out: Result<
    Vec<Vec<Cell>>,
    String,
>)
    ensures
        match out {
            Ok(g) => roster_spec(areas@, rows@, one_round, rows@.len() as int) == Ok::<
                Seq<Seq<CellView>>,
                Seq<char>,
            >(grid_view(g@)),
            Err(m) => roster_spec(areas@, rows@, one_round, rows@.len() as int) == Err::<
                Seq<Seq<CellView>>,
                Seq<char>,
            >(m@),
        },
{
    let h = roster_header_row(areas, !one_round);
    let mut g: Vec<Vec<Cell>> = vec![h];
    assert(grid_view(g@) =~= seq![roster_headers(areas@, !one_round)]);
    let mut i: usize = 0;
    while i < rows.len()
        invariant
            i <= rows@.len(),
            roster_spec(areas@, rows@, one_round, i as int) == Ok::<Seq<Seq<CellView>>, Seq<char>>(grid_view(g@)),
        decreases rows@.len() - i,
    {
        match roster_row(areas, &rows[i], one_round) {
            Ok(c) => {
                let ghost before = grid_view(g@);
                g.push(c);
                assert(grid_view(g@) =~= before.push(row_view(c)));
            },
            Err(m) => {
                assert(roster_spec(areas@, rows@, one_round, i + 1) == Err::<Seq<Seq<CellView>>, Seq<char>>(m@));
                let ghost n = rows@.len() as int;
                assert forall|k: int| i + 1 <= k <= n implies roster_spec(areas@, rows@, one_round, k) == Err::<
                    Seq<Seq<CellView>>,
                    Seq<char>,
                >(m@) by {
                    lemma_roster_err_stays(areas@, rows@, one_round, i + 1, k, m@);
                }
                return Err(m);
            },
        }
        i = i + 1;
    }
    Ok(g)
}

proof fn lemma_roster_err_stays(areas: Seq<AreaName>, rows: Seq<RosterRow>, one_round: bool, a: int, b: int, m: Seq<char>)
    requires
        0 <= a <= b,
        roster_spec(areas, rows, one_round, a) == Err::<Seq<Seq<CellView>>, Seq<char>>(m),
    ensures
        roster_spec(areas, rows, one_round, b) == Err::<Seq<Seq<CellView>>, Seq<char>>(m),
    decreases b - a,
{
    if a < b {
        lemma_roster_err_stays(areas, rows, one_round, a, b - 1, m);
    }
}

/// The head of the roster query, up to the rank window.
pub open spec fn roster_sql_head() -> Seq<char> {
    "WITH tr AS (\n             SELECT r.student_id, r.track_id, r.round_id, "@
}

/// The body of the roster query, from the rank window to its filters.
pub open spec fn roster_sql_body() -> Seq<char> {
    "\n             FROM results r\n             JOIN students s      ON s.id  = r.student_id\n             JOIN univ_tracks ut  ON ut.id = r.track_id\n         )\n         SELECT a.round_id,\n                s.student_code, s.name, s.grade, s.class_no, s.seq_no, s.is_enrolled,\n                u.univ_name, ut.track_name, COALESCE(a.department_name, '') AS department_name,\n                r.score_detail, r.total_score, r.ranking, tr.track_rank, r.recommended,\n                COALESCE(a.abandoned, 0) AS abandoned,\n                COALESCE(a.excluded, 0)  AS excluded, a.excluded_reason\n         FROM applications a\n         JOIN students s      ON s.id  = a.student_id\n         JOIN univ_tracks ut  ON ut.id = a.track_id\n         JOIN universities u  ON u.id  = ut.univ_id\n         LEFT JOIN results r  ON r.student_id = a.student_id\n                             AND r.track_id  = a.track_id\n                             AND r.round_id  = a.round_id\n         LEFT JOIN tr         ON tr.student_id = a.student_id\n                             AND tr.track_id  = a.track_id\n                             AND tr.round_id  = a.round_id\n         WHERE 1=1"@
}

/// The order of the roster: enrolled students first, then by code, round, university and track.
pub open spec fn roster_sql_order() -> Seq<char> {
    "\n         ORDER BY s.is_enrolled DESC, s.student_code, a.round_id, u.univ_name, ut.track_name"@
}

/// The roster query: applications with their results and track ranks (over
/// all rounds), filtered by round and by university where given.
pub open spec fn roster_sql_text(by_round: bool, by_univ: bool) -> Seq<char> {
    roster_sql_head() + crate::queries::rank_window_text("r"@, "ut"@, "s"@, true) + roster_sql_body()
        + (if by_round { " AND a.round_id = ?"@ } else { Seq::empty() })
        + (if by_univ { " AND ut.univ_id = ?"@ } else { Seq::empty() }) + roster_sql_order()
}

/// The roster query; its parameters are the round, then the university, where given.
pub fn roster_sql(by_round: bool, by_univ: bool) -> (q: String)
    ensures
        q@ == roster_sql_text(by_round, by_univ),
{
    let mut v = chars_of("WITH tr AS (\n             SELECT r.student_id, r.track_id, r.round_id, ");
    let w = crate::queries::track_rank_window("r", "ut", "s", true);
    append_str(&mut v, w.as_str());
    append_str(&mut v, "\n             FROM results r\n             JOIN students s      ON s.id  = r.student_id\n             JOIN univ_tracks ut  ON ut.id = r.track_id\n         )\n         SELECT a.round_id,\n                s.student_code, s.name, s.grade, s.class_no, s.seq_no, s.is_enrolled,\n                u.univ_name, ut.track_name, COALESCE(a.department_name, '') AS department_name,\n                r.score_detail, r.total_score, r.ranking, tr.track_rank, r.recommended,\n                COALESCE(a.abandoned, 0) AS abandoned,\n                COALESCE(a.excluded, 0)  AS excluded, a.excluded_reason\n         FROM applications a\n         JOIN students s      ON s.id  = a.student_id\n         JOIN univ_tracks ut  ON ut.id = a.track_id\n         JOIN universities u  ON u.id  = ut.univ_id\n         LEFT JOIN results r  ON r.student_id = a.student_id\n                             AND r.track_id  = a.track_id\n                             AND r.round_id  = a.round_id\n         LEFT JOIN tr         ON tr.student_id = a.student_id\n                             AND tr.track_id  = a.track_id\n                             AND tr.round_id  = a.round_id\n         WHERE 1=1");
    if by_round {
        append_str(&mut v, " AND a.round_id = ?");
    }
    if by_univ {
        append_str(&mut v, " AND ut.univ_id = ?");
    }
    append_str(&mut v, "\n         ORDER BY s.is_enrolled DESC, s.student_code, a.round_id, u.univ_name, ut.track_name");
    proof {
        assert(v@ =~= roster_sql_text(by_round, by_univ));
    }
    string_of(&v)
}

} // verus!
