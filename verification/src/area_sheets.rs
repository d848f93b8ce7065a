//! The sheets of an area's tables and base data: their upload templates and
//! their exports, laid out so that an export uploads back unchanged.
use vstd::prelude::*;
use crate::enums::CalcType;
use crate::grids::{row_view, grid_view, text_cell, Cell, CellView};
use crate::text::{append_str, chars_of, parse_i64, spec_parse_i64, string_of};

verus! {

/// A sheet holding only its header row.
pub fn header_grid(headers: &Vec<&str>) -> (g: Vec<Vec<Cell>>)
    ensures
        grid_view(g@) == seq![headers@.map_values(|s: &str| CellView::Text(s@))],
{
    let mut h: Vec<Cell> = Vec::new();
    let mut i: usize = 0;
    while i < headers.len()
        invariant
            i <= headers@.len(),
            row_view(h) == headers@.take(i as int).map_values(|s: &str| CellView::Text(s@)),
        decreases headers@.len() - i,
    {
        let ghost before = row_view(h);
        h.push(text_cell(headers[i]));
        assert(row_view(h) =~= before.push(CellView::Text(headers@[i as int]@)));
        assert(headers@.take(i + 1) =~= headers@.take(i as int).push(headers@[i as int]));
        i = i + 1;
    }
    assert(headers@.take(headers@.len() as int) =~= headers@);
    let g = vec![h];
    assert(grid_view(g@) =~= seq![headers@.map_values(|s: &str| CellView::Text(s@))]);
    g
}

/// One row of a range table export: a threshold and its score (fixed-point), with
/// the university and track names (empty for the shared table).
#[derive(Debug, Clone)]
pub struct ThresholdExportRow {
    pub threshold: i64,
    pub score: i64,
    pub univ_name: String,
    pub track_name: String,
}

/// One row of a category table export.
#[derive(Debug, Clone)]
pub struct CategoryExportRow {
    pub category: String,
    pub score: i64,
    pub univ_name: String,
    pub track_name: String,
}

/// The columns of a table export: the key, the score, and for a per-track area
/// the university and track names.
pub open spec fn table_headers(key: Seq<char>, composite: bool) -> Seq<CellView> {
    seq![CellView::Text(key), CellView::Text("점수"@)] + if composite {
        seq![CellView::Text("대학명"@), CellView::Text("모집단위명"@)]
    } else {
        Seq::empty()
    }
}

/// The track columns of a table row, where the area is per track.
pub open spec fn track_cells(composite: bool, univ: Seq<char>, track: Seq<char>) -> Seq<CellView> {
    if composite {
        seq![CellView::Text(univ), CellView::Text(track)]
    } else {
        Seq::empty()
    }
}

/// A range table export: thresholds and scores as scores, then the track columns.
pub open spec fn threshold_export_spec(composite: bool, rows: Seq<ThresholdExportRow>) -> Seq<Seq<CellView>> {
    seq![table_headers("기준값"@, composite)] + rows.map_values(
        |r: ThresholdExportRow|
            seq![CellView::Score(r.threshold), CellView::Score(r.score)] + track_cells(
                composite,
                r.univ_name@,
                r.track_name@,
            ),
    )
}

/// A category table export: categories as text, scores as scores, then the track columns.
pub open spec fn category_export_spec(composite: bool, rows: Seq<CategoryExportRow>) -> Seq<Seq<CellView>> {
    seq![table_headers("범주"@, composite)] + rows.map_values(
        |r: CategoryExportRow|
            seq![CellView::Text(r.category@), CellView::Score(r.score)] + track_cells(
                composite,
                r.univ_name@,
                r.track_name@,
            ),
    )
}

fn table_header_row(key: &str, composite: bool) -> (h: Vec<Cell>)
    ensures
        row_view(h) == table_headers(key@, composite),
{
    let mut h = vec![text_cell(key), text_cell("점수")];
    if composite {
        h.push(text_cell("대학명"));
        h.push(text_cell("모집단위명"));
    }
    assert(row_view(h) =~= table_headers(key@, composite));
    h
}

fn push_track_cells(c: &mut Vec<Cell>, composite: bool, univ: &String, track: &String)
    ensures
        row_view(*final(c)) == row_view(*old(c)) + track_cells(composite, univ@, track@),
{
    let ghost before = row_view(*c);
    if composite {
        c.push(Cell::Text(univ.clone()));
        c.push(Cell::Text(track.clone()));
    }
    assert(row_view(*c) =~= before + track_cells(composite, univ@, track@));
}

/// The export of a range table, in the given row order.
pub fn threshold_export_grid(composite: bool, rows: &Vec<ThresholdExportRow>) -> (g: Vec<Vec<Cell>>)
    ensures
        grid_view(g@) == threshold_export_spec(composite, rows@),
{
    let mut g: Vec<Vec<Cell>> = vec![table_header_row("기준값", composite)];
    let mut i: usize = 0;
    while i < rows.len()
        invariant
            i <= rows@.len(),
            grid_view(g@) == threshold_export_spec(composite, rows@.take(i as int)),
        decreases rows@.len() - i,
    {
        let r = &rows[i];
        let mut c = vec![Cell::Score(r.threshold), Cell::Score(r.score)];
        assert(row_view(c) =~= seq![CellView::Score(r.threshold), CellView::Score(r.score)]);
        push_track_cells(&mut c, composite, &r.univ_name, &r.track_name);
        let ghost before = grid_view(g@);
        g.push(c);
        assert(grid_view(g@) =~= before.push(
            seq![CellView::Score(r.threshold), CellView::Score(r.score)] + track_cells(
                composite,
                r.univ_name@,
                r.track_name@,
            ),
        ));
        assert(rows@.take(i + 1) =~= rows@.take(i as int).push(rows@[i as int]));
        i = i + 1;
        assert(grid_view(g@) =~= threshold_export_spec(composite, rows@.take(i as int)));
    }
    assert(rows@.take(rows@.len() as int) =~= rows@);
    g
}

/// The export of a category table, in the given row order.
pub fn category_export_grid(composite: bool, rows: &Vec<CategoryExportRow>) -> (g: Vec<Vec<Cell>>)
    ensures
        grid_view(g@) == category_export_spec(composite, rows@),
{
    let mut g: Vec<Vec<Cell>> = vec![table_header_row("범주", composite)];
    let mut i: usize = 0;
    while i < rows.len()
        invariant
            i <= rows@.len(),
            grid_view(g@) == category_export_spec(composite, rows@.take(i as int)),
        decreases rows@.len() - i,
    {
        let r = &rows[i];
        let mut c = vec![Cell::Text(r.category.clone()), Cell::Score(r.score)];
        assert(row_view(c) =~= seq![CellView::Text(r.category@), CellView::Score(r.score)]);
        push_track_cells(&mut c, composite, &r.univ_name, &r.track_name);
        let ghost before = grid_view(g@);
        g.push(c);
        assert(grid_view(g@) =~= before.push(
            seq![CellView::Text(r.category@), CellView::Score(r.score)] + track_cells(
                composite,
                r.univ_name@,
                r.track_name@,
            ),
        ));
        assert(rows@.take(i + 1) =~= rows@.take(i as int).push(rows@[i as int]));
        i = i + 1;
        assert(grid_view(g@) =~= category_export_spec(composite, rows@.take(i as int)));
    }
    assert(rows@.take(rows@.len() as int) =~= rows@);
    g
}

// ── base data ─────────────────────────────────────────────────────

/// A graduate as pre-filled in the base data template.
#[derive(Debug, Clone)]
pub struct GraduateName {
    pub student_code: String,
    pub name: String,
}

/// A track as pre-filled in the base data template.
#[derive(Debug, Clone)]
pub struct TrackName {
    pub univ_name: String,
    pub track_name: String,
}

/// The columns of the enrolled-student base data sheet.
pub open spec fn enrolled_base_headers(composite: bool) -> Seq<CellView> {
    seq![
        CellView::Text("학년"@),
        CellView::Text("반"@),
        CellView::Text("번호"@),
        CellView::Text("이름"@),
        CellView::Text("값"@),
    ] + track_cells(composite, "대학명"@, "모집단위명"@)
}

/// The columns of the graduate base data sheet.
pub open spec fn graduated_base_headers(composite: bool) -> Seq<CellView> {
    seq![CellView::Text("학생코드"@), CellView::Text("이름"@), CellView::Text("값"@)] + track_cells(
        composite,
        "대학명"@,
        "모집단위명"@,
    )
}

/// A pre-filled graduate row: code and name, the value left blank, and the track.
pub open spec fn graduate_row(g: GraduateName, composite: bool, univ: Seq<char>, track: Seq<char>) -> Seq<CellView> {
    seq![CellView::Text(g.student_code@), CellView::Text(g.name@), CellView::Blank] + track_cells(
        composite,
        univ,
        track,
    )
}

/// The rows of graduates `0..n`: one per track for a per-track area, else one each.
pub open spec fn graduate_rows(grads: Seq<GraduateName>, tracks: Seq<TrackName>, composite: bool, n: int) -> Seq<
    Seq<CellView>,
>
    decreases n,
{
    if n <= 0 {
        Seq::empty()
    } else {
        graduate_rows(grads, tracks, composite, n - 1) + if composite {
            tracks.map_values(|t: TrackName| graduate_row(grads[n - 1], true, t.univ_name@, t.track_name@))
        } else {
            seq![graduate_row(grads[n - 1], false, Seq::empty(), Seq::empty())]
        }
    }
}

/// The base data template: an empty sheet for enrolled students; for graduates
/// every graduate (with every track, for a per-track area) with the value left blank.
pub open spec fn base_template_spec(
    enrolled: bool,
    composite: bool,
    grads: Seq<GraduateName>,
    tracks: Seq<TrackName>,
) -> Seq<Seq<CellView>> {
    if enrolled {
        seq![enrolled_base_headers(composite)]
    } else {
        seq![graduated_base_headers(composite)] + graduate_rows(grads, tracks, composite, grads.len() as int)
    }
}

fn base_header_row(enrolled: bool, composite: bool) -> (h: Vec<Cell>)
    ensures
        row_view(h) == if enrolled { enrolled_base_headers(composite) } else { graduated_base_headers(composite) },
{
    let mut h = if enrolled {
        vec![text_cell("학년"), text_cell("반"), text_cell("번호"), text_cell("이름"), text_cell("값")]
    } else {
        vec![text_cell("학생코드"), text_cell("이름"), text_cell("값")]
    };
    if composite {
        h.push(text_cell("대학명"));
        h.push(text_cell("모집단위명"));
    }
    assert(row_view(h) =~= if enrolled { enrolled_base_headers(composite) } else { graduated_base_headers(composite) });
    h
}

/// The base data upload template.
pub fn base_template_grid(
    enrolled: bool,
    composite: bool,
    grads: &Vec<GraduateName>,
    tracks: &Vec<TrackName>,
) -> (g: Vec<Vec<Cell>>)
    ensures
        grid_view(g@) == base_template_spec(enrolled, composite, grads@, tracks@),
{
    let mut g: Vec<Vec<Cell>> = vec![base_header_row(enrolled, composite)];
    if enrolled {
        assert(grid_view(g@) =~= base_template_spec(enrolled, composite, grads@, tracks@));
        return g;
    }
    let ghost head = grid_view(g@);
    let mut i: usize = 0;
    while i < grads.len()
        invariant
            i <= grads@.len(),
            !enrolled,
            head == seq![graduated_base_headers(composite)],
            grid_view(g@) == head + graduate_rows(grads@, tracks@, composite, i as int),
        decreases grads@.len() - i,
    {
        let gr = &grads[i];
        let ghost base = grid_view(g@);
        if composite {
            let mut j: usize = 0;
            while j < tracks.len()
                invariant
                    j <= tracks@.len(),
                    composite,
                    *gr == grads@[i as int],
                    grid_view(g@) == base + tracks@.take(j as int).map_values(
                        |t: TrackName| graduate_row(grads@[i as int], true, t.univ_name@, t.track_name@),
                    ),
                decreases tracks@.len() - j,
            {
                let t = &tracks[j];
                let c = vec![
                    Cell::Text(gr.student_code.clone()),
                    Cell::Text(gr.name.clone()),
                    Cell::Blank,
                    Cell::Text(t.univ_name.clone()),
                    Cell::Text(t.track_name.clone()),
                ];
                assert(row_view(c) =~= graduate_row(grads@[i as int], true, tracks@[j as int].univ_name@, tracks@[j as int].track_name@));
                let ghost before = grid_view(g@);
                g.push(c);
                assert(grid_view(g@) =~= before.push(graduate_row(grads@[i as int], true, tracks@[j as int].univ_name@, tracks@[j as int].track_name@)));
                assert(tracks@.take(j + 1) =~= tracks@.take(j as int).push(tracks@[j as int]));
                j = j + 1;
                assert(grid_view(g@) =~= base + tracks@.take(j as int).map_values(
                    |t: TrackName| graduate_row(grads@[i as int], true, t.univ_name@, t.track_name@),
                ));
            }
            assert(tracks@.take(tracks@.len() as int) =~= tracks@);
        } else {
            let c = vec![Cell::Text(gr.student_code.clone()), Cell::Text(gr.name.clone()), Cell::Blank];
            assert(row_view(c) =~= graduate_row(grads@[i as int], false, Seq::empty(), Seq::empty()));
            g.push(c);
            assert(grid_view(g@) =~= base.push(graduate_row(grads@[i as int], false, Seq::empty(), Seq::empty())));
        }
        i = i + 1;
        assert(grid_view(g@) =~= head + graduate_rows(grads@, tracks@, composite, i as int));
    }
    g
}

/// One stored base data value with its student and track.
#[derive(Debug, Clone)]
pub struct BaseDataExportRow {
    pub student_code: String,
    pub name: String,
    pub grade: Option<i64>,
    pub class_no: Option<i64>,
    pub seq_no: Option<i64>,
    pub value: String,
    pub univ_name: String,
    pub track_name: String,
}

/// The cell of a stored value: numeric and manual values that read as whole
/// numbers are scores; any other value is text.
pub open spec fn value_cell_spec(value: Seq<char>, calc_type: CalcType) -> CellView {
    match calc_type {
        CalcType::Category => CellView::Text(value),
        _ => match spec_parse_i64(value) {
            Some(v) => CellView::Score(v),
            None => CellView::Text(value),
        },
    }
}

/// The cell of a stored value.
pub fn value_cell(value: &String, calc_type: CalcType) -> (c: Cell)
    ensures
        c@ == value_cell_spec(value@, calc_type),
{
    match calc_type {
        CalcType::Category => Cell::Text(value.clone()),
        _ => match parse_i64(&chars_of(value.as_str())) {
            Some(v) => Cell::Score(v),
            None => Cell::Text(value.clone()),
        },
    }
}

/// The position column that an enrolled student's row lacks, if any.
pub open spec fn missing_position(r: BaseDataExportRow) -> Option<Seq<char>> {
    if r.grade is None {
        Some("grade"@)
    } else if r.class_no is None {
        Some("class_no"@)
    } else if r.seq_no is None {
        Some("seq_no"@)
    } else {
        None
    }
}

/// One row of the base data export.
pub open spec fn base_export_cells(r: BaseDataExportRow, enrolled: bool, composite: bool, calc_type: CalcType) -> Seq<
    CellView,
> {
    (if enrolled {
        seq![CellView::Int(r.grade->0), CellView::Int(r.class_no->0), CellView::Int(r.seq_no->0)]
    } else {
        seq![CellView::Text(r.student_code@)]
    }) + seq![CellView::Text(r.name@), value_cell_spec(r.value@, calc_type)] + track_cells(
        composite,
        r.univ_name@,
        r.track_name@,
    )
}

/// The message of an enrolled student without a full position.
pub open spec fn missing_position_message(key: Seq<char>, code: Seq<char>) -> Seq<char> {
    "재학생 위치("@ + key + ") 누락: 학생코드 '"@ + code + "'"@
}

/// The base data export of rows `0..n`, or the first enrolled row that lacks
/// its grade, class or number.
pub open spec fn base_export_spec(
    rows: Seq<BaseDataExportRow>,
    enrolled: bool,
    composite: bool,
    calc_type: CalcType,
    n: int,
) -> Result<Seq<Seq<CellView>>, Seq<char>>
    decreases n,
{
    if n <= 0 {
        Ok(
            seq![
                if enrolled {
                    enrolled_base_headers(composite)
                } else {
                    graduated_base_headers(composite)
                },
            ],
        )
    } else {
        match base_export_spec(rows, enrolled, composite, calc_type, n - 1) {
            Err(m) => Err(m),
            Ok(g) => {
                let r = rows[n - 1];
                if enrolled && missing_position(r) is Some {
                    Err(missing_position_message(missing_position(r)->0, r.student_code@))
                } else {
                    Ok(g.push(base_export_cells(r, enrolled, composite, calc_type)))
                }
            },
        }
    }
}

proof fn lemma_base_export_err_stays(
    rows: Seq<BaseDataExportRow>,
    enrolled: bool,
    composite: bool,
    calc_type: CalcType,
    a: int,
    b: int,
    m: Seq<char>,
)
    requires
        0 <= a <= b,
        base_export_spec(rows, enrolled, composite, calc_type, a) == Err::<Seq<Seq<CellView>>, Seq<char>>(m),
    ensures
        base_export_spec(rows, enrolled, composite, calc_type, b) == Err::<Seq<Seq<CellView>>, Seq<char>>(m),
    decreases b - a,
{
    if a < b {
        lemma_base_export_err_stays(rows, enrolled, composite, calc_type, a, b - 1, m);
    }
}

fn position_message(key: &str, code: &String) -> (m: String)
    ensures
        m@ == missing_position_message(key@, code@),
{
    let mut v = chars_of("재학생 위치(");
    append_str(&mut v, key);
    append_str(&mut v, ") 누락: 학생코드 '");
    append_str(&mut v, code.as_str());
    append_str(&mut v, "'");
    string_of(&v)
}

/// The base data export of one student type, in the given row order; an
/// enrolled student's row must carry the grade, class and number.
pub fn base_export_grid(
    rows: &Vec<BaseDataExportRow>,
    enrolled: bool,
    composite: bool,
    calc_type: CalcType,
) -> (out: Result<Vec<Vec<Cell>>, String>)
    ensures
        match out {
            Ok(g) => base_export_spec(rows@, enrolled, composite, calc_type, rows@.len() as int) == Ok::<
                Seq<Seq<CellView>>,
                Seq<char>,
            >(grid_view(g@)),
            Err(m) => base_export_spec(rows@, enrolled, composite, calc_type, rows@.len() as int) == Err::<
                Seq<Seq<CellView>>,
                Seq<char>,
            >(m@),
        },
{
    let mut g: Vec<Vec<Cell>> = vec![base_header_row(enrolled, composite)];
    assert(grid_view(g@) =~= base_export_spec(rows@, enrolled, composite, calc_type, 0)->Ok_0);
    let mut i: usize = 0;
    while i < rows.len()
        invariant
            i <= rows@.len(),
            base_export_spec(rows@, enrolled, composite, calc_type, i as int) == Ok::<
                Seq<Seq<CellView>>,
                Seq<char>,
            >(grid_view(g@)),
        decreases rows@.len() - i,
    {
        let r = &rows[i];
        let mut c: Vec<Cell> = Vec::new();
        if enrolled {
            let missing: Option<&str> = if r.grade.is_none() {
                Some("grade")
            } else if r.class_no.is_none() {
                Some("class_no")
            } else if r.seq_no.is_none() {
                Some("seq_no")
            } else {
                None
            };
            if let Some(key) = missing {
                let m = position_message(key, &r.student_code);
                proof {
                    reveal_strlit("grade");
                    reveal_strlit("class_no");
                    reveal_strlit("seq_no");
                    assert(missing_position(rows@[i as int]) == Some(key@));
                    lemma_base_export_err_stays(
                        rows@,
                        enrolled,
                        composite,
                        calc_type,
                        i + 1,
                        rows@.len() as int,
                        m@,
                    );
                }
                return Err(m);
            }
            c.push(Cell::Int(r.grade.unwrap()));
            c.push(Cell::Int(r.class_no.unwrap()));
            c.push(Cell::Int(r.seq_no.unwrap()));
        } else {
            c.push(Cell::Text(r.student_code.clone()));
        }
        c.push(Cell::Text(r.name.clone()));
        c.push(value_cell(&r.value, calc_type));
        push_track_cells(&mut c, composite, &r.univ_name, &r.track_name);
        assert(row_view(c) =~= base_export_cells(rows@[i as int], enrolled, composite, calc_type));
        let ghost before = grid_view(g@);
        g.push(c);
        assert(grid_view(g@) =~= before.push(base_export_cells(rows@[i as int], enrolled, composite, calc_type)));
        i = i + 1;
    }
    Ok(g)
}

} // verus!
