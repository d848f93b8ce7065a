//! The cell grids of the spreadsheets the manager hands out: upload
//! templates and exports. Row 0 is the header; each later row is one
//! record. A blank cell is left empty in the sheet.
use vstd::prelude::*;
use crate::roster::StudentRow;
use crate::universities::{QuotaStatsResponse, RoundCount, TrackStat, UnivStat};
use crate::text::{append_str, i64_text, int_text, string_of};

verus! {

/// One spreadsheet cell: text, a whole number, a fixed-point score
/// (hundred-thousandths), or nothing.
#[derive(Debug, Clone, PartialEq, Eq)]
pub enum Cell {
    Text(String),
    Int(i64),
    Score(i64),
    Blank,
}

/// A cell as a plain value.
pub enum CellView {
    Text(Seq<char>),
    Int(i64),
    Score(i64),
    Blank,
}

impl View for Cell {
    type V = CellView;

    open spec fn view(&self) -> CellView {
        match self {
            Cell::Text(s) => CellView::Text(s@),
            Cell::Int(v) => CellView::Int(*v),
            Cell::Score(v) => CellView::Score(*v),
            Cell::Blank => CellView::Blank,
        }
    }
}

/// A row of cells as plain values.
pub open spec fn row_view(r: Vec<Cell>) -> Seq<CellView> {
    r@.map_values(|c: Cell| c@)
}

/// A grid as plain values.
pub open spec fn grid_view(g: Seq<Vec<Cell>>) -> Seq<Seq<CellView>> {
    g.map_values(|r: Vec<Cell>| row_view(r))
}

/// A number cell, or a blank one where there is no number.
pub open spec fn opt_int(v: Option<i64>) -> CellView {
    match v {
        Some(x) => CellView::Int(x),
        None => CellView::Blank,
    }
}

/// A text cell.
pub fn text_cell(s: &str) -> (c: Cell)
    ensures
        c@ == CellView::Text(s@),
{
    Cell::Text(s.to_owned())
}

/// A number cell, or a blank one.
pub fn opt_int_cell(v: Option<i64>) -> (c: Cell)
    ensures
        c@ == opt_int(v),
{
    match v {
        Some(x) => Cell::Int(x),
        None => Cell::Blank,
    }
}

/// A row of text cells.
pub fn text_row(items: &[&str]) -> (r: Vec<Cell>)
    ensures
        row_view(r) == items@.map_values(|s: &str| CellView::Text(s@)),
{
    let mut r: Vec<Cell> = Vec::new();
    let mut i: usize = 0;
    while i < items.len()
        invariant
            i <= items@.len(),
            row_view(r) == items@.take(i as int).map_values(|s: &str| CellView::Text(s@)),
        decreases items@.len() - i,
    {
        let ghost before = row_view(r);
        r.push(text_cell(items[i]));
        assert(row_view(r) =~= before.push(CellView::Text(items@[i as int]@)));
        assert(items@.take(i + 1) =~= items@.take(i as int).push(items@[i as int]));
        i = i + 1;
        assert(row_view(r) =~= items@.take(i as int).map_values(|s: &str| CellView::Text(s@)));
    }
    assert(items@.take(items@.len() as int) =~= items@);
    r
}

// ── students ──────────────────────────────────────────────────────

/// The columns of the student roster sheet.
pub open spec fn student_headers() -> Seq<CellView> {
    seq![
        CellView::Text("학생코드"@),
        CellView::Text("이름"@),
        CellView::Text("재학여부"@),
        CellView::Text("학년"@),
        CellView::Text("반"@),
        CellView::Text("번호"@),
        CellView::Text("졸업연도"@),
    ]
}

fn student_header_row() -> (r: Vec<Cell>)
    ensures
        row_view(r) == student_headers(),
{
    let r = vec![
        text_cell("학생코드"),
        text_cell("이름"),
        text_cell("재학여부"),
        text_cell("학년"),
        text_cell("반"),
        text_cell("번호"),
        text_cell("졸업연도"),
    ];
    assert(row_view(r) =~= student_headers());
    r
}

/// The student upload template: the header, a sample enrolled student and
/// a sample graduate.
pub open spec fn student_template_spec() -> Seq<Seq<CellView>> {
    seq![
        student_headers(),
        seq![
            CellView::Text("20250001"@),
            CellView::Text("홍길동"@),
            CellView::Int(1),
            CellView::Int(1),
            CellView::Int(1),
            CellView::Int(1),
            CellView::Blank,
        ],
        seq![
            CellView::Text("20240001"@),
            CellView::Text("김철수"@),
            CellView::Int(0),
            CellView::Blank,
            CellView::Blank,
            CellView::Blank,
            CellView::Int(2024),
        ],
    ]
}

/// The student upload template.
pub fn student_template_grid() -> (g: Vec<Vec<Cell>>)
    ensures
        grid_view(g@) == student_template_spec(),
{
    let h = student_header_row();
    let a = vec![
        text_cell("20250001"),
        text_cell("홍길동"),
        Cell::Int(1),
        Cell::Int(1),
        Cell::Int(1),
        Cell::Int(1),
        Cell::Blank,
    ];
    let b = vec![
        text_cell("20240001"),
        text_cell("김철수"),
        Cell::Int(0),
        Cell::Blank,
        Cell::Blank,
        Cell::Blank,
        Cell::Int(2024),
    ];
    assert(row_view(a) =~= student_template_spec()[1]);
    assert(row_view(b) =~= student_template_spec()[2]);
    let g = vec![h, a, b];
    assert(grid_view(g@) =~= student_template_spec());
    g
}

/// One student of the roster export.
pub open spec fn student_cells(s: StudentRow) -> Seq<CellView> {
    seq![
        CellView::Text(s.student_code@),
        CellView::Text(s.name@),
        CellView::Int(if s.is_enrolled { 1 } else { 0 }),
        opt_int(s.grade),
        opt_int(s.class_no),
        opt_int(s.seq_no),
        opt_int(s.grad_year),
    ]
}

/// The roster export: the header, then one row per student in the given order.
pub open spec fn student_export_spec(rows: Seq<StudentRow>) -> Seq<Seq<CellView>> {
    seq![student_headers()] + rows.map_values(|s: StudentRow| student_cells(s))
}

/// The roster export of all students.
pub fn student_export_grid(rows: &Vec<StudentRow>) -> (g: Vec<Vec<Cell>>)
    ensures
        grid_view(g@) == student_export_spec(rows@),
{
    let mut g: Vec<Vec<Cell>> = vec![student_header_row()];
    let mut i: usize = 0;
    while i < rows.len()
        invariant
            i <= rows@.len(),
            grid_view(g@) == student_export_spec(rows@.take(i as int)),
        decreases rows@.len() - i,
    {
        let s = &rows[i];
        let r = vec![
            Cell::Text(s.student_code.clone()),
            Cell::Text(s.name.clone()),
            Cell::Int(if s.is_enrolled { 1 } else { 0 }),
            opt_int_cell(s.grade),
            opt_int_cell(s.class_no),
            opt_int_cell(s.seq_no),
            opt_int_cell(s.grad_year),
        ];
        assert(row_view(r) =~= student_cells(rows@[i as int]));
        let ghost before = grid_view(g@);
        g.push(r);
        assert(grid_view(g@) =~= before.push(student_cells(rows@[i as int])));
        assert(rows@.take(i + 1) =~= rows@.take(i as int).push(rows@[i as int]));
        i = i + 1;
        assert(grid_view(g@) =~= student_export_spec(rows@.take(i as int)));
    }
    assert(rows@.take(rows@.len() as int) =~= rows@);
    g
}

/// The columns of the enrolled-student upload template (codes are assigned on upload).
pub open spec fn enrolled_import_headers() -> Seq<CellView> {
    seq![
        CellView::Text("학년"@),
        CellView::Text("반"@),
        CellView::Text("번호"@),
        CellView::Text("이름"@),
    ]
}

/// The columns of the enrolled-student export.
pub open spec fn enrolled_export_headers() -> Seq<CellView> {
    seq![
        CellView::Text("학생코드"@),
        CellView::Text("이름"@),
        CellView::Text("학년"@),
        CellView::Text("반"@),
        CellView::Text("번호"@),
    ]
}

/// The columns of the graduate template and export.
pub open spec fn graduated_headers() -> Seq<CellView> {
    seq![CellView::Text("학생코드"@), CellView::Text("이름"@), CellView::Text("졸업연도"@)]
}

/// The enrolled-student upload template: the header and one sample row.
pub open spec fn enrolled_template_spec() -> Seq<Seq<CellView>> {
    seq![
        enrolled_import_headers(),
        seq![CellView::Int(3), CellView::Int(1), CellView::Int(1), CellView::Text("홍길동"@)],
    ]
}

/// The enrolled-student upload template.
pub fn enrolled_template_grid() -> (g: Vec<Vec<Cell>>)
    ensures
        grid_view(g@) == enrolled_template_spec(),
{
    let h = vec![text_cell("학년"), text_cell("반"), text_cell("번호"), text_cell("이름")];
    let a = vec![Cell::Int(3), Cell::Int(1), Cell::Int(1), text_cell("홍길동")];
    assert(row_view(h) =~= enrolled_import_headers());
    assert(row_view(a) =~= enrolled_template_spec()[1]);
    let g = vec![h, a];
    assert(grid_view(g@) =~= enrolled_template_spec());
    g
}

/// One enrolled student of the export.
pub open spec fn enrolled_cells(s: StudentRow) -> Seq<CellView> {
    seq![
        CellView::Text(s.student_code@),
        CellView::Text(s.name@),
        opt_int(s.grade),
        opt_int(s.class_no),
        opt_int(s.seq_no),
    ]
}

/// The enrolled-student export: the header, then one row per student.
pub open spec fn enrolled_export_spec(rows: Seq<StudentRow>) -> Seq<Seq<CellView>> {
    seq![enrolled_export_headers()] + rows.map_values(|s: StudentRow| enrolled_cells(s))
}

/// The enrolled-student export.
pub fn enrolled_export_grid(rows: &Vec<StudentRow>) -> (g: Vec<Vec<Cell>>)
    ensures
        grid_view(g@) == enrolled_export_spec(rows@),
{
    let h = vec![
        text_cell("학생코드"),
        text_cell("이름"),
        text_cell("학년"),
        text_cell("반"),
        text_cell("번호"),
    ];
    assert(row_view(h) =~= enrolled_export_headers());
    let mut g: Vec<Vec<Cell>> = vec![h];
    let mut i: usize = 0;
    while i < rows.len()
        invariant
            i <= rows@.len(),
            grid_view(g@) == enrolled_export_spec(rows@.take(i as int)),
        decreases rows@.len() - i,
    {
        let s = &rows[i];
        let r = vec![
            Cell::Text(s.student_code.clone()),
            Cell::Text(s.name.clone()),
            opt_int_cell(s.grade),
            opt_int_cell(s.class_no),
            opt_int_cell(s.seq_no),
        ];
        assert(row_view(r) =~= enrolled_cells(rows@[i as int]));
        let ghost before = grid_view(g@);
        g.push(r);
        assert(grid_view(g@) =~= before.push(enrolled_cells(rows@[i as int])));
        assert(rows@.take(i + 1) =~= rows@.take(i as int).push(rows@[i as int]));
        i = i + 1;
        assert(grid_view(g@) =~= enrolled_export_spec(rows@.take(i as int)));
    }
    assert(rows@.take(rows@.len() as int) =~= rows@);
    g
}

/// The graduate upload template: the header and one sample row.
pub open spec fn graduated_template_spec() -> Seq<Seq<CellView>> {
    seq![
        graduated_headers(),
        seq![CellView::Text("20240001"@), CellView::Text("김철수"@), CellView::Int(2024)],
    ]
}

fn graduated_header_row() -> (r: Vec<Cell>)
    ensures
        row_view(r) == graduated_headers(),
{
    let r = vec![text_cell("학생코드"), text_cell("이름"), text_cell("졸업연도")];
    assert(row_view(r) =~= graduated_headers());
    r
}

/// The graduate upload template.
pub fn graduated_template_grid() -> (g: Vec<Vec<Cell>>)
    ensures
        grid_view(g@) == graduated_template_spec(),
{
    let h = graduated_header_row();
    let a = vec![text_cell("20240001"), text_cell("김철수"), Cell::Int(2024)];
    assert(row_view(a) =~= graduated_template_spec()[1]);
    let g = vec![h, a];
    assert(grid_view(g@) =~= graduated_template_spec());
    g
}

/// One graduate of the export.
pub open spec fn graduated_cells(s: StudentRow) -> Seq<CellView> {
    seq![CellView::Text(s.student_code@), CellView::Text(s.name@), opt_int(s.grad_year)]
}

/// The graduate export: the header, then one row per graduate.
pub open spec fn graduated_export_spec(rows: Seq<StudentRow>) -> Seq<Seq<CellView>> {
    seq![graduated_headers()] + rows.map_values(|s: StudentRow| graduated_cells(s))
}

/// The graduate export.
pub fn graduated_export_grid(rows: &Vec<StudentRow>) -> (g: Vec<Vec<Cell>>)
    ensures
        grid_view(g@) == graduated_export_spec(rows@),
{
    let mut g: Vec<Vec<Cell>> = vec![graduated_header_row()];
    let mut i: usize = 0;
    while i < rows.len()
        invariant
            i <= rows@.len(),
            grid_view(g@) == graduated_export_spec(rows@.take(i as int)),
        decreases rows@.len() - i,
    {
        let s = &rows[i];
        let r = vec![Cell::Text(s.student_code.clone()), Cell::Text(s.name.clone()), opt_int_cell(s.grad_year)];
        assert(row_view(r) =~= graduated_cells(rows@[i as int]));
        let ghost before = grid_view(g@);
        g.push(r);
        assert(grid_view(g@) =~= before.push(graduated_cells(rows@[i as int])));
        assert(rows@.take(i + 1) =~= rows@.take(i as int).push(rows@[i as int]));
        i = i + 1;
        assert(grid_view(g@) =~= graduated_export_spec(rows@.take(i as int)));
    }
    assert(rows@.take(rows@.len() as int) =~= rows@);
    g
}

// ── round summary ─────────────────────────────────────────────────

/// One track in the summary of a round: its quotas and the counts of the round.
#[derive(Debug, Clone)]
pub struct RoundSummaryRow {
    pub univ_name: String,
    pub track_name: String,
    pub unit_quota: Option<i64>,
    pub applied_count: i64,
    pub abandoned_count: i64,
    pub before_count: i64,
    pub this_count: i64,
    pub total_quota: Option<i64>,
    pub univ_before_count: i64,
    pub univ_this_count: i64,
}

/// `x`, or 0 where `x` is negative.
pub open spec fn max0(x: int) -> int {
    if x < 0 { 0 } else { x }
}

/// The remaining seats can be counted in 64 bits.
pub open spec fn summary_fits(r: RoundSummaryRow) -> bool {
    &&& (r.unit_quota matches Some(q) ==> {
        &&& i64::MIN <= q - r.before_count <= i64::MAX
        &&& i64::MIN <= q - r.before_count - r.this_count <= i64::MAX
    })
    &&& (r.total_quota matches Some(q) ==> {
        &&& i64::MIN <= q - r.univ_before_count <= i64::MAX
        &&& i64::MIN <= q - r.univ_before_count - r.univ_this_count <= i64::MAX
    })
}

/// The columns of the round summary.
pub open spec fn summary_headers() -> Seq<CellView> {
    seq![
        CellView::Text("대학"@),
        CellView::Text("모집단위"@),
        CellView::Text("모집단위 정원"@),
        CellView::Text("지원 인원"@),
        CellView::Text("추천 인원"@),
        CellView::Text("포기 인원"@),
        CellView::Text("모집단위 라운드 전 잔여석"@),
        CellView::Text("모집단위 남은 잔여석"@),
        CellView::Text("대학 전체 정원"@),
        CellView::Text("대학 라운드 전 잔여석"@),
        CellView::Text("대학 남은 잔여석"@),
    ]
}

/// The cell of an unlimited quota.
pub open spec fn unlimited() -> CellView {
    CellView::Text("무제한"@)
}

/// A quota, its seats left before the round and after it.
pub open spec fn quota_cells(quota: Option<i64>, before: i64, this: i64) -> Seq<CellView> {
    match quota {
        Some(q) => seq![
            CellView::Int(q),
            CellView::Int(max0(q - before) as i64),
            CellView::Int(max0(q - before - this) as i64),
        ],
        None => seq![unlimited(), unlimited(), unlimited()],
    }
}

/// One track of the round summary.
pub open spec fn summary_cells(r: RoundSummaryRow) -> Seq<CellView> {
    let unit = quota_cells(r.unit_quota, r.before_count, r.this_count);
    let univ = quota_cells(r.total_quota, r.univ_before_count, r.univ_this_count);
    seq![
        CellView::Text(r.univ_name@),
        CellView::Text(r.track_name@),
        unit[0],
        CellView::Int(r.applied_count),
        CellView::Int(r.this_count),
        CellView::Int(r.abandoned_count),
        unit[1],
        unit[2],
    ] + univ
}

/// The round summary: the header, then one row per track.
pub open spec fn summary_spec(rows: Seq<RoundSummaryRow>) -> Seq<Seq<CellView>> {
    seq![summary_headers()] + rows.map_values(|r: RoundSummaryRow| summary_cells(r))
}

fn clamp0(x: i64) -> (r: i64)
    ensures
        r == max0(x as int),
{
    if x < 0 { 0 } else { x }
}

fn quota_cell_triple(quota: Option<i64>, before: i64, this: i64) -> (r: (Cell, Cell, Cell))
    requires
        quota matches Some(q) ==> {
            &&& i64::MIN <= q - before <= i64::MAX
            &&& i64::MIN <= q - before - this <= i64::MAX
        },
    ensures
        seq![r.0@, r.1@, r.2@] == quota_cells(quota, before, this),
{
    match quota {
        Some(q) => {
            let r = (Cell::Int(q), Cell::Int(clamp0(q - before)), Cell::Int(clamp0(q - before - this)));
            assert(seq![r.0@, r.1@, r.2@] =~= quota_cells(quota, before, this));
            r
        },
        None => {
            let r = (text_cell("무제한"), text_cell("무제한"), text_cell("무제한"));
            assert(seq![r.0@, r.1@, r.2@] =~= quota_cells(quota, before, this));
            r
        },
    }
}

/// The summary of a round, track by track, in the given order.
pub fn round_summary_grid(rows: &Vec<RoundSummaryRow>) -> (g: Vec<Vec<Cell>>)
    requires
        forall|i: int| 0 <= i < rows@.len() ==> summary_fits(#[trigger] rows@[i]),
    ensures
        grid_view(g@) == summary_spec(rows@),
{
    let h = vec![
        text_cell("대학"),
        text_cell("모집단위"),
        text_cell("모집단위 정원"),
        text_cell("지원 인원"),
        text_cell("추천 인원"),
        text_cell("포기 인원"),
        text_cell("모집단위 라운드 전 잔여석"),
        text_cell("모집단위 남은 잔여석"),
        text_cell("대학 전체 정원"),
        text_cell("대학 라운드 전 잔여석"),
        text_cell("대학 남은 잔여석"),
    ];
    assert(row_view(h) =~= summary_headers());
    let mut g: Vec<Vec<Cell>> = vec![h];
    let mut i: usize = 0;
    while i < rows.len()
        invariant
            i <= rows@.len(),
            forall|k: int| 0 <= k < rows@.len() ==> summary_fits(#[trigger] rows@[k]),
            grid_view(g@) == summary_spec(rows@.take(i as int)),
        decreases rows@.len() - i,
    {
        let x = &rows[i];
        assert(summary_fits(rows@[i as int]));
        let (u0, u1, u2) = quota_cell_triple(x.unit_quota, x.before_count, x.this_count);
        let (v0, v1, v2) = quota_cell_triple(x.total_quota, x.univ_before_count, x.univ_this_count);
        let r = vec![
            Cell::Text(x.univ_name.clone()),
            Cell::Text(x.track_name.clone()),
            u0,
            Cell::Int(x.applied_count),
            Cell::Int(x.this_count),
            Cell::Int(x.abandoned_count),
            u1,
            u2,
            v0,
            v1,
            v2,
        ];
        assert(row_view(r) =~= summary_cells(rows@[i as int]));
        let ghost before = grid_view(g@);
        g.push(r);
        assert(grid_view(g@) =~= before.push(summary_cells(rows@[i as int])));
        assert(rows@.take(i + 1) =~= rows@.take(i as int).push(rows@[i as int]));
        i = i + 1;
        assert(grid_view(g@) =~= summary_spec(rows@.take(i as int)));
    }
    assert(rows@.take(rows@.len() as int) =~= rows@);
    g
}

// ── quota statistics ──────────────────────────────────────────────

/// The recommendations a track got in round `rid`: the last count listed
/// for that round, or 0.
pub open spec fn round_count(by: Seq<RoundCount>, rid: i64) -> i64
    decreases by.len(),
{
    if by.len() == 0 {
        0
    } else if by.last().round_id == rid {
        by.last().count
    } else {
        round_count(by.drop_last(), rid)
    }
}

/// The university is exported under the filter.
pub open spec fn univ_kept(u: UnivStat, filter: Option<i64>) -> bool {
    match filter {
        Some(uid) => u.univ_id == uid,
        None => true,
    }
}

/// The seats left can be counted in 64 bits for every track.
pub open spec fn quota_stats_fit(stats: QuotaStatsResponse) -> bool {
    forall|i: int| 0 <= i < stats.univs@.len() ==> {
        let u = #[trigger] stats.univs@[i];
        &&& (u.total_quota matches Some(q) ==> i64::MIN <= q - u.total_used <= i64::MAX)
        &&& forall|j: int| 0 <= j < u.tracks@.len() ==> {
            let t = #[trigger] u.tracks@[j];
            t.unit_quota matches Some(q) ==> i64::MIN <= q - t.unit_used <= i64::MAX
        }
    }
}

/// The label of the `k`-th round with recommendations (counted from 1).
pub open spec fn round_label_text(k: int) -> Seq<char> {
    int_text(k) + "차 추천"@
}

/// The columns of the quota statistics: fixed ones, then one per round.
pub open spec fn quota_headers(n: int) -> Seq<CellView> {
    seq![
        CellView::Text("대학명"@),
        CellView::Text("모집단위"@),
        CellView::Text("모집단위 정원"@),
        CellView::Text("추천인원"@),
        CellView::Text("잔여인원"@),
        CellView::Text("대학 전체 정원"@),
        CellView::Text("대학 추천인원"@),
        CellView::Text("대학 잔여인원"@),
    ] + Seq::new(n as nat, |k: int| CellView::Text(round_label_text(k + 1)))
}

/// A quota, or the unlimited cell.
pub open spec fn quota_or_unlimited(q: Option<i64>) -> CellView {
    match q {
        Some(v) => CellView::Int(v),
        None => unlimited(),
    }
}

/// The seats left of a quota, or the unlimited cell.
pub open spec fn left_or_unlimited(q: Option<i64>, used: i64) -> CellView {
    match q {
        Some(v) => CellView::Int(max0(v - used) as i64),
        None => unlimited(),
    }
}

/// One track of the quota statistics.
pub open spec fn quota_track_cells(u: UnivStat, t: TrackStat, rids: Seq<i64>) -> Seq<CellView> {
    seq![
        CellView::Text(u.univ_name@),
        CellView::Text(t.track_name@),
        quota_or_unlimited(t.unit_quota),
        CellView::Int(t.unit_used),
        left_or_unlimited(t.unit_quota, t.unit_used),
        quota_or_unlimited(u.total_quota),
        CellView::Int(u.total_used),
        left_or_unlimited(u.total_quota, u.total_used),
    ] + rids.map_values(|rid: i64| CellView::Int(round_count(t.by_round@, rid)))
}

/// The rows of the tracks of universities `0..n` that the filter keeps.
pub open spec fn quota_rows(univs: Seq<UnivStat>, rids: Seq<i64>, filter: Option<i64>, n: int) -> Seq<Seq<CellView>>
    decreases n,
{
    if n <= 0 {
        Seq::empty()
    } else {
        let u = univs[n - 1];
        quota_rows(univs, rids, filter, n - 1) + if univ_kept(u, filter) {
            u.tracks@.map_values(|t: TrackStat| quota_track_cells(u, t, rids))
        } else {
            Seq::empty()
        }
    }
}

/// The quota statistics sheet: the header, then one row per track of each
/// university the filter keeps.
pub open spec fn quota_export_spec(stats: QuotaStatsResponse, filter: Option<i64>) -> Seq<Seq<CellView>> {
    seq![quota_headers(stats.all_round_ids@.len() as int)] + quota_rows(
        stats.univs@,
        stats.all_round_ids@,
        filter,
        stats.univs@.len() as int,
    )
}

fn round_count_of(by: &Vec<RoundCount>, rid: i64) -> (r: i64)
    ensures
        r == round_count(by@, rid),
{
    let mut found: i64 = 0;
    let mut j: usize = 0;
    while j < by.len()
        invariant
            j <= by@.len(),
            found == round_count(by@.take(j as int), rid),
        decreases by@.len() - j,
    {
        assert(by@.take(j + 1).drop_last() =~= by@.take(j as int));
        if by[j].round_id == rid {
            found = by[j].count;
        }
        j = j + 1;
    }
    assert(by@.take(by@.len() as int) =~= by@);
    found
}

fn quota_cell(q: Option<i64>) -> (c: Cell)
    ensures
        c@ == quota_or_unlimited(q),
{
    match q {
        Some(v) => Cell::Int(v),
        None => text_cell("무제한"),
    }
}

fn left_cell(q: Option<i64>, used: i64) -> (c: Cell)
    requires
        q matches Some(v) ==> i64::MIN <= v - used <= i64::MAX,
    ensures
        c@ == left_or_unlimited(q, used),
{
    match q {
        Some(v) => Cell::Int(clamp0(v - used)),
        None => text_cell("무제한"),
    }
}

fn quota_track_row(u: &UnivStat, t: &TrackStat, rids: &Vec<i64>) -> (r: Vec<Cell>)
    requires
        u.total_quota matches Some(q) ==> i64::MIN <= q - u.total_used <= i64::MAX,
        t.unit_quota matches Some(q) ==> i64::MIN <= q - t.unit_used <= i64::MAX,
    ensures
        row_view(r) == quota_track_cells(*u, *t, rids@),
{
    let mut r = vec![
        Cell::Text(u.univ_name.clone()),
        Cell::Text(t.track_name.clone()),
        quota_cell(t.unit_quota),
        Cell::Int(t.unit_used),
        left_cell(t.unit_quota, t.unit_used),
        quota_cell(u.total_quota),
        Cell::Int(u.total_used),
        left_cell(u.total_quota, u.total_used),
    ];
    let ghost fixed = row_view(r);
    let mut k: usize = 0;
    while k < rids.len()
        invariant
            k <= rids@.len(),
            row_view(r) == fixed + rids@.take(k as int).map_values(
                |rid: i64| CellView::Int(round_count(t.by_round@, rid)),
            ),
        decreases rids@.len() - k,
    {
        let ghost before = row_view(r);
        r.push(Cell::Int(round_count_of(&t.by_round, rids[k])));
        assert(row_view(r) =~= before.push(CellView::Int(round_count(t.by_round@, rids@[k as int]))));
        assert(rids@.take(k + 1) =~= rids@.take(k as int).push(rids@[k as int]));
        k = k + 1;
        assert(row_view(r) =~= fixed + rids@.take(k as int).map_values(
            |rid: i64| CellView::Int(round_count(t.by_round@, rid)),
        ));
    }
    assert(rids@.take(rids@.len() as int) =~= rids@);
    r
}

/// The quota statistics sheet, of one university or of all.
pub fn quota_export_grid(stats: &QuotaStatsResponse, filter: Option<i64>) -> (g: Vec<Vec<Cell>>)
    requires
        quota_stats_fit(*stats),
        stats.all_round_ids@.len() < i64::MAX,
    ensures
        grid_view(g@) == quota_export_spec(*stats, filter),
{
    let rids = &stats.all_round_ids;
    let mut h = vec![
        text_cell("대학명"),
        text_cell("모집단위"),
        text_cell("모집단위 정원"),
        text_cell("추천인원"),
        text_cell("잔여인원"),
        text_cell("대학 전체 정원"),
        text_cell("대학 추천인원"),
        text_cell("대학 잔여인원"),
    ];
    let ghost fixed = row_view(h);
    let mut k: usize = 0;
    while k < rids.len()
        invariant
            k <= rids@.len(),
            rids@.len() < i64::MAX,
            row_view(h) == fixed + Seq::new(k as nat, |j: int| CellView::Text(round_label_text(j + 1))),
        decreases rids@.len() - k,
    {
        let mut label = i64_text((k + 1) as i64);
        append_str(&mut label, "차 추천");
        assert(label@ == round_label_text(k + 1));
        let ghost before = row_view(h);
        h.push(Cell::Text(string_of(&label)));
        assert(row_view(h) =~= before.push(CellView::Text(round_label_text(k + 1))));
        k = k + 1;
        assert(row_view(h) =~= fixed + Seq::new(k as nat, |j: int| CellView::Text(round_label_text(j + 1))));
    }
    assert(row_view(h) =~= quota_headers(rids@.len() as int));
    let mut g: Vec<Vec<Cell>> = vec![h];
    let univs = &stats.univs;
    let mut i: usize = 0;
    while i < univs.len()
        invariant
            i <= univs@.len(),
            univs == &stats.univs,
            rids == &stats.all_round_ids,
            quota_stats_fit(*stats),
            grid_view(g@) == seq![quota_headers(rids@.len() as int)] + quota_rows(univs@, rids@, filter, i as int),
        decreases univs@.len() - i,
    {
        let u = &univs[i];
        let keep = match filter {
            Some(uid) => u.univ_id == uid,
            None => true,
        };
        if keep {
            let mut j: usize = 0;
            let ghost base = grid_view(g@);
            while j < u.tracks.len()
                invariant
                    j <= u.tracks@.len(),
                    u == &univs@[i as int],
                    i < univs@.len(),
                    univs == &stats.univs,
                    quota_stats_fit(*stats),
                    grid_view(g@) == base + u.tracks@.take(j as int).map_values(
                        |t: TrackStat| quota_track_cells(*u, t, rids@),
                    ),
                decreases u.tracks@.len() - j,
            {
                assert(quota_stats_fit(*stats));
                assert(stats.univs@[i as int] == *u);
                let t = &u.tracks[j];
                assert(u.tracks@[j as int] == *t);
                let r = quota_track_row(u, t, rids);
                let ghost before = grid_view(g@);
                g.push(r);
                assert(grid_view(g@) =~= before.push(quota_track_cells(*u, *t, rids@)));
                assert(u.tracks@.take(j + 1) =~= u.tracks@.take(j as int).push(*t));
                j = j + 1;
                assert(grid_view(g@) =~= base + u.tracks@.take(j as int).map_values(
                    |t: TrackStat| quota_track_cells(*u, t, rids@),
                ));
            }
            assert(u.tracks@.take(u.tracks@.len() as int) =~= u.tracks@);
        }
        i = i + 1;
        assert(grid_view(g@) =~= seq![quota_headers(rids@.len() as int)] + quota_rows(univs@, rids@, filter, i as int));
    }
    g
}

/// Characters a file name cannot hold are replaced by `_`.
pub open spec fn file_safe(c: char) -> char {
    if c == '/' || c == '\\' || c == ':' || c == '*' || c == '?' || c == '"' || c == '<' || c == '>' || c == '|' {
        '_'
    } else {
        c
    }
}

/// The first university with the given id at or after `i`.
pub open spec fn first_univ_from(univs: Seq<UnivStat>, uid: i64, i: int) -> Option<int>
    decreases univs.len() - i,
{
    if i < 0 || i >= univs.len() {
        None
    } else if univs[i].univ_id == uid {
        Some(i)
    } else {
        first_univ_from(univs, uid, i + 1)
    }
}

/// The name of the quota statistics file, before its time stamp: the
/// university's name made safe for a file name (or `대학` where it is not
/// listed), or `전체` for all universities.
pub open spec fn quota_export_stem_spec(stats: QuotaStatsResponse, filter: Option<i64>) -> Seq<char> {
    match filter {
        Some(uid) => (match first_univ_from(stats.univs@, uid, 0) {
            Some(k) => stats.univs@[k].univ_name@.map_values(|c: char| file_safe(c)),
            None => "대학"@,
        }) + "_추천현황"@,
        None => "전체_추천현황"@,
    }
}

/// The name of the quota statistics file, before its time stamp.
pub fn quota_export_stem(stats: &QuotaStatsResponse, filter: Option<i64>) -> (s: String)
    ensures
        s@ == quota_export_stem_spec(*stats, filter),
{
    match filter {
        None => "전체_추천현황".to_owned(),
        Some(uid) => {
            let univs = &stats.univs;
            let mut idx: Option<usize> = None;
            let mut i: usize = 0;
            while i < univs.len()
                invariant
                    i <= univs@.len(),
                    idx is None ==> first_univ_from(univs@, uid, 0) == first_univ_from(univs@, uid, i as int),
                    idx matches Some(k) ==> first_univ_from(univs@, uid, 0) == Some(k as int) && k < univs@.len(),
                decreases univs@.len() - i,
            {
                if idx.is_none() && univs[i].univ_id == uid {
                    idx = Some(i);
                }
                i = i + 1;
            }
            let mut v: Vec<char> = Vec::new();
            match idx {
                Some(k) => {
                    let name = crate::text::chars_of(univs[k].univ_name.as_str());
                    let mut j: usize = 0;
                    while j < name.len()
                        invariant
                            j <= name@.len(),
                            v@ == name@.take(j as int).map_values(|c: char| file_safe(c)),
                        decreases name@.len() - j,
                    {
                        let c = name[j];
                        let d = if c == '/' || c == '\\' || c == ':' || c == '*' || c == '?' || c == '"'
                            || c == '<' || c == '>' || c == '|' {
                            '_'
                        } else {
                            c
                        };
                        v.push(d);
                        assert(name@.take(j + 1) =~= name@.take(j as int).push(c));
                        j = j + 1;
                        assert(v@ =~= name@.take(j as int).map_values(|c: char| file_safe(c)));
                    }
                    assert(name@.take(name@.len() as int) =~= name@);
                },
                None => {
                    v = crate::text::chars_of("대학");
                },
            }
            append_str(&mut v, "_추천현황");
            string_of(&v)
        },
    }
}

} // verus!
