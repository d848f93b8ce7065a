//! The administrator's sheets: the class list, the audit log, and the
//! university settings (a template and an export that uploads back).
use vstd::prelude::*;
use crate::audit::{actor_label, audit_actor_label, AuditRow};
use crate::classes::ClassRow;
use crate::grids::{opt_int, row_view, grid_view, text_cell, Cell, CellView};
use crate::settings::{fmt_prio, prio_text, TrackRow, UnivRow};

verus! {

// ── classes ───────────────────────────────────────────────────────

/// The class upload template: the header and one sample class.
pub open spec fn classes_template_spec() -> Seq<Seq<CellView>> {
    seq![
        seq![
            CellView::Text("학년"@),
            CellView::Text("반"@),
            CellView::Text("담임명"@),
            CellView::Text("비밀번호"@),
        ],
        seq![CellView::Int(3), CellView::Int(1), CellView::Text("홍길동"@), CellView::Text("1234"@)],
    ]
}

/// The class upload template.
pub fn classes_template_grid() -> (g: Vec<Vec<Cell>>)
    ensures
        grid_view(g@) == classes_template_spec(),
{
    let h = vec![text_cell("학년"), text_cell("반"), text_cell("담임명"), text_cell("비밀번호")];
    let a = vec![Cell::Int(3), Cell::Int(1), text_cell("홍길동"), text_cell("1234")];
    assert(row_view(h) =~= classes_template_spec()[0]);
    assert(row_view(a) =~= classes_template_spec()[1]);
    let g = vec![h, a];
    assert(grid_view(g@) =~= classes_template_spec());
    g
}

/// One class of the export: grade, class and the teacher's name (empty where unset).
pub open spec fn class_cells(c: ClassRow) -> Seq<CellView> {
    seq![
        CellView::Int(c.grade),
        CellView::Int(c.class_no),
        CellView::Text(
            match c.teacher_name {
                Some(n) => n@,
                None => Seq::empty(),
            },
        ),
    ]
}

/// The class export: the header, then one row per class.
pub open spec fn classes_export_spec(rows: Seq<ClassRow>) -> Seq<Seq<CellView>> {
    seq![seq![CellView::Text("학년"@), CellView::Text("반"@), CellView::Text("담임명"@)]] + rows.map_values(
        |c: ClassRow| class_cells(c),
    )
}

/// The class export, in the given order.
pub fn classes_export_grid(rows: &Vec<ClassRow>) -> (g: Vec<Vec<Cell>>)
    ensures
        grid_view(g@) == classes_export_spec(rows@),
{
    let h = vec![text_cell("학년"), text_cell("반"), text_cell("담임명")];
    assert(row_view(h) =~= seq![CellView::Text("학년"@), CellView::Text("반"@), CellView::Text("담임명"@)]);
    let mut g: Vec<Vec<Cell>> = vec![h];
    assert(grid_view(g@) =~= classes_export_spec(rows@.take(0)));
    let mut i: usize = 0;
    while i < rows.len()
        invariant
            i <= rows@.len(),
            grid_view(g@) == classes_export_spec(rows@.take(i as int)),
        decreases rows@.len() - i,
    {
        let c = &rows[i];
        let name = match &c.teacher_name {
            Some(n) => n.clone(),
            None => String::new(),
        };
        let r = vec![Cell::Int(c.grade), Cell::Int(c.class_no), Cell::Text(name)];
        assert(row_view(r) =~= class_cells(rows@[i as int]));
        let ghost before = grid_view(g@);
        g.push(r);
        assert(grid_view(g@) =~= before.push(class_cells(rows@[i as int])));
        assert(rows@.take(i + 1) =~= rows@.take(i as int).push(rows@[i as int]));
        i = i + 1;
        assert(grid_view(g@) =~= classes_export_spec(rows@.take(i as int)));
    }
    assert(rows@.take(rows@.len() as int) =~= rows@);
    g
}

// ── audit log ─────────────────────────────────────────────────────

/// The columns of the audit export; the address comes last.
pub open spec fn audit_headers() -> Seq<CellView> {
    seq![
        CellView::Text("시각"@),
        CellView::Text("행위자"@),
        CellView::Text("행위"@),
        CellView::Text("라운드"@),
        CellView::Text("상세"@),
        CellView::Text("IP"@),
    ]
}

/// One recorded action of the export.
pub open spec fn audit_cells(r: AuditRow) -> Seq<CellView> {
    seq![
        CellView::Text(r.at@),
        CellView::Text(
            actor_label(
                r.actor_type@,
                r.actor_grade,
                r.actor_class_no,
                match r.actor_name {
                    Some(n) => Some(n@),
                    None => None,
                },
            ),
        ),
        CellView::Text(r.action@),
        opt_int(r.round_id),
        CellView::Text(r.detail@),
        match r.actor_ip {
            Some(ip) => CellView::Text(ip@),
            None => CellView::Blank,
        },
    ]
}

/// The audit export: the header, then one row per recorded action.
pub open spec fn audit_export_spec(rows: Seq<AuditRow>) -> Seq<Seq<CellView>> {
    seq![audit_headers()] + rows.map_values(|r: AuditRow| audit_cells(r))
}

/// The audit export, in the given order.
pub fn audit_export_grid(rows: &Vec<AuditRow>) -> (g: Vec<Vec<Cell>>)
    ensures
        grid_view(g@) == audit_export_spec(rows@),
{
    let h = vec![
        text_cell("시각"),
        text_cell("행위자"),
        text_cell("행위"),
        text_cell("라운드"),
        text_cell("상세"),
        text_cell("IP"),
    ];
    assert(row_view(h) =~= audit_headers());
    let mut g: Vec<Vec<Cell>> = vec![h];
    assert(grid_view(g@) =~= audit_export_spec(rows@.take(0)));
    let mut i: usize = 0;
    while i < rows.len()
        invariant
            i <= rows@.len(),
            grid_view(g@) == audit_export_spec(rows@.take(i as int)),
        decreases rows@.len() - i,
    {
        let a = &rows[i];
        let ip = match &a.actor_ip {
            Some(s) => Cell::Text(s.clone()),
            None => Cell::Blank,
        };
        let round = match a.round_id {
            Some(v) => Cell::Int(v),
            None => Cell::Blank,
        };
        let r = vec![
            Cell::Text(a.at.clone()),
            Cell::Text(audit_actor_label(a)),
            Cell::Text(a.action.clone()),
            round,
            Cell::Text(a.detail.clone()),
            ip,
        ];
        assert(row_view(r) =~= audit_cells(rows@[i as int]));
        let ghost before = grid_view(g@);
        g.push(r);
        assert(grid_view(g@) =~= before.push(audit_cells(rows@[i as int])));
        assert(rows@.take(i + 1) =~= rows@.take(i as int).push(rows@[i as int]));
        i = i + 1;
        assert(grid_view(g@) =~= audit_export_spec(rows@.take(i as int)));
    }
    assert(rows@.take(rows@.len() as int) =~= rows@);
    g
}

// ── university settings ───────────────────────────────────────────

/// The columns of the settings sheet.
pub open spec fn settings_headers() -> Seq<CellView> {
    seq![
        CellView::Text("대학명"@),
        CellView::Text("대학 정원"@),
        CellView::Text("대학 재학생우선"@),
        CellView::Text("모집단위명"@),
        CellView::Text("모집단위 정원"@),
        CellView::Text("모집단위 재학생우선"@),
    ]
}

fn settings_header_row() -> (h: Vec<Cell>)
    ensures
        row_view(h) == settings_headers(),
{
    let h = vec![
        text_cell("대학명"),
        text_cell("대학 정원"),
        text_cell("대학 재학생우선"),
        text_cell("모집단위명"),
        text_cell("모집단위 정원"),
        text_cell("모집단위 재학생우선"),
    ];
    assert(row_view(h) =~= settings_headers());
    h
}

/// A quota cell of the settings sheet: the number, or `무제한`.
pub open spec fn settings_quota(q: Option<i64>) -> CellView {
    match q {
        Some(n) => CellView::Int(n),
        None => CellView::Text("무제한"@),
    }
}

fn settings_quota_cell(q: Option<i64>) -> (c: Cell)
    ensures
        c@ == settings_quota(q),
{
    match q {
        Some(n) => Cell::Int(n),
        None => text_cell("무제한"),
    }
}

/// The settings template: the header, a university with two tracks (its
/// quota and flag repeated on each) and a university without tracks.
pub open spec fn settings_template_spec() -> Seq<Seq<CellView>> {
    seq![
        settings_headers(),
        seq![
            CellView::Text("한국대학교"@),
            CellView::Int(5),
            CellView::Text("아니오"@),
            CellView::Text("인문계열"@),
            CellView::Int(3),
            CellView::Text("아니오"@),
        ],
        seq![
            CellView::Text("한국대학교"@),
            CellView::Int(5),
            CellView::Text("아니오"@),
            CellView::Text("자연계열"@),
            CellView::Text("무제한"@),
            CellView::Text("아니오"@),
        ],
        seq![CellView::Text("서울대학교"@), CellView::Text("무제한"@), CellView::Text("예"@)],
    ]
}

/// The settings upload template.
pub fn settings_template_grid() -> (g: Vec<Vec<Cell>>)
    ensures
        grid_view(g@) == settings_template_spec(),
{
    let h = settings_header_row();
    let a = vec![
        text_cell("한국대학교"),
        Cell::Int(5),
        text_cell("아니오"),
        text_cell("인문계열"),
        Cell::Int(3),
        text_cell("아니오"),
    ];
    let b = vec![
        text_cell("한국대학교"),
        Cell::Int(5),
        text_cell("아니오"),
        text_cell("자연계열"),
        text_cell("무제한"),
        text_cell("아니오"),
    ];
    let c = vec![text_cell("서울대학교"), text_cell("무제한"), text_cell("예")];
    assert(row_view(a) =~= settings_template_spec()[1]);
    assert(row_view(b) =~= settings_template_spec()[2]);
    assert(row_view(c) =~= settings_template_spec()[3]);
    let g = vec![h, a, b, c];
    assert(grid_view(g@) =~= settings_template_spec());
    g
}

/// The tracks among `0..n` that belong to university `uid`, in order.
pub open spec fn tracks_with(tracks: Seq<TrackRow>, uid: i64, n: int) -> Seq<TrackRow>
    decreases n,
{
    if n <= 0 {
        Seq::empty()
    } else if tracks[n - 1].univ_id == uid {
        tracks_with(tracks, uid, n - 1).push(tracks[n - 1])
    } else {
        tracks_with(tracks, uid, n - 1)
    }
}

/// University `k` repeats the id of an earlier one, whose rows took the tracks.
pub open spec fn univ_id_repeated(univs: Seq<UnivRow>, k: int) -> bool {
    exists|j: int| 0 <= j < k && (#[trigger] univs[j]).id == univs[k].id
}

/// The first columns of every settings row of a university.
pub open spec fn univ_head(u: UnivRow) -> Seq<CellView> {
    seq![
        CellView::Text(u.univ_name@),
        settings_quota(u.total_quota),
        CellView::Text(prio_text(u.prioritize_enrolled == 1)),
    ]
}

/// The settings row of one track of a university.
pub open spec fn track_settings_row(u: UnivRow, t: TrackRow) -> Seq<CellView> {
    univ_head(u) + seq![
        CellView::Text(t.track_name@),
        settings_quota(t.unit_quota),
        CellView::Text(prio_text(t.prioritize_enrolled == 1)),
    ]
}

/// The settings rows of one university: one per track, or a university-only
/// row where it has none.
pub open spec fn univ_settings_rows(u: UnivRow, ts: Seq<TrackRow>) -> Seq<Seq<CellView>> {
    if ts.len() == 0 {
        seq![univ_head(u)]
    } else {
        ts.map_values(|t: TrackRow| track_settings_row(u, t))
    }
}

/// The settings rows of universities `0..n`.
pub open spec fn settings_rows(univs: Seq<UnivRow>, tracks: Seq<TrackRow>, n: int) -> Seq<Seq<CellView>>
    decreases n,
{
    if n <= 0 {
        Seq::empty()
    } else {
        let u = univs[n - 1];
        let ts = if univ_id_repeated(univs, n - 1) {
            Seq::empty()
        } else {
            tracks_with(tracks, u.id, tracks.len() as int)
        };
        settings_rows(univs, tracks, n - 1) + univ_settings_rows(u, ts)
    }
}

/// The settings export: the header, then each university's rows, in the
/// given order of universities and of tracks.
pub open spec fn settings_export_spec(univs: Seq<UnivRow>, tracks: Seq<TrackRow>) -> Seq<Seq<CellView>> {
    seq![settings_headers()] + settings_rows(univs, tracks, univs.len() as int)
}

fn univ_head_cells(u: &UnivRow) -> (r: Vec<Cell>)
    ensures
        row_view(r) == univ_head(*u),
{
    let r = vec![
        Cell::Text(u.univ_name.clone()),
        settings_quota_cell(u.total_quota),
        text_cell(fmt_prio(u.prioritize_enrolled == 1)),
    ];
    assert(row_view(r) =~= univ_head(*u));
    r
}

/// The university settings export.
pub fn settings_export_grid(univs: &Vec<UnivRow>, tracks: &Vec<TrackRow>) -> (g: Vec<Vec<Cell>>)
    ensures
        grid_view(g@) == settings_export_spec(univs@, tracks@),
{
    let mut g: Vec<Vec<Cell>> = vec![settings_header_row()];
    assert(grid_view(g@) =~= seq![settings_headers()] + settings_rows(univs@, tracks@, 0));
    let mut i: usize = 0;
    while i < univs.len()
        invariant
            i <= univs@.len(),
            grid_view(g@) == seq![settings_headers()] + settings_rows(univs@, tracks@, i as int),
        decreases univs@.len() - i,
    {
        let u = &univs[i];
        let mut repeated = false;
        let mut k: usize = 0;
        while k < i
            invariant
                k <= i < univs@.len(),
                *u == univs@[i as int],
                repeated == exists|j: int| 0 <= j < k && (#[trigger] univs@[j]).id == univs@[i as int].id,
            decreases i - k,
        {
            if univs[k].id == u.id {
                repeated = true;
            }
            k = k + 1;
        }
        assert(repeated == univ_id_repeated(univs@, i as int));
        let ghost base = grid_view(g@);
        let mut any = false;
        if !repeated {
            let mut j: usize = 0;
            while j < tracks.len()
                invariant
                    j <= tracks@.len(),
                    any == (tracks_with(tracks@, u.id, j as int).len() > 0),
                    grid_view(g@) == base + tracks_with(tracks@, u.id, j as int).map_values(
                        |t: TrackRow| track_settings_row(*u, t),
                    ),
                decreases tracks@.len() - j,
            {
                let t = &tracks[j];
                if t.univ_id == u.id {
                    let mut r = univ_head_cells(u);
                    r.push(Cell::Text(t.track_name.clone()));
                    r.push(settings_quota_cell(t.unit_quota));
                    r.push(text_cell(fmt_prio(t.prioritize_enrolled == 1)));
                    assert(row_view(r) =~= track_settings_row(*u, *t));
                    let ghost before = grid_view(g@);
                    g.push(r);
                    assert(grid_view(g@) =~= before.push(track_settings_row(*u, *t)));
                    any = true;
                }
                j = j + 1;
                assert(grid_view(g@) =~= base + tracks_with(tracks@, u.id, j as int).map_values(
                    |t: TrackRow| track_settings_row(*u, t),
                ));
            }
        }
        if !any {
            let r = univ_head_cells(u);
            g.push(r);
            assert(grid_view(g@) =~= base + seq![univ_head(*u)]);
        }
        i = i + 1;
        assert(grid_view(g@) =~= seq![settings_headers()] + settings_rows(univs@, tracks@, i as int));
    }
    g
}

} // verus!
