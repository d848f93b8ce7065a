//! The university settings sheet: quotas and enrolled-first flags of the
//! universities and their tracks, edited in a spreadsheet and imported back.
//! Parsing validates the whole file and collects every error; the preview
//! compares the parsed settings with the current ones.
use vstd::prelude::*;
use crate::sheet::{cell_of, get_col, require_cols, texts, first_missing};
use crate::text::{append_str, chars_equal, chars_of, i64_text, int_text, parse_i64, push_all, spec_parse_i64, str_is, string_of};

verus! {

/// The text of an unlimited quota.
pub open spec fn unlimited_text() -> Seq<char> {
    "무제한"@
}

/// `"예"` for yes, `"아니오"` for no.
pub open spec fn prio_text(v: bool) -> Seq<char> {
    if v {
        "예"@
    } else {
        "아니오"@
    }
}

/// Writes an enrolled-first flag.
pub fn fmt_prio(v: bool) -> (s: &'static str)
    ensures
        s@ == prio_text(v),
{
    if v {
        "예"
    } else {
        "아니오"
    }
}

/// Reading a quota cell: `"무제한"` is unlimited, an integer of at least 1 a quota.
pub open spec fn spec_parse_quota(s: Seq<char>) -> Result<Option<i64>, Seq<char>> {
    if s == unlimited_text() {
        Ok(None)
    } else {
        match spec_parse_i64(s) {
            Some(n) if n >= 1 => Ok(Some(n)),
            _ => Err("정원 '"@ + s + "' 인식 불가 — 1 이상 정수 또는 '무제한'만 허용됩니다"@),
        }
    }
}

/// Parses a quota cell (see `spec_parse_quota`).
pub fn parse_quota(s: &str) -> (r: Result<Option<i64>, String>)
    ensures
        match r {
            Ok(q) => spec_parse_quota(s@) == Ok::<Option<i64>, Seq<char>>(q),
            Err(m) => spec_parse_quota(s@) == Err::<Option<i64>, Seq<char>>(m@),
        },
{
    if str_is(s, "무제한") {
        return Ok(None);
    }
    match parse_i64(&chars_of(s)) {
        Some(n) => if n >= 1 {
            return Ok(Some(n));
        },
        None => {},
    }
    let mut v = chars_of("정원 '");
    append_str(&mut v, s);
    append_str(&mut v, "' 인식 불가 — 1 이상 정수 또는 '무제한'만 허용됩니다");
    Err(string_of(&v))
}

/// Reading an enrolled-first cell: `"예"` or `"아니오"`.
pub open spec fn spec_parse_prio(s: Seq<char>) -> Result<bool, Seq<char>> {
    if s == "예"@ {
        Ok(true)
    } else if s == "아니오"@ {
        Ok(false)
    } else {
        Err("재학생우선 '"@ + s + "' 인식 불가 — '예' 또는 '아니오'만 허용됩니다"@)
    }
}

/// Parses an enrolled-first cell (see `spec_parse_prio`).
pub fn parse_prio(s: &str) -> (r: Result<bool, String>)
    ensures
        match r {
            Ok(b) => spec_parse_prio(s@) == Ok::<bool, Seq<char>>(b),
            Err(m) => spec_parse_prio(s@) == Err::<bool, Seq<char>>(m@),
        },
{
    if str_is(s, "예") {
        return Ok(true);
    }
    if str_is(s, "아니오") {
        return Ok(false);
    }
    let mut v = chars_of("재학생우선 '");
    append_str(&mut v, s);
    append_str(&mut v, "' 인식 불가 — '예' 또는 '아니오'만 허용됩니다");
    Err(string_of(&v))
}

/// Writes a quota: the number, or `"무제한"` when unlimited.
pub open spec fn quota_text(v: Option<i64>) -> Seq<char> {
    match v {
        Some(n) => int_text(n as int),
        None => unlimited_text(),
    }
}

/// Writes a quota (see `quota_text`).
pub fn quota_display(v: Option<i64>) -> (s: String)
    ensures
        s@ == quota_text(v),
{
    match v {
        Some(n) => string_of(&i64_text(n)),
        None => string_of(&chars_of("무제한")),
    }
}

/// Law: a written quota reads back as itself — `parse_quota` undoes
/// `quota_display` for every quota the sheet can hold (unlimited or at least 1).
pub proof fn law_quota_round_trip(q: Option<i64>)
    requires
        q matches Some(n) ==> n >= 1,
    ensures
        spec_parse_quota(quota_text(q)) == Ok::<Option<i64>, Seq<char>>(q),
{
    reveal_strlit("무제한");
    if let Some(n) = q {
        crate::text::lemma_parse_int_text(n);
        crate::text::lemma_decimal_digits(n as nat);
        let s = quota_text(q);
        assert(crate::text::is_digit(s[0]));
        assert(s[0] != unlimited_text()[0]);
        assert(s != unlimited_text());
    }
}

/// Law: a written enrolled-first flag reads back as itself.
pub proof fn law_prio_round_trip(v: bool)
    ensures
        spec_parse_prio(prio_text(v)) == Ok::<bool, Seq<char>>(v),
{
    reveal_strlit("예");
    reveal_strlit("아니오");
    assert("예"@.len() != "아니오"@.len());
}

/// One track of the settings file.
#[derive(Debug, Clone)]
pub struct TrackSpec {
    pub track_name: String,
    pub unit_quota: Option<i64>,
    pub prioritize: bool,
}

/// One university of the settings file, with its tracks in file order.
#[derive(Debug, Clone)]
pub struct UnivSpec {
    pub univ_name: String,
    pub total_quota: Option<i64>,
    pub prioritize: bool,
    pub tracks: Vec<TrackSpec>,
}

/// A track as plain values: `(name, quota, enrolled-first)`.
pub type TrackView = (Seq<char>, Option<i64>, bool);

/// A university being read: `(name, quota, enrolled-first, first row, tracks)`.
pub type AccView = (Seq<char>, Option<i64>, bool, int, Seq<TrackView>);

pub open spec fn track_view(t: TrackSpec) -> TrackView {
    (t.track_name@, t.unit_quota, t.prioritize)
}

pub open spec fn tracks_view(ts: Seq<TrackSpec>) -> Seq<TrackView> {
    ts.map_values(|t: TrackSpec| track_view(t))
}

/// `"<n>행: "`, the start of a row's messages.
pub open spec fn row_prefix(n: int) -> Seq<char> {
    int_text(n) + "행: "@
}

/// A required quota cell of row `n`: its value, or the row's error message.
pub open spec fn quota_field(s: Seq<char>, n: int, missing: Seq<char>) -> Result<Option<i64>, Seq<char>> {
    if s.len() == 0 {
        Err(row_prefix(n) + missing)
    } else {
        match spec_parse_quota(s) {
            Ok(q) => Ok(q),
            Err(e) => Err(row_prefix(n) + e),
        }
    }
}

/// A required enrolled-first cell of row `n`: its value, or the row's error message.
pub open spec fn prio_field(s: Seq<char>, n: int, missing: Seq<char>) -> Result<bool, Seq<char>> {
    if s.len() == 0 {
        Err(row_prefix(n) + missing)
    } else {
        match spec_parse_prio(s) {
            Ok(b) => Ok(b),
            Err(e) => Err(row_prefix(n) + e),
        }
    }
}

/// The error of a field, as a list of zero or one message.
pub open spec fn err_list<T>(r: Result<T, Seq<char>>) -> Seq<Seq<char>> {
    match r {
        Ok(_) => Seq::empty(),
        Err(e) => seq![e],
    }
}

/// The first university named `name` from index `i` on.
pub open spec fn find_acc(accs: Seq<AccView>, name: Seq<char>, i: int) -> Option<int>
    decreases accs.len() - i,
{
    if i < 0 || i >= accs.len() {
        None
    } else if accs[i].0 == name {
        Some(i)
    } else {
        find_acc(accs, name, i + 1)
    }
}

/// Some track is named `name`.
pub open spec fn has_track(ts: Seq<TrackView>, name: Seq<char>) -> bool {
    exists|j: int| 0 <= j < ts.len() && (#[trigger] ts[j]).0 == name
}

/// Adds a row's university values (and track, if any) to the universities
/// read so far. A repeated university must repeat the same values; a track
/// may appear only once per university.
pub open spec fn accumulate(
    errs: Seq<Seq<char>>,
    accs: Seq<AccView>,
    un: Seq<char>,
    q: Option<i64>,
    p: bool,
    n: int,
    track: Option<TrackView>,
) -> (Seq<Seq<char>>, Seq<AccView>) {
    match find_acc(accs, un, 0) {
        None => (errs, accs.push((un, q, p, n, match track { Some(t) => seq![t], None => Seq::empty() }))),
        Some(k) => {
            let a = accs[k];
            let e2 = if a.1 != q || a.2 != p {
                errs.push(
                    row_prefix(n) + "대학 '"@ + un + "'의 대학 정원·재학생우선이 "@ + int_text(a.3)
                        + "행과 다릅니다 (같은 대학은 모든 행에서 같은 값이어야 합니다)"@,
                )
            } else {
                errs
            };
            match track {
                None => (e2, accs),
                Some(t) => if has_track(a.4, t.0) {
                    (
                        e2.push(
                            row_prefix(n) + "모집단위 '"@ + un + "/"@ + t.0
                                + "' 중복 — 파일에 같은 모집단위가 두 번 이상 있습니다"@,
                        ),
                        accs,
                    )
                } else {
                    (e2, accs.update(k, (a.0, a.1, a.2, a.3, a.4.push(t))))
                },
            }
        },
    }
}

/// The cell values of one row, as read by column name.
pub open spec fn cell(c: Seq<Seq<char>>, h: Seq<Seq<char>>, name: Seq<char>) -> Seq<char> {
    cell_of(c, h, name)
}

/// The track part of row `n`: its errors and the track, when complete.
pub open spec fn row_track(c: Seq<Seq<char>>, h: Seq<Seq<char>>, n: int) -> (Seq<Seq<char>>, Option<TrackView>) {
    let tn = cell(c, h, "모집단위명"@);
    let tq_s = cell(c, h, "모집단위 정원"@);
    let tp_s = cell(c, h, "모집단위 재학생우선"@);
    if tn.len() == 0 {
        if tq_s.len() > 0 || tp_s.len() > 0 {
            (
                seq![
                    row_prefix(n)
                        + "모집단위명이 비었는데 모집단위 정원·재학생우선이 채워져 있습니다 (모집단위 없는 대학 행이면 세 칸을 모두 비우세요)"@,
                ],
                None,
            )
        } else {
            (Seq::empty(), None)
        }
    } else {
        let tq = quota_field(tq_s, n, "모집단위 정원이 비어 있습니다 (숫자 또는 '무제한')"@);
        let tp = prio_field(tp_s, n, "모집단위 재학생우선이 비어 있습니다 ('예' 또는 '아니오')"@);
        (
            err_list(tq) + err_list(tp),
            if tq is Ok && tp is Ok {
                Some((tn, tq->Ok_0, tp->Ok_0))
            } else {
                None
            },
        )
    }
}

/// Reads row `n` (cells `c`) into the errors and universities read so far.
pub open spec fn settings_row(
    errs: Seq<Seq<char>>,
    accs: Seq<AccView>,
    c: Seq<Seq<char>>,
    h: Seq<Seq<char>>,
    n: int,
) -> (Seq<Seq<char>>, Seq<AccView>) {
    let un = cell(c, h, "대학명"@);
    if un.len() == 0 {
        (errs.push(row_prefix(n) + "대학명이 비어 있습니다"@), accs)
    } else {
        let uq = quota_field(cell(c, h, "대학 정원"@), n, "대학 정원이 비어 있습니다 (숫자 또는 '무제한')"@);
        let up = prio_field(cell(c, h, "대학 재학생우선"@), n, "대학 재학생우선이 비어 있습니다 ('예' 또는 '아니오')"@);
        let (te, track) = row_track(c, h, n);
        let e = errs + err_list(uq) + err_list(up) + te;
        if uq is Ok && up is Ok {
            accumulate(e, accs, un, uq->Ok_0, up->Ok_0, n, track)
        } else {
            (e, accs)
        }
    }
}

/// Reads rows `0..k` (row `i` is line `i + 2` of the sheet).
pub open spec fn settings_rows(rows: Seq<Seq<Seq<char>>>, h: Seq<Seq<char>>, k: int) -> (Seq<Seq<char>>, Seq<AccView>)
    decreases k,
{
    if k <= 0 {
        (Seq::empty(), Seq::empty())
    } else {
        let prev = settings_rows(rows, h, k - 1);
        settings_row(prev.0, prev.1, rows[k - 1], h, k + 1)
    }
}

/// The tracks that break "an enrolled-first university has only
/// enrolled-first tracks", for university `name` and its tracks `0..m`.
pub open spec fn track_prio_errors(name: Seq<char>, ts: Seq<TrackView>, m: int) -> Seq<Seq<char>>
    decreases m,
{
    if m <= 0 {
        Seq::empty()
    } else if !ts[m - 1].2 {
        track_prio_errors(name, ts, m - 1).push(
            "대학 '"@ + name + "'의 재학생우선이 '예'인데 모집단위 '"@ + ts[m - 1].0
                + "'가 '아니오'입니다 (재학생 우선 대학의 모집단위는 모두 '예'여야 합니다)"@,
        )
    } else {
        track_prio_errors(name, ts, m - 1)
    }
}

/// The enrolled-first errors of universities `0..k`.
pub open spec fn prio_errors(accs: Seq<AccView>, k: int) -> Seq<Seq<char>>
    decreases k,
{
    if k <= 0 {
        Seq::empty()
    } else if accs[k - 1].2 {
        prio_errors(accs, k - 1) + track_prio_errors(accs[k - 1].0, accs[k - 1].4, accs[k - 1].4.len() as int)
    } else {
        prio_errors(accs, k - 1)
    }
}

/// The columns the settings sheet needs.
pub open spec fn settings_headers() -> Seq<Seq<char>> {
    seq!["대학명"@, "대학 정원"@, "대학 재학생우선"@, "모집단위명"@, "모집단위 정원"@, "모집단위 재학생우선"@]
}

/// A university of the result as plain values: `(name, quota, enrolled-first, tracks)`.
pub open spec fn univ_view(u: UnivSpec) -> (Seq<char>, Option<i64>, bool, Seq<TrackView>) {
    (u.univ_name@, u.total_quota, u.prioritize, tracks_view(u.tracks@))
}

/// The settings read from a sheet, or every error found: a missing column,
/// an empty file, the row errors in row order, then the enrolled-first
/// errors in university order. Universities keep their first-appearance order.
pub open spec fn settings_result(h: Seq<Seq<char>>, rows: Seq<Seq<Seq<char>>>) -> Result<
    Seq<(Seq<char>, Option<i64>, bool, Seq<TrackView>)>,
    Seq<Seq<char>>,
> {
    match first_missing(h, settings_headers(), 6) {
        Some(k) => Err(seq!["필수 열이 없습니다: "@ + settings_headers()[k]]),
        None => if rows.len() == 0 {
            Err(seq!["가져올 데이터 행이 없습니다 — 헤더만 있는 빈 파일입니다"@])
        } else {
            let (errs, accs) = settings_rows(rows, h, rows.len() as int);
            let all = errs + prio_errors(accs, accs.len() as int);
            if all.len() > 0 {
                Err(all)
            } else {
                Ok(accs.map_values(|a: AccView| (a.0, a.1, a.2, a.4)))
            }
        },
    }
}

/// A university being read from the sheet.
struct UnivAcc {
    name: String,
    total_quota: Option<i64>,
    prioritize: bool,
    first_row: usize,
    tracks: Vec<TrackSpec>,
}

spec fn acc_view(a: UnivAcc) -> AccView {
    (a.name@, a.total_quota, a.prioritize, a.first_row as int, tracks_view(a.tracks@))
}

spec fn accs_view(s: Seq<UnivAcc>) -> Seq<AccView> {
    s.map_values(|a: UnivAcc| acc_view(a))
}

/// The rows of a sheet as plain values.
pub open spec fn rows_view(rows: Seq<Vec<String>>) -> Seq<Seq<Seq<char>>> {
    rows.map_values(|r: Vec<String>| texts(r@))
}

fn row_prefix_chars(n: usize) -> (v: Vec<char>)
    ensures
        v@ == row_prefix(n as int),
{
    let mut v: Vec<char> = Vec::new();
    crate::text::push_decimal(&mut v, n as u64);
    append_str(&mut v, "행: ");
    assert(v@ =~= row_prefix(n as int));
    v
}

fn row_message(n: usize, tail: &str) -> (s: String)
    ensures
        s@ == row_prefix(n as int) + tail@,
{
    let mut v = row_prefix_chars(n);
    append_str(&mut v, tail);
    string_of(&v)
}

fn quota_field_exec(s: &String, n: usize, missing: &str) -> (r: Result<Option<i64>, String>)
    ensures
        match r {
            Ok(q) => quota_field(s@, n as int, missing@) == Ok::<Option<i64>, Seq<char>>(q),
            Err(m) => quota_field(s@, n as int, missing@) == Err::<Option<i64>, Seq<char>>(m@),
        },
{
    if chars_of(s.as_str()).len() == 0 {
        return Err(row_message(n, missing));
    }
    match parse_quota(s.as_str()) {
        Ok(q) => Ok(q),
        Err(e) => {
            let mut v = row_prefix_chars(n);
            push_all(&mut v, &chars_of(e.as_str()));
            Err(string_of(&v))
        },
    }
}

fn prio_field_exec(s: &String, n: usize, missing: &str) -> (r: Result<bool, String>)
    ensures
        match r {
            Ok(b) => prio_field(s@, n as int, missing@) == Ok::<bool, Seq<char>>(b),
            Err(m) => prio_field(s@, n as int, missing@) == Err::<bool, Seq<char>>(m@),
        },
{
    if chars_of(s.as_str()).len() == 0 {
        return Err(row_message(n, missing));
    }
    match parse_prio(s.as_str()) {
        Ok(b) => Ok(b),
        Err(e) => {
            let mut v = row_prefix_chars(n);
            push_all(&mut v, &chars_of(e.as_str()));
            Err(string_of(&v))
        },
    }
}

fn row_track_exec(errs: &mut Vec<String>, cols: &Vec<String>, headers: &Vec<String>, n: usize) -> (r: Option<TrackSpec>)
    ensures
        ({
            let spec = row_track(texts(cols@), texts(headers@), n as int);
            &&& texts(final(errs)@) == texts(old(errs)@) + spec.0
            &&& match r {
                Some(t) => spec.1 == Some(track_view(t)),
                None => spec.1 is None,
            }
        }),
{
    let ghost e0 = texts(errs@);
    let tn = get_col(cols, headers, "모집단위명");
    let tq_s = get_col(cols, headers, "모집단위 정원");
    let tp_s = get_col(cols, headers, "모집단위 재학생우선");
    if chars_of(tn.as_str()).len() == 0 {
        if chars_of(tq_s.as_str()).len() > 0 || chars_of(tp_s.as_str()).len() > 0 {
            errs.push(
                row_message(
                    n,
                    "모집단위명이 비었는데 모집단위 정원·재학생우선이 채워져 있습니다 (모집단위 없는 대학 행이면 세 칸을 모두 비우세요)",
                ),
            );
        }
        assert(texts(errs@) =~= e0 + row_track(texts(cols@), texts(headers@), n as int).0);
        return None;
    }
    let tq = quota_field_exec(&tq_s, n, "모집단위 정원이 비어 있습니다 (숫자 또는 '무제한')");
    let tp = prio_field_exec(&tp_s, n, "모집단위 재학생우선이 비어 있습니다 ('예' 또는 '아니오')");
    let track = match (&tq, &tp) {
        (Ok(q), Ok(p)) => Some(TrackSpec { track_name: tn, unit_quota: *q, prioritize: *p }),
        _ => None,
    };
    match tq {
        Err(e) => {
            errs.push(e);
        },
        Ok(_) => {},
    }
    match tp {
        Err(e) => {
            errs.push(e);
        },
        Ok(_) => {},
    }
    assert(texts(errs@) =~= e0 + row_track(texts(cols@), texts(headers@), n as int).0);
    track
}

fn find_acc_index(accs: &Vec<UnivAcc>, name: &Vec<char>) -> (r: Option<usize>)
    ensures
        match r {
            Some(k) => find_acc(accs_view(accs@), name@, 0) == Some(k as int) && k < accs@.len(),
            None => find_acc(accs_view(accs@), name@, 0) is None,
        },
{
    let ghost av = accs_view(accs@);
    let mut k: usize = 0;
    while k < accs.len()
        invariant
            av == accs_view(accs@),
            k <= accs@.len(),
            find_acc(av, name@, 0) == find_acc(av, name@, k as int),
        decreases accs@.len() - k,
    {
        assert(av[k as int].0 == accs@[k as int].name@);
        if chars_equal(&chars_of(accs[k].name.as_str()), name) {
            return Some(k);
        }
        k = k + 1;
    }
    None
}

fn has_track_exec(ts: &Vec<TrackSpec>, name: &Vec<char>) -> (r: bool)
    ensures
        r == has_track(tracks_view(ts@), name@),
{
    let ghost tv = tracks_view(ts@);
    let mut j: usize = 0;
    while j < ts.len()
        invariant
            tv == tracks_view(ts@),
            j <= ts@.len(),
            forall|i: int| 0 <= i < j ==> (#[trigger] tv[i]).0 != name@,
        decreases ts@.len() - j,
    {
        assert(tv[j as int].0 == ts@[j as int].track_name@);
        if chars_equal(&chars_of(ts[j].track_name.as_str()), name) {
            assert(tv[j as int].0 == name@);
            return true;
        }
        j = j + 1;
    }
    false
}

fn settings_row_exec(
    errors: &mut Vec<String>,
    accs: &mut Vec<UnivAcc>,
    cols: &Vec<String>,
    headers: &Vec<String>,
    n: usize,
)
    ensures
        (texts(final(errors)@), accs_view(final(accs)@)) == settings_row(
            texts(old(errors)@),
            accs_view(old(accs)@),
            texts(cols@),
            texts(headers@),
            n as int,
        ),
{
    let ghost e0 = texts(errors@);
    let ghost a0 = accs_view(accs@);
    let un = get_col(cols, headers, "대학명");
    let unc = chars_of(un.as_str());
    if unc.len() == 0 {
        errors.push(row_message(n, "대학명이 비어 있습니다"));
        assert(texts(errors@) =~= e0.push(row_prefix(n as int) + "대학명이 비어 있습니다"@));
        return;
    }
    let uq_s = get_col(cols, headers, "대학 정원");
    let up_s = get_col(cols, headers, "대학 재학생우선");
    let uq = quota_field_exec(&uq_s, n, "대학 정원이 비어 있습니다 (숫자 또는 '무제한')");
    let up = prio_field_exec(&up_s, n, "대학 재학생우선이 비어 있습니다 ('예' 또는 '아니오')");
    let ghost spec_uq = quota_field(uq_s@, n as int, "대학 정원이 비어 있습니다 (숫자 또는 '무제한')"@);
    let ghost spec_up = prio_field(up_s@, n as int, "대학 재학생우선이 비어 있습니다 ('예' 또는 '아니오')"@);
    let (q, p) = match (uq, up) {
        (Ok(q), Ok(p)) => (Some(q), Some(p)),
        (Ok(_), Err(e2)) => {
            errors.push(e2);
            (None, None)
        },
        (Err(e1), Ok(_)) => {
            errors.push(e1);
            (None, None)
        },
        (Err(e1), Err(e2)) => {
            errors.push(e1);
            errors.push(e2);
            (None, None)
        },
    };
    let ghost mid = texts(errors@);
    assert(mid =~= e0 + err_list(spec_uq) + err_list(spec_up));
    let track = row_track_exec(errors, cols, headers, n);
    assert(texts(errors@) =~= e0 + err_list(spec_uq) + err_list(spec_up) + row_track(texts(cols@), texts(headers@), n as int).0);
    let (q, p) = match (q, p) {
        (Some(Some(q)), Some(p)) => (Some(q), p),
        (Some(None), Some(p)) => (None, p),
        _ => {
            return;
        },
    };
    let ghost e1 = texts(errors@);
    let ghost tr = match &track {
        Some(t) => Some(track_view(*t)),
        None => None,
    };
    match find_acc_index(accs, &unc) {
        None => {
            let mut ts: Vec<TrackSpec> = Vec::new();
            match track {
                Some(t) => {
                    ts.push(t);
                },
                None => {},
            }
            assert(tracks_view(ts@) =~= match tr {
                Some(t) => seq![t],
                None => Seq::<TrackView>::empty(),
            });
            accs.push(UnivAcc { name: un, total_quota: q, prioritize: p, first_row: n, tracks: ts });
            assert(accs_view(accs@) =~= a0.push((unc@, q, p, n as int, tracks_view(ts@))));
        },
        Some(k) => {
            let q0 = accs[k].total_quota;
            let p0 = accs[k].prioritize;
            let first = accs[k].first_row;
            let same_quota = match (q0, q) {
                (Some(a), Some(b)) => a == b,
                (None, None) => true,
                _ => false,
            };
            if !same_quota || p0 != p {
                let mut v = row_prefix_chars(n);
                append_str(&mut v, "대학 '");
                push_all(&mut v, &unc);
                append_str(&mut v, "'의 대학 정원·재학생우선이 ");
                crate::text::push_decimal(&mut v, first as u64);
                append_str(&mut v, "행과 다릅니다 (같은 대학은 모든 행에서 같은 값이어야 합니다)");
                errors.push(string_of(&v));
            }
            let ghost e2 = texts(errors@);
            match track {
                None => {},
                Some(t) => {
                    let tnc = chars_of(t.track_name.as_str());
                    if has_track_exec(&accs[k].tracks, &tnc) {
                        let mut v = row_prefix_chars(n);
                        append_str(&mut v, "모집단위 '");
                        push_all(&mut v, &unc);
                        append_str(&mut v, "/");
                        push_all(&mut v, &tnc);
                        append_str(&mut v, "' 중복 — 파일에 같은 모집단위가 두 번 이상 있습니다");
                        errors.push(string_of(&v));
                    } else {
                        let mut a = accs.remove(k);
                        let ghost before_tracks = tracks_view(a.tracks@);
                        a.tracks.push(t);
                        assert(tracks_view(a.tracks@) =~= before_tracks.push(track_view(t)));
                        accs.insert(k, a);
                        assert(accs_view(accs@) =~= a0.update(
                            k as int,
                            (a0[k as int].0, a0[k as int].1, a0[k as int].2, a0[k as int].3, a0[k as int].4.push(track_view(t))),
                        ));
                    }
                },
            }
        },
    }
}

/// Reads the settings sheet (see `settings_result`): a missing column, an
/// empty file, or any row error rejects the whole file with every message.
pub fn parse_settings(headers: &Vec<String>, rows: &Vec<Vec<String>>) -> (r: Result<Vec<UnivSpec>, Vec<String>>)
    requires
        rows@.len() < usize::MAX - 1,
    ensures
        match r {
            Ok(us) => settings_result(texts(headers@), rows_view(rows@)) == Ok::<_, Seq<Seq<char>>>(
                us@.map_values(|u: UnivSpec| univ_view(u)),
            ),
            Err(es) => settings_result(texts(headers@), rows_view(rows@)) == Err::<
                Seq<(Seq<char>, Option<i64>, bool, Seq<TrackView>)>,
                _,
            >(texts(es@)),
        },
{
    let ghost h = texts(headers@);
    let ghost rv = rows_view(rows@);
    let mut names: Vec<&str> = Vec::new();
    names.push("대학명");
    names.push("대학 정원");
    names.push("대학 재학생우선");
    names.push("모집단위명");
    names.push("모집단위 정원");
    names.push("모집단위 재학생우선");
    assert(names@.map_values(|s: &str| s@) =~= settings_headers());
    match require_cols(headers, &names) {
        Err(e) => {
            proof {
                crate::sheet::lemma_first_missing_range(h, names@.map_values(|s: &str| s@), 6);
                let k = first_missing(h, names@.map_values(|s: &str| s@), 6)->0;
                assert(names@.map_values(|s: &str| s@)[k] == names@[k]@);
            }
            let mut es: Vec<String> = Vec::new();
            es.push(e);
            assert(texts(es@) =~= seq![e@]);
            return Err(es);
        },
        Ok(()) => {},
    }
    if rows.len() == 0 {
        let mut es: Vec<String> = Vec::new();
        es.push(string_of(&chars_of("가져올 데이터 행이 없습니다 — 헤더만 있는 빈 파일입니다")));
        assert(texts(es@) =~= seq!["가져올 데이터 행이 없습니다 — 헤더만 있는 빈 파일입니다"@]);
        return Err(es);
    }
    let mut errors: Vec<String> = Vec::new();
    let mut accs: Vec<UnivAcc> = Vec::new();
    let mut i: usize = 0;
    assert(texts(errors@) =~= Seq::<Seq<char>>::empty());
    assert(accs_view(accs@) =~= Seq::<AccView>::empty());
    while i < rows.len()
        invariant
            h == texts(headers@),
            rv == rows_view(rows@),
            rows@.len() < usize::MAX - 1,
            i <= rows@.len(),
            (texts(errors@), accs_view(accs@)) == settings_rows(rv, h, i as int),
        decreases rows@.len() - i,
    {
        assert(rv[i as int] == texts(rows@[i as int]@));
        settings_row_exec(&mut errors, &mut accs, &rows[i], headers, i + 2);
        i = i + 1;
    }
    // the enrolled-first rule
    let ghost av = accs_view(accs@);
    let ghost row_errs = texts(errors@);
    let mut k: usize = 0;
    while k < accs.len()
        invariant
            av == accs_view(accs@),
            k <= accs@.len(),
            texts(errors@) == row_errs + prio_errors(av, k as int),
        decreases accs@.len() - k,
    {
        let a = &accs[k];
        if a.prioritize {
            let ghost base = texts(errors@);
            let namec = chars_of(a.name.as_str());
            let mut j: usize = 0;
            while j < a.tracks.len()
                invariant
                    av == accs_view(accs@),
                    k < accs@.len(),
                    *a == accs@[k as int],
                    namec@ == a.name@,
                    j <= a.tracks@.len(),
                    texts(errors@) == base + track_prio_errors(av[k as int].0, av[k as int].4, j as int),
                decreases a.tracks@.len() - j,
            {
                assert(av[k as int].4[j as int] == track_view(a.tracks@[j as int]));
                if !a.tracks[j].prioritize {
                    let mut v = chars_of("대학 '");
                    push_all(&mut v, &namec);
                    append_str(&mut v, "'의 재학생우선이 '예'인데 모집단위 '");
                    push_all(&mut v, &chars_of(a.tracks[j].track_name.as_str()));
                    append_str(&mut v, "'가 '아니오'입니다 (재학생 우선 대학의 모집단위는 모두 '예'여야 합니다)");
                    let ghost before = texts(errors@);
                    errors.push(string_of(&v));
                    assert(texts(errors@) =~= before.push(v@));
                }
                j = j + 1;
            }
            assert(texts(errors@) =~= row_errs + prio_errors(av, k + 1));
        }
        k = k + 1;
    }
    if errors.len() > 0 {
        return Err(errors);
    }
    let mut out: Vec<UnivSpec> = Vec::new();
    let mut accs = accs;
    let ghost total = accs@.len();
    let mut k: usize = 0;
    while accs.len() > 0
        invariant
            k + accs@.len() == total,
            total <= usize::MAX,
            av.len() == total,
            forall|i: int| 0 <= i < accs@.len() ==> acc_view(#[trigger] accs@[i]) == av[k + i],
            out@.len() == k,
            forall|i: int| 0 <= i < k ==> univ_view(#[trigger] out@[i]) == (av[i].0, av[i].1, av[i].2, av[i].4),
        decreases accs@.len(),
    {
        let ghost prev = accs@;
        let a = accs.remove(0);
        assert(acc_view(a) == av[k as int]);
        out.push(UnivSpec { univ_name: a.name, total_quota: a.total_quota, prioritize: a.prioritize, tracks: a.tracks });
        k = k + 1;
        assert forall|i: int| 0 <= i < accs@.len() implies acc_view(#[trigger] accs@[i]) == av[k + i] by {
            assert(accs@[i] == prev[i + 1]);
        }
    }
    assert(out@.map_values(|u: UnivSpec| univ_view(u)) =~= av.map_values(|a: AccView| (a.0, a.1, a.2, a.4)));
    Ok(out)
}

/// A university as currently stored.
#[derive(Debug, Clone)]
pub struct UnivRow {
    pub id: i64,
    pub univ_name: String,
    pub total_quota: Option<i64>,
    pub prioritize_enrolled: i64,
}

/// A track as currently stored.
#[derive(Debug, Clone)]
pub struct TrackRow {
    pub id: i64,
    pub univ_id: i64,
    pub track_name: String,
    pub unit_quota: Option<i64>,
    pub prioritize_enrolled: i64,
}

/// A stored university with its stored tracks.
#[derive(Debug, Clone)]
pub struct CurrentUniv {
    pub univ: UnivRow,
    pub tracks: Vec<TrackRow>,
}

/// One changed value: the field, its old and its new text.
#[derive(Debug, Clone)]
pub struct FieldChange {
    pub field: String,
    pub old: String,
    pub new: String,
}

/// One change the import would make.
#[derive(Debug, Clone)]
pub struct SettingsDiffEntry {
    /// `"univ"`, `"track"`, or `"cascade"` (a stored track the university flag flips).
    pub kind: String,
    /// `"create"` or `"update"`.
    pub op: String,
    pub univ_name: String,
    pub track_name: Option<String>,
    pub fields: Vec<FieldChange>,
    /// The change flips an enrolled-first flag while a round is closed.
    pub blocked: bool,
}

/// What an import would do.
#[derive(Debug, Clone)]
pub struct SettingsPreview {
    pub errors: Vec<String>,
    pub changes: Vec<SettingsDiffEntry>,
    pub unchanged_count: usize,
    pub closed_round_labels: Vec<String>,
    pub has_blocked: bool,
}

pub type FieldView = (Seq<char>, Seq<char>, Seq<char>);

pub type EntryView = (Seq<char>, Seq<char>, Seq<char>, Option<Seq<char>>, Seq<FieldView>, bool);

pub open spec fn field_view(f: FieldChange) -> FieldView {
    (f.field@, f.old@, f.new@)
}

pub open spec fn entry_view(e: SettingsDiffEntry) -> EntryView {
    (
        e.kind@,
        e.op@,
        e.univ_name@,
        match e.track_name {
            Some(n) => Some(n@),
            None => None,
        },
        e.fields@.map_values(|f: FieldChange| field_view(f)),
        e.blocked,
    )
}

/// A stored track as the preview compares it with a track of the file:
/// `(name, quota, enrolled-first)`. Its ids take no part in the comparison.
pub open spec fn cur_track_view(t: TrackRow) -> TrackView {
    (t.track_name@, t.unit_quota, t.prioritize_enrolled == 1)
}

pub open spec fn cur_tracks_view(ts: Seq<TrackRow>) -> Seq<TrackView> {
    ts.map_values(|t: TrackRow| cur_track_view(t))
}

/// The fields of a created university or track.
pub open spec fn create_fields(q: Option<i64>, p: bool) -> Seq<FieldView> {
    seq![("정원"@, "—"@, quota_text(q)), ("재학생우선"@, "—"@, prio_text(p))]
}

/// The quota change, if the quota changes.
pub open spec fn quota_change(old: Option<i64>, new: Option<i64>) -> Seq<FieldView> {
    if old != new {
        seq![("정원"@, quota_text(old), quota_text(new))]
    } else {
        Seq::empty()
    }
}

/// The enrolled-first change, if the flag changes.
pub open spec fn prio_change(old: bool, new: bool) -> Seq<FieldView> {
    if old != new {
        seq![("재학생우선"@, prio_text(old), prio_text(new))]
    } else {
        Seq::empty()
    }
}

/// The last stored track among `0..n` named `name` (a later one shadows an earlier one).
pub open spec fn last_named(ts: Seq<TrackView>, name: Seq<char>, n: int) -> Option<TrackView>
    decreases n,
{
    if n <= 0 {
        None
    } else if ts[n - 1].0 == name {
        Some(ts[n - 1])
    } else {
        last_named(ts, name, n - 1)
    }
}

/// The entries for new tracks of a new university.
pub open spec fn create_tracks(univ: Seq<char>, ts: Seq<TrackView>, m: int) -> Seq<EntryView>
    decreases m,
{
    if m <= 0 {
        Seq::empty()
    } else {
        create_tracks(univ, ts, m - 1).push(
            ("track"@, "create"@, univ, Some(ts[m - 1].0), create_fields(ts[m - 1].1, ts[m - 1].2), false),
        )
    }
}

/// The entries for the file's tracks `0..m` of a stored university, and how
/// many of them are unchanged.
pub open spec fn file_track_entries(
    univ: Seq<char>,
    ts: Seq<TrackView>,
    curs: Seq<TrackView>,
    closed: bool,
    m: int,
) -> (Seq<EntryView>, nat)
    decreases m,
{
    if m <= 0 {
        (Seq::empty(), 0)
    } else {
        let prev = file_track_entries(univ, ts, curs, closed, m - 1);
        let t = ts[m - 1];
        match last_named(curs, t.0, curs.len() as int) {
            None => (prev.0.push(("track"@, "create"@, univ, Some(t.0), create_fields(t.1, t.2), false)), prev.1),
            Some(ct) => {
                let f = quota_change(ct.1, t.1) + prio_change(ct.2, t.2);
                if f.len() == 0 {
                    (prev.0, prev.1 + 1)
                } else {
                    (prev.0.push(("track"@, "update"@, univ, Some(t.0), f, closed && ct.2 != t.2)), prev.1)
                }
            },
        }
    }
}

/// The stored tracks `0..m` that are not in the file and whose flag the
/// university's new flag `p` flips.
pub open spec fn cascade_entries(
    univ: Seq<char>,
    ts: Seq<TrackView>,
    curs: Seq<TrackView>,
    p: bool,
    closed: bool,
    m: int,
) -> Seq<EntryView>
    decreases m,
{
    if m <= 0 {
        Seq::empty()
    } else {
        let prev = cascade_entries(univ, ts, curs, p, closed, m - 1);
        let ct = curs[m - 1];
        if !has_track(ts, ct.0) && ct.2 != p {
            prev.push(("cascade"@, "update"@, univ, Some(ct.0), seq![("재학생우선"@, prio_text(ct.2), prio_text(p))], closed))
        } else {
            prev
        }
    }
}

/// The entries for one university of the file, and how many of its items
/// are unchanged.
pub open spec fn univ_entries(
    u: (Seq<char>, Option<i64>, bool, Seq<TrackView>),
    cur: Option<(Option<i64>, bool, Seq<TrackView>)>,
    closed: bool,
) -> (Seq<EntryView>, nat) {
    match cur {
        None => (
            seq![("univ"@, "create"@, u.0, None, create_fields(u.1, u.2), false)] + create_tracks(u.0, u.3, u.3.len() as int),
            0,
        ),
        Some(c) => {
            let f = quota_change(c.0, u.1) + prio_change(c.1, u.2);
            let changed = c.1 != u.2;
            let head: Seq<EntryView> = if f.len() == 0 {
                Seq::empty()
            } else {
                seq![("univ"@, "update"@, u.0, None, f, closed && changed)]
            };
            let n0: nat = if f.len() == 0 {
                1
            } else {
                0
            };
            let te = file_track_entries(u.0, u.3, c.2, closed, u.3.len() as int);
            let ce = if changed {
                cascade_entries(u.0, u.3, c.2, u.2, closed, c.2.len() as int)
            } else {
                Seq::empty()
            };
            (head + te.0 + ce, n0 + te.1)
        },
    }
}

/// A stored university as plain values: `(quota, enrolled-first, tracks)`.
pub open spec fn current_view(c: Option<CurrentUniv>) -> Option<(Option<i64>, bool, Seq<TrackView>)> {
    match c {
        Some(c) => Some((c.univ.total_quota, c.univ.prioritize_enrolled == 1, cur_tracks_view(c.tracks@))),
        None => None,
    }
}

/// The entries of universities `0..k` of the file, and the unchanged count.
pub open spec fn all_entries(
    us: Seq<(Seq<char>, Option<i64>, bool, Seq<TrackView>)>,
    curs: Seq<Option<(Option<i64>, bool, Seq<TrackView>)>>,
    closed: bool,
    k: int,
) -> (Seq<EntryView>, nat)
    decreases k,
{
    if k <= 0 {
        (Seq::empty(), 0)
    } else {
        let prev = all_entries(us, curs, closed, k - 1);
        let e = univ_entries(us[k - 1], curs[k - 1], closed);
        (prev.0 + e.0, prev.1 + e.1)
    }
}

fn text(lit: &str) -> (s: String)
    ensures
        s@ == lit@,
{
    string_of(&chars_of(lit))
}

fn prio_string(v: bool) -> (s: String)
    ensures
        s@ == prio_text(v),
{
    text(fmt_prio(v))
}

fn create_fields_exec(q: Option<i64>, p: bool) -> (r: Vec<FieldChange>)
    ensures
        r@.map_values(|f: FieldChange| field_view(f)) == create_fields(q, p),
{
    let mut r: Vec<FieldChange> = Vec::new();
    r.push(FieldChange { field: text("정원"), old: text("—"), new: quota_display(q) });
    r.push(FieldChange { field: text("재학생우선"), old: text("—"), new: prio_string(p) });
    assert(r@.map_values(|f: FieldChange| field_view(f)) =~= create_fields(q, p));
    r
}

fn same_quota(a: Option<i64>, b: Option<i64>) -> (r: bool)
    ensures
        r == (a == b),
{
    match (a, b) {
        (Some(x), Some(y)) => x == y,
        (None, None) => true,
        _ => false,
    }
}

fn change_fields(oq: Option<i64>, nq: Option<i64>, op: bool, np: bool) -> (r: Vec<FieldChange>)
    ensures
        r@.map_values(|f: FieldChange| field_view(f)) == quota_change(oq, nq) + prio_change(op, np),
{
    let mut r: Vec<FieldChange> = Vec::new();
    if !same_quota(oq, nq) {
        r.push(FieldChange { field: text("정원"), old: quota_display(oq), new: quota_display(nq) });
    }
    if op != np {
        r.push(FieldChange { field: text("재학생우선"), old: prio_string(op), new: prio_string(np) });
    }
    assert(r@.map_values(|f: FieldChange| field_view(f)) =~= quota_change(oq, nq) + prio_change(op, np));
    r
}

fn last_named_index(curs: &Vec<TrackRow>, name: &Vec<char>) -> (r: Option<usize>)
    ensures
        match r {
            Some(i) => i < curs@.len() && last_named(cur_tracks_view(curs@), name@, curs@.len() as int) == Some(
                cur_track_view(curs@[i as int]),
            ),
            None => last_named(cur_tracks_view(curs@), name@, curs@.len() as int) is None,
        },
{
    let ghost cv = cur_tracks_view(curs@);
    let mut i: usize = curs.len();
    while i > 0
        invariant
            cv == cur_tracks_view(curs@),
            i <= curs@.len(),
            last_named(cv, name@, curs@.len() as int) == last_named(cv, name@, i as int),
        decreases i,
    {
        assert(cv[i - 1] == cur_track_view(curs@[i - 1]));
        if chars_equal(&chars_of(curs[i - 1].track_name.as_str()), name) {
            return Some(i - 1);
        }
        i = i - 1;
    }
    None
}

fn entry(kind: &str, op: &str, univ: &String, track: Option<String>, fields: Vec<FieldChange>, blocked: bool) -> (e:
    SettingsDiffEntry)
    ensures
        entry_view(e) == (
            kind@,
            op@,
            univ@,
            match track {
                Some(n) => Some(n@),
                None => None::<Seq<char>>,
            },
            fields@.map_values(|f: FieldChange| field_view(f)),
            blocked,
        ),
{
    SettingsDiffEntry { kind: text(kind), op: text(op), univ_name: univ.clone(), track_name: track, fields, blocked }
}

proof fn lemma_file_track_unchanged(univ: Seq<char>, ts: Seq<TrackView>, curs: Seq<TrackView>, closed: bool, m: int)
    requires
        0 <= m,
    ensures
        file_track_entries(univ, ts, curs, closed, m).1 <= m,
    decreases m,
{
    if m > 0 {
        lemma_file_track_unchanged(univ, ts, curs, closed, m - 1);
    }
}

/// The number of universities and tracks of the file among universities `0..k`.
pub open spec fn item_count(us: Seq<(Seq<char>, Option<i64>, bool, Seq<TrackView>)>, k: int) -> nat
    decreases k,
{
    if k <= 0 {
        0
    } else {
        item_count(us, k - 1) + 1 + us[k - 1].3.len()
    }
}

pub open spec fn univs_view(us: Seq<UnivSpec>) -> Seq<(Seq<char>, Option<i64>, bool, Seq<TrackView>)> {
    us.map_values(|u: UnivSpec| univ_view(u))
}

pub open spec fn currents_view(cs: Seq<Option<CurrentUniv>>) -> Seq<Option<(Option<i64>, bool, Seq<TrackView>)>> {
    cs.map_values(|c: Option<CurrentUniv>| current_view(c))
}

fn univ_entries_exec(
    out: &mut Vec<SettingsDiffEntry>,
    u: &UnivSpec,
    cur: &Option<CurrentUniv>,
    closed: bool,
) -> (unchanged: usize)
    requires
        u.tracks@.len() < usize::MAX,
    ensures
        ({
            let e = univ_entries(univ_view(*u), current_view(*cur), closed);
            &&& final(out)@.map_values(|x: SettingsDiffEntry| entry_view(x)) == old(out)@.map_values(
                |x: SettingsDiffEntry| entry_view(x),
            ) + e.0
            &&& unchanged == e.1
            &&& e.1 <= 1 + u.tracks@.len()
        }),
{
    let ghost o0 = out@.map_values(|x: SettingsDiffEntry| entry_view(x));
    let ghost uv = univ_view(*u);
    let nt = u.tracks.len();
    match cur {
        None => {
            out.push(entry("univ", "create", &u.univ_name, None, create_fields_exec(u.total_quota, u.prioritize), false));
            let mut j: usize = 0;
            while j < nt
                invariant
                    nt == u.tracks@.len(),
                    uv == univ_view(*u),
                    j <= nt,
                    out@.map_values(|x: SettingsDiffEntry| entry_view(x)) == o0 + seq![
                        ("univ"@, "create"@, uv.0, None::<Seq<char>>, create_fields(uv.1, uv.2), false),
                    ] + create_tracks(uv.0, uv.3, j as int),
                decreases nt - j,
            {
                let t = &u.tracks[j];
                assert(uv.3[j as int] == track_view(*t));
                let ghost before = out@.map_values(|x: SettingsDiffEntry| entry_view(x));
                out.push(
                    entry(
                        "track",
                        "create",
                        &u.univ_name,
                        Some(t.track_name.clone()),
                        create_fields_exec(t.unit_quota, t.prioritize),
                        false,
                    ),
                );
                assert(out@.map_values(|x: SettingsDiffEntry| entry_view(x)) =~= before.push(
                    ("track"@, "create"@, uv.0, Some(uv.3[j as int].0), create_fields(uv.3[j as int].1, uv.3[j as int].2), false),
                ));
                j = j + 1;
            }
            assert(out@.map_values(|x: SettingsDiffEntry| entry_view(x)) =~= o0 + univ_entries(uv, current_view(*cur), closed).0);
            0
        },
        Some(c) => {
            let cur_prio = c.univ.prioritize_enrolled == 1;
            let ghost cv = cur_tracks_view(c.tracks@);
            let f = change_fields(c.univ.total_quota, u.total_quota, cur_prio, u.prioritize);
            let changed = cur_prio != u.prioritize;
            let mut unchanged: usize = 0;
            if f.len() == 0 {
                unchanged = 1;
            } else {
                out.push(entry("univ", "update", &u.univ_name, None, f, closed && changed));
            }
            let ghost after_head = out@.map_values(|x: SettingsDiffEntry| entry_view(x));
            let ghost head_count = unchanged as nat;
            let mut j: usize = 0;
            while j < nt
                invariant
                    nt == u.tracks@.len(),
                    uv == univ_view(*u),
                    cv == cur_tracks_view(c.tracks@),
                    nt < usize::MAX,
                    j <= nt,
                    unchanged <= 1 + j,
                    out@.map_values(|x: SettingsDiffEntry| entry_view(x)) == after_head + file_track_entries(
                        uv.0,
                        uv.3,
                        cv,
                        closed,
                        j as int,
                    ).0,
                    unchanged == head_count + file_track_entries(uv.0, uv.3, cv, closed, j as int).1,
                decreases nt - j,
            {
                let t = &u.tracks[j];
                assert(uv.3[j as int] == track_view(*t));
                proof {
                    lemma_file_track_unchanged(uv.0, uv.3, cv, closed, j as int);
                }
                let ghost before = out@.map_values(|x: SettingsDiffEntry| entry_view(x));
                match last_named_index(&c.tracks, &chars_of(t.track_name.as_str())) {
                    None => {
                        out.push(
                            entry(
                                "track",
                                "create",
                                &u.univ_name,
                                Some(t.track_name.clone()),
                                create_fields_exec(t.unit_quota, t.prioritize),
                                false,
                            ),
                        );
                        assert(out@.map_values(|x: SettingsDiffEntry| entry_view(x)) =~= before.push(
                            ("track"@, "create"@, uv.0, Some(uv.3[j as int].0), create_fields(uv.3[j as int].1, uv.3[j as int].2), false),
                        ));
                    },
                    Some(ci) => {
                        let ct = &c.tracks[ci];
                        let ct_prio = ct.prioritize_enrolled == 1;
                        let tf = change_fields(ct.unit_quota, t.unit_quota, ct_prio, t.prioritize);
                        if tf.len() == 0 {
                            unchanged = unchanged + 1;
                        } else {
                            let ghost tfv = tf@.map_values(|f: FieldChange| field_view(f));
                            out.push(
                                entry(
                                    "track",
                                    "update",
                                    &u.univ_name,
                                    Some(t.track_name.clone()),
                                    tf,
                                    closed && ct_prio != t.prioritize,
                                ),
                            );
                            assert(out@.map_values(|x: SettingsDiffEntry| entry_view(x)) =~= before.push(
                                ("track"@, "update"@, uv.0, Some(uv.3[j as int].0), tfv, closed && ct_prio != t.prioritize),
                            ));
                        }
                    },
                }
                j = j + 1;
            }
            let ghost after_tracks = out@.map_values(|x: SettingsDiffEntry| entry_view(x));
            if changed {
                let nc = c.tracks.len();
                let mut k: usize = 0;
                while k < nc
                    invariant
                        nc == c.tracks@.len(),
                        uv == univ_view(*u),
                        cv == cur_tracks_view(c.tracks@),
                        k <= nc,
                        out@.map_values(|x: SettingsDiffEntry| entry_view(x)) == after_tracks + cascade_entries(
                            uv.0,
                            uv.3,
                            cv,
                            uv.2,
                            closed,
                            k as int,
                        ),
                    decreases nc - k,
                {
                    let ct = &c.tracks[k];
                    assert(cv[k as int] == cur_track_view(*ct));
                    let ct_prio = ct.prioritize_enrolled == 1;
                    let in_file = has_track_exec(&u.tracks, &chars_of(ct.track_name.as_str()));
                    if !in_file && ct_prio != u.prioritize {
                        let mut fs: Vec<FieldChange> = Vec::new();
                        fs.push(FieldChange { field: text("재학생우선"), old: prio_string(ct_prio), new: prio_string(u.prioritize) });
                        let ghost fsv = fs@.map_values(|f: FieldChange| field_view(f));
                        assert(fsv =~= seq![("재학생우선"@, prio_text(ct_prio), prio_text(u.prioritize))]);
                        let ghost before = out@.map_values(|x: SettingsDiffEntry| entry_view(x));
                        out.push(entry("cascade", "update", &u.univ_name, Some(ct.track_name.clone()), fs, closed));
                        assert(out@.map_values(|x: SettingsDiffEntry| entry_view(x)) =~= before.push(
                            ("cascade"@, "update"@, uv.0, Some(cv[k as int].0), fsv, closed),
                        ));
                    }
                    k = k + 1;
                }
            }
            proof {
                lemma_file_track_unchanged(uv.0, uv.3, cv, closed, nt as int);
            }
            assert(out@.map_values(|x: SettingsDiffEntry| entry_view(x)) =~= o0 + univ_entries(uv, current_view(*cur), closed).0);
            unchanged
        },
    }
}

proof fn lemma_unchanged_bound(
    us: Seq<(Seq<char>, Option<i64>, bool, Seq<TrackView>)>,
    curs: Seq<Option<(Option<i64>, bool, Seq<TrackView>)>>,
    closed: bool,
    k: int,
)
    requires
        0 <= k <= us.len(),
        forall|i: int| 0 <= i < us.len() ==> univ_entries(us[i], curs[i], closed).1 <= 1 + us[i].3.len(),
    ensures
        all_entries(us, curs, closed, k).1 <= item_count(us, k),
    decreases k,
{
    if k > 0 {
        lemma_unchanged_bound(us, curs, closed, k - 1);
    }
}

/// Compares parsed settings with the stored ones (`current[i]` is the stored
/// university named like `specs[i]`, if any). New universities and tracks are
/// created; changed quotas and flags are updated; stored tracks missing from
/// the file follow a changed university flag (a cascade). While a round is
/// closed (`closed_round_labels` not empty), changes of enrolled-first flags
/// are blocked.
pub fn compute_settings_changes(
    specs: &Vec<UnivSpec>,
    current: &Vec<Option<CurrentUniv>>,
    closed_round_labels: Vec<String>,
) -> (r: SettingsPreview)
    requires
        current@.len() == specs@.len(),
        item_count(univs_view(specs@), specs@.len() as int) <= usize::MAX,
    ensures
        ({
            let e = all_entries(
                univs_view(specs@),
                currents_view(current@),
                closed_round_labels@.len() > 0,
                specs@.len() as int,
            );
            &&& r.errors@.len() == 0
            &&& r.changes@.map_values(|x: SettingsDiffEntry| entry_view(x)) == e.0
            &&& r.unchanged_count == e.1
            &&& r.closed_round_labels@ == closed_round_labels@
            &&& r.has_blocked == exists|i: int| 0 <= i < e.0.len() && (#[trigger] e.0[i]).5
        }),
{
    let closed = closed_round_labels.len() > 0;
    let ghost us = univs_view(specs@);
    let ghost cs = currents_view(current@);
    let n = specs.len();
    let mut changes: Vec<SettingsDiffEntry> = Vec::new();
    let mut unchanged: usize = 0;
    let mut k: usize = 0;
    assert(changes@.map_values(|x: SettingsDiffEntry| entry_view(x)) =~= Seq::<EntryView>::empty());
    while k < n
        invariant
            n == specs@.len(),
            current@.len() == n,
            us == univs_view(specs@),
            cs == currents_view(current@),
            item_count(us, n as int) <= usize::MAX,
            k <= n,
            changes@.map_values(|x: SettingsDiffEntry| entry_view(x)) == all_entries(us, cs, closed, k as int).0,
            unchanged == all_entries(us, cs, closed, k as int).1,
            unchanged <= item_count(us, k as int),
        decreases n - k,
    {
        assert(us[k as int] == univ_view(specs@[k as int]));
        assert(cs[k as int] == current_view(current@[k as int]));
        proof {
            lemma_item_count_mono(us, k + 1, n as int);
        }
        let add = univ_entries_exec(&mut changes, &specs[k], &current[k], closed);
        proof {
            assert(item_count(us, k + 1) == item_count(us, k as int) + 1 + us[k as int].3.len());
            crate::settings::lemma_item_count_mono(us, k + 1, n as int);
        }
        unchanged = unchanged + add;
        k = k + 1;
    }
    let mut has_blocked = false;
    let mut i: usize = 0;
    let ghost ev = changes@.map_values(|x: SettingsDiffEntry| entry_view(x));
    while i < changes.len()
        invariant
            ev == changes@.map_values(|x: SettingsDiffEntry| entry_view(x)),
            i <= changes@.len(),
            has_blocked == exists|j: int| 0 <= j < i && (#[trigger] ev[j]).5,
        decreases changes@.len() - i,
    {
        assert(ev[i as int].5 == changes@[i as int].blocked);
        if changes[i].blocked {
            has_blocked = true;
        }
        i = i + 1;
    }
    SettingsPreview {
        errors: Vec::new(),
        changes,
        unchanged_count: unchanged,
        closed_round_labels,
        has_blocked,
    }
}

proof fn lemma_item_count_mono(us: Seq<(Seq<char>, Option<i64>, bool, Seq<TrackView>)>, m: int, n: int)
    requires
        0 <= m <= n,
    ensures
        item_count(us, m) <= item_count(us, n),
    decreases n - m,
{
    if m < n {
        lemma_item_count_mono(us, m, n - 1);
    }
}

proof fn lemma_find_acc(accs: Seq<AccView>, name: Seq<char>, i: int)
    requires
        0 <= i,
    ensures
        match find_acc(accs, name, i) {
            Some(x) => i <= x < accs.len() && accs[x].0 == name && forall|y: int| i <= y < x ==> (#[trigger] accs[y]).0 != name,
            None => forall|y: int| i <= y < accs.len() ==> (#[trigger] accs[y]).0 != name,
        },
    decreases accs.len() - i,
{
    if i < accs.len() && accs[i].0 != name {
        lemma_find_acc(accs, name, i + 1);
    }
}

proof fn lemma_find_acc_same(a1: Seq<AccView>, a2: Seq<AccView>, name: Seq<char>, i: int)
    requires
        a1.len() == a2.len(),
        forall|y: int| 0 <= y < a1.len() ==> (#[trigger] a1[y]).0 == a2[y].0,
    ensures
        find_acc(a1, name, i) == find_acc(a2, name, i),
    decreases a1.len() - i,
{
    if 0 <= i < a1.len() && a1[i].0 != name {
        lemma_find_acc_same(a1, a2, name, i + 1);
    }
}

proof fn lemma_find_acc_push(accs: Seq<AccView>, a: AccView, name: Seq<char>, i: int)
    requires
        0 <= i <= accs.len(),
    ensures
        find_acc(accs.push(a), name, i) == match find_acc(accs, name, i) {
            Some(y) => Some(y),
            None => if a.0 == name { Some(accs.len() as int) } else { None },
        },
    decreases accs.len() - i,
{
    if i < accs.len() {
        assert(accs.push(a)[i] == accs[i]);
        if accs[i].0 != name {
            lemma_find_acc_push(accs, a, name, i + 1);
        }
    } else {
        assert(accs.push(a)[i] == a);
        assert(find_acc(accs.push(a), name, i + 1) is None);
    }
}

/// A row names a university with readable values, and the university read
/// under that name carries the row's quota and flag, and the row's track.
pub open spec fn row_ok(c: Seq<Seq<char>>, h: Seq<Seq<char>>, accs: Seq<AccView>) -> bool {
    let un = cell(c, h, "대학명"@);
    &&& un.len() > 0
    &&& spec_parse_quota(cell(c, h, "대학 정원"@)) is Ok
    &&& spec_parse_prio(cell(c, h, "대학 재학생우선"@)) is Ok
    &&& find_acc(accs, un, 0) is Some
    &&& accs[find_acc(accs, un, 0)->0].1 == spec_parse_quota(cell(c, h, "대학 정원"@))->Ok_0
    &&& accs[find_acc(accs, un, 0)->0].2 == spec_parse_prio(cell(c, h, "대학 재학생우선"@))->Ok_0
    &&& cell(c, h, "모집단위명"@).len() > 0 ==> has_track(accs[find_acc(accs, un, 0)->0].4, cell(c, h, "모집단위명"@))
}

/// Every row `0..k` is `row_ok`.
pub open spec fn rows_agree(rows: Seq<Seq<Seq<char>>>, h: Seq<Seq<char>>, k: int, accs: Seq<AccView>) -> bool {
    forall|i: int| 0 <= i < k ==> row_ok(#[trigger] rows[i], h, accs)
}

/// No two rows `0..k` name the same track of the same university.
pub open spec fn no_repeated_track(rows: Seq<Seq<Seq<char>>>, h: Seq<Seq<char>>, k: int) -> bool {
    forall|i: int, j: int|
        0 <= i < j < k && cell(#[trigger] rows[i], h, "모집단위명"@).len() > 0 ==> !(cell(rows[i], h, "대학명"@) == cell(
            #[trigger] rows[j],
            h,
            "대학명"@,
        ) && cell(rows[i], h, "모집단위명"@) == cell(rows[j], h, "모집단위명"@))
}

proof fn lemma_has_track_push(ts: Seq<TrackView>, t: TrackView, name: Seq<char>)
    ensures
        has_track(ts.push(t), name) == (has_track(ts, name) || t.0 == name),
{
    if has_track(ts, name) {
        let j = choose|j: int| 0 <= j < ts.len() && (#[trigger] ts[j]).0 == name;
        assert(ts.push(t)[j] == ts[j]);
    }
    if t.0 == name {
        assert(ts.push(t)[ts.len() as int] == t);
    }
    if has_track(ts.push(t), name) {
        let j = choose|j: int| 0 <= j < ts.push(t).len() && (#[trigger] ts.push(t)[j]).0 == name;
        if j < ts.len() {
            assert(ts[j] == ts.push(t)[j]);
        }
    }
}

proof fn lemma_rows_agree(rows: Seq<Seq<Seq<char>>>, h: Seq<Seq<char>>, k: int)
    requires
        0 <= k <= rows.len(),
    ensures
        settings_rows(rows, h, k).0.len() == 0 ==> rows_agree(rows, h, k, settings_rows(rows, h, k).1)
            && no_repeated_track(rows, h, k),
    decreases k,
{
    if k > 0 {
        lemma_rows_agree(rows, h, k - 1);
        let prev = settings_rows(rows, h, k - 1);
        let c = rows[k - 1];
        let n = k + 1;
        let cur = settings_rows(rows, h, k);
        assert(cur == settings_row(prev.0, prev.1, c, h, n));
        let un = cell(c, h, "대학명"@);
        let tn = cell(c, h, "모집단위명"@);
        if cur.0.len() == 0 && un.len() > 0 {
            let uq = quota_field(cell(c, h, "대학 정원"@), n, "대학 정원이 비어 있습니다 (숫자 또는 '무제한')"@);
            let up = prio_field(cell(c, h, "대학 재학생우선"@), n, "대학 재학생우선이 비어 있습니다 ('예' 또는 '아니오')"@);
            let (te, track) = row_track(c, h, n);
            let e = prev.0 + err_list(uq) + err_list(up) + te;
            if uq is Ok && up is Ok {
                let q = uq->Ok_0;
                let p = up->Ok_0;
                let res = accumulate(e, prev.1, un, q, p, n, track);
                assert(res == cur);
                lemma_find_acc(prev.1, un, 0);
                assert(tn.len() > 0 ==> (track matches Some(tt) && tt.0 == tn)) by {
                    if tn.len() > 0 {
                        assert(te.len() == 0);
                    }
                }
                assert(tn.len() == 0 ==> track is None);
                match find_acc(prev.1, un, 0) {
                    None => {
                        assert(e.len() == 0);
                        let ts: Seq<TrackView> = match track {
                            Some(t) => seq![t],
                            None => Seq::empty(),
                        };
                        let a = (un, q, p, n, ts);
                        assert(cur.1 == prev.1.push(a));
                        if tn.len() > 0 {
                            assert(ts[0].0 == tn);
                        }
                        assert forall|i: int| 0 <= i < k implies row_ok(#[trigger] rows[i], h, cur.1) by {
                            let c2 = rows[i];
                            let un2 = cell(c2, h, "대학명"@);
                            lemma_find_acc_push(prev.1, a, un2, 0);
                            lemma_find_acc(prev.1, un2, 0);
                            if i < k - 1 {
                                assert(row_ok(rows[i], h, prev.1));
                                assert(prev.1.push(a)[find_acc(prev.1, un2, 0)->0] == prev.1[find_acc(prev.1, un2, 0)->0]);
                            } else {
                                assert(c2 == c);
                                assert(prev.1.push(a)[prev.1.len() as int] == a);
                            }
                        }
                        assert forall|i: int, j: int|
                            0 <= i < j < k && cell(#[trigger] rows[i], h, "모집단위명"@).len() > 0 implies !(cell(rows[i], h, "대학명"@)
                                == cell(#[trigger] rows[j], h, "대학명"@) && cell(rows[i], h, "모집단위명"@) == cell(rows[j], h, "모집단위명"@)) by {
                            if j == k - 1 && cell(rows[i], h, "대학명"@) == un {
                                assert(row_ok(rows[i], h, prev.1));
                            }
                        }
                    },
                    Some(x0) => {
                        let a = prev.1[x0];
                        assert(e.len() == 0);
                        assert(a.1 == q && a.2 == p);
                        let e2 = e;
                        if tn.len() > 0 {
                            assert(!has_track(a.4, tn));
                            let t = track->0;
                            assert(cur.1 == prev.1.update(x0, (a.0, a.1, a.2, a.3, a.4.push(t))));
                            lemma_has_track_push(a.4, t, tn);
                        } else {
                            assert(cur.1 == prev.1);
                        }
                        assert(cur.1.len() == prev.1.len());
                        assert forall|y: int| 0 <= y < prev.1.len() implies (#[trigger] prev.1[y]).0 == cur.1[y].0
                            && prev.1[y].1 == cur.1[y].1 && prev.1[y].2 == cur.1[y].2 by {}
                        assert forall|i: int| 0 <= i < k implies row_ok(#[trigger] rows[i], h, cur.1) by {
                            let c2 = rows[i];
                            let un2 = cell(c2, h, "대학명"@);
                            let tn2 = cell(c2, h, "모집단위명"@);
                            lemma_find_acc_same(prev.1, cur.1, un2, 0);
                            lemma_find_acc(prev.1, un2, 0);
                            if i < k - 1 {
                                assert(row_ok(rows[i], h, prev.1));
                                let x = find_acc(prev.1, un2, 0)->0;
                                if x == x0 && tn.len() > 0 && tn2.len() > 0 {
                                    lemma_has_track_push(a.4, track->0, tn2);
                                }
                            } else {
                                assert(c2 == c);
                            }
                        }
                        assert forall|i: int, j: int|
                            0 <= i < j < k && cell(#[trigger] rows[i], h, "모집단위명"@).len() > 0 implies !(cell(rows[i], h, "대학명"@)
                                == cell(#[trigger] rows[j], h, "대학명"@) && cell(rows[i], h, "모집단위명"@) == cell(rows[j], h, "모집단위명"@)) by {
                            if j == k - 1 && cell(rows[i], h, "대학명"@) == un && cell(rows[i], h, "모집단위명"@) == tn {
                                assert(row_ok(rows[i], h, prev.1));
                            }
                        }
                    },
                }
            } else {
                assert(cur == (e, prev.1));
                assert(e.len() > 0);
            }
        }
    }
}

/// Law (a university has one quota and one flag): the settings sheet is read
/// only when every row naming the same university gives it the same quota and
/// the same enrolled-first flag, and no two rows name the same track of the
/// same university; each row's university is then in the result with the
/// row's quota and flag.
pub proof fn law_settings_one_value_per_university(h: Seq<Seq<char>>, rows: Seq<Seq<Seq<char>>>)
    ensures
        settings_result(h, rows) is Ok ==> forall|i: int, j: int|
            0 <= i < rows.len() && 0 <= j < rows.len() && cell(#[trigger] rows[i], h, "대학명"@) == cell(
                #[trigger] rows[j],
                h,
                "대학명"@,
            ) ==> spec_parse_quota(cell(rows[i], h, "대학 정원"@)) == spec_parse_quota(cell(rows[j], h, "대학 정원"@))
                && spec_parse_prio(cell(rows[i], h, "대학 재학생우선"@)) == spec_parse_prio(cell(rows[j], h, "대학 재학생우선"@)),
        settings_result(h, rows) matches Ok(us) ==> forall|i: int|
            0 <= i < rows.len() ==> exists|x: int|
                0 <= x < us.len() && (#[trigger] us[x]).0 == cell(#[trigger] rows[i], h, "대학명"@)
                    && spec_parse_quota(cell(rows[i], h, "대학 정원"@)) == Ok::<Option<i64>, Seq<char>>(us[x].1)
                    && spec_parse_prio(cell(rows[i], h, "대학 재학생우선"@)) == Ok::<bool, Seq<char>>(us[x].2),
        settings_result(h, rows) is Ok ==> no_repeated_track(rows, h, rows.len() as int),
{
    if settings_result(h, rows) is Ok {
        let (errs, accs) = settings_rows(rows, h, rows.len() as int);
        assert(errs.len() == 0);
        lemma_rows_agree(rows, h, rows.len() as int);
        let us = settings_result(h, rows)->Ok_0;
        assert forall|i: int| 0 <= i < rows.len() implies exists|x: int|
            0 <= x < us.len() && (#[trigger] us[x]).0 == cell(#[trigger] rows[i], h, "대학명"@)
                && spec_parse_quota(cell(rows[i], h, "대학 정원"@)) == Ok::<Option<i64>, Seq<char>>(us[x].1)
                && spec_parse_prio(cell(rows[i], h, "대학 재학생우선"@)) == Ok::<bool, Seq<char>>(us[x].2) by {
            let un = cell(rows[i], h, "대학명"@);
            assert(row_ok(rows[i], h, accs));
            lemma_find_acc(accs, un, 0);
            let x = find_acc(accs, un, 0)->0;
            assert(us[x] == (accs[x].0, accs[x].1, accs[x].2, accs[x].4));
        }
        assert forall|i: int, j: int|
            0 <= i < rows.len() && 0 <= j < rows.len() && cell(#[trigger] rows[i], h, "대학명"@) == cell(
                #[trigger] rows[j],
                h,
                "대학명"@,
            ) implies spec_parse_quota(cell(rows[i], h, "대학 정원"@)) == spec_parse_quota(cell(rows[j], h, "대학 정원"@))
                && spec_parse_prio(cell(rows[i], h, "대학 재학생우선"@)) == spec_parse_prio(cell(rows[j], h, "대학 재학생우선"@)) by {
            assert(rows_agree(rows, h, rows.len() as int, accs));
            assert(row_ok(rows[i], h, accs) && row_ok(rows[j], h, accs));
        }
    }
}

} // verus!
