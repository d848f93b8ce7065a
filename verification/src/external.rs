//! Rank lists exported by outside programs (the council's `.xlsx` form and
//! the "univ" `.xls` form): reading their rows, and the rules of importing
//! their grades as base data of one track.
use vstd::prelude::*;
use crate::display::{parse_display_value, spec_parse_display};
use crate::enums::{CalcType, LookupScope};
use crate::guards::{is_refusal, refuse, Refusal};
use crate::imports::{int_cell, position_text, row_head, track_created_info, ImportResult};
use crate::sheet::{cell_of, column_index, get_col, texts};
use crate::text::{append_str, chars_equal, chars_of, i64_text, int_text, push_all, push_decimal, parse_i64, string_of, trim, trim_chars};

verus! {

/// A rank list read from a file: the university it names, the header of
/// its value column, its information lines, and its records
/// `(sheet line, [grade, class, number, name, value])`.
#[derive(Debug, Clone)]
pub struct ParsedFile {
    pub univ_name: String,
    pub value_header: String,
    pub header_info: String,
    pub records: Vec<(usize, Vec<String>)>,
}

/// What the preview of a rank list shows.
#[derive(Debug, Clone)]
pub struct ExternalPreview {
    pub univ_name: String,
    pub value_header: String,
    pub header_info: String,
    /// The first five records.
    pub preview: Vec<Vec<String>>,
    pub total: usize,
}

/// Every cell of a row is empty.
pub open spec fn blank_row(r: Seq<Seq<char>>) -> bool {
    forall|k: int| 0 <= k < r.len() ==> (#[trigger] r[k]).len() == 0
}

fn is_blank_row(r: &Vec<String>) -> (b: bool)
    ensures
        b == blank_row(texts(r@)),
{
    let ghost rv = texts(r@);
    let mut k: usize = 0;
    while k < r.len()
        invariant
            rv == texts(r@),
            k <= r@.len(),
            forall|j: int| 0 <= j < k ==> (#[trigger] rv[j]).len() == 0,
        decreases r@.len() - k,
    {
        assert(rv[k as int] == r@[k as int]@);
        if chars_of(r[k].as_str()).len() > 0 {
            return false;
        }
        k = k + 1;
    }
    true
}

/// The cell at `(i, j)`, empty when missing.
pub open spec fn raw_cell(rows: Seq<Seq<Seq<char>>>, i: int, j: int) -> Seq<char> {
    if 0 <= i < rows.len() && 0 <= j < rows[i].len() {
        rows[i][j]
    } else {
        Seq::empty()
    }
}

fn raw_cell_exec(rows: &Vec<Vec<String>>, i: usize, j: usize) -> (s: String)
    ensures
        s@ == raw_cell(rows@.map_values(|r: Vec<String>| texts(r@)), i as int, j as int),
{
    if i < rows.len() && j < rows[i].len() {
        assert(rows@.map_values(|r: Vec<String>| texts(r@))[i as int] == texts(rows@[i as int]@));
        rows[i][j].clone()
    } else {
        String::new()
    }
}

/// The `k`-th field of `s` split at `sep` (empty when there are fewer fields).
pub open spec fn split_field(s: Seq<char>, sep: char, k: nat) -> Seq<char>
    decreases s.len(),
{
    if s.len() == 0 {
        Seq::empty()
    } else if s[0] == sep {
        if k == 0 {
            Seq::empty()
        } else {
            split_field(s.subrange(1, s.len() as int), sep, (k - 1) as nat)
        }
    } else if k == 0 {
        seq![s[0]] + split_field(s.subrange(1, s.len() as int), sep, 0)
    } else {
        split_field(s.subrange(1, s.len() as int), sep, k)
    }
}

fn second_field(s: &Vec<char>, sep: char) -> (r: Vec<char>)
    ensures
        r@ == split_field(s@, sep, 1),
{
    let n = s.len();
    let mut i: usize = 0;
    assert(s@.subrange(0, n as int) =~= s@);
    // skip the first field
    while i < n && s[i] != sep
        invariant
            n == s@.len(),
            i <= n,
            split_field(s@, sep, 1) == split_field(s@.subrange(i as int, n as int), sep, 1),
        decreases n - i,
    {
        assert(s@.subrange(i as int, n as int).subrange(1, (n - i) as int) =~= s@.subrange(i + 1, n as int));
        i = i + 1;
    }
    let mut out: Vec<char> = Vec::new();
    if i == n {
        assert(s@.subrange(i as int, n as int) =~= Seq::<char>::empty());
        return out;
    }
    assert(s@.subrange(i as int, n as int).subrange(1, (n - i) as int) =~= s@.subrange(i + 1, n as int));
    i = i + 1;
    // collect the second field
    while i < n && s[i] != sep
        invariant
            n == s@.len(),
            i <= n,
            split_field(s@, sep, 1) == out@ + split_field(s@.subrange(i as int, n as int), sep, 0),
        decreases n - i,
    {
        assert(s@.subrange(i as int, n as int).subrange(1, (n - i) as int) =~= s@.subrange(i + 1, n as int));
        out.push(s[i]);
        i = i + 1;
        assert(split_field(s@, sep, 1) =~= out@ + split_field(s@.subrange(i as int, n as int), sep, 0));
    }
    if i == n {
        assert(s@.subrange(i as int, n as int) =~= Seq::<char>::empty());
    }
    out
}

/// The record of one data row: the five named cells.
pub open spec fn record_of(r: Seq<Seq<char>>, h: Seq<Seq<char>>, value_col: Seq<char>) -> Seq<Seq<char>> {
    seq![cell_of(r, h, "학년"@), cell_of(r, h, "반"@), cell_of(r, h, "번호"@), cell_of(r, h, "이름"@), cell_of(r, h, value_col)]
}

/// The value column of a council-form row: the general grade when the
/// converted score is `"미제공"` (not provided), else the converted grade.
pub open spec fn daegyo_value_col(r: Seq<Seq<char>>, h: Seq<Seq<char>>) -> Seq<char> {
    if cell_of(r, h, "내점수(환산)"@) == "미제공"@ {
        "일반등급"@
    } else {
        "내등급(환산)"@
    }
}

/// The records of the data rows from `start` up to `n` (blank rows skipped).
pub open spec fn data_records(
    rows: Seq<Seq<Seq<char>>>,
    h: Seq<Seq<char>>,
    start: int,
    n: int,
    daegyo: bool,
) -> Seq<(int, Seq<Seq<char>>)>
    decreases n - start,
{
    if n <= start {
        Seq::empty()
    } else {
        let prev = data_records(rows, h, start, n - 1, daegyo);
        let r = rows[n - 1];
        if blank_row(r) {
            prev
        } else {
            prev.push((n, record_of(r, h, if daegyo { daegyo_value_col(r, h) } else { "등급"@ })))
        }
    }
}

pub open spec fn parsed_records_view(v: Seq<(usize, Vec<String>)>) -> Seq<(int, Seq<Seq<char>>)> {
    v.map_values(|p: (usize, Vec<String>)| (p.0 as int, texts(p.1@)))
}

fn collect_records(rows: &Vec<Vec<String>>, header: &Vec<String>, start: usize, daegyo: bool) -> (r: Vec<(usize, Vec<String>)>)
    requires
        rows@.len() < usize::MAX,
    ensures
        parsed_records_view(r@) == data_records(
            rows@.map_values(|x: Vec<String>| texts(x@)),
            texts(header@),
            start as int,
            rows@.len() as int,
            daegyo,
        ),
{
    let ghost rv = rows@.map_values(|x: Vec<String>| texts(x@));
    let ghost h = texts(header@);
    let mut out: Vec<(usize, Vec<String>)> = Vec::new();
    let mut i: usize = 0;
    while i < rows.len()
        invariant
            rv == rows@.map_values(|x: Vec<String>| texts(x@)),
            h == texts(header@),
            rows@.len() < usize::MAX,
            i <= rows@.len(),
            parsed_records_view(out@) == data_records(rv, h, start as int, i as int, daegyo),
        decreases rows@.len() - i,
    {
        let row = &rows[i];
        assert(rv[i as int] == texts(row@));
        if i >= start && !is_blank_row(row) {
            let vcol: &str = if daegyo {
                if crate::text::str_is(get_col(row, header, "내점수(환산)").as_str(), "미제공") {
                    "일반등급"
                } else {
                    "내등급(환산)"
                }
            } else {
                "등급"
            };
            let mut rec: Vec<String> = Vec::new();
            rec.push(get_col(row, header, "학년"));
            rec.push(get_col(row, header, "반"));
            rec.push(get_col(row, header, "번호"));
            rec.push(get_col(row, header, "이름"));
            rec.push(get_col(row, header, vcol));
            let ghost before = parsed_records_view(out@);
            assert(texts(rec@) =~= record_of(rv[i as int], h, if daegyo { daegyo_value_col(rv[i as int], h) } else { "등급"@ }));
            out.push((i + 1, rec));
            assert(parsed_records_view(out@) =~= before.push(((i + 1) as int, texts(rec@))));
        } else {
            if i < start {
                assert(data_records(rv, h, start as int, i + 1, daegyo) == data_records(rv, h, start as int, i as int, daegyo));
            }
        }
        i = i + 1;
    }
    out
}

pub open spec fn rows_of(rows: Seq<Vec<String>>) -> Seq<Seq<Seq<char>>> {
    rows.map_values(|r: Vec<String>| texts(r@))
}

/// The header row at index `i`, empty when missing.
pub open spec fn row_at(rows: Seq<Seq<Seq<char>>>, i: int) -> Seq<Seq<char>> {
    if 0 <= i < rows.len() {
        rows[i]
    } else {
        Seq::empty()
    }
}

fn row_at_exec(rows: &Vec<Vec<String>>, i: usize) -> (r: Vec<String>)
    ensures
        texts(r@) == row_at(rows_of(rows@), i as int),
{
    if i < rows.len() {
        assert(rows_of(rows@)[i as int] == texts(rows@[i as int]@));
        let mut out: Vec<String> = Vec::new();
        let mut k: usize = 0;
        while k < rows[i].len()
            invariant
                i < rows@.len(),
                k <= rows@[i as int]@.len(),
                texts(out@) == texts(rows@[i as int]@).take(k as int),
            decreases rows@[i as int]@.len() - k,
        {
            let c = rows[i][k].clone();
            assert(c == rows@[i as int]@[k as int]);
            let ghost before = texts(out@);
            out.push(c);
            assert(texts(out@) =~= before.push(c@));
            assert(texts(rows@[i as int]@)[k as int] == c@);
            k = k + 1;
            assert(texts(out@) =~= texts(rows@[i as int]@).take(k as int));
        }
        assert(texts(rows@[i as int]@).take(k as int) =~= texts(rows@[i as int]@));
        out
    } else {
        let out: Vec<String> = Vec::new();
        assert(texts(out@) =~= Seq::<Seq<char>>::empty());
        out
    }
}

/// The columns the council form must have.
pub open spec fn daegyo_cols() -> Seq<Seq<char>> {
    seq!["학년"@, "반"@, "번호"@, "이름"@, "일반등급"@, "내점수(환산)"@, "내등급(환산)"@]
}

/// The columns the "univ" form must have.
pub open spec fn univ_cols() -> Seq<Seq<char>> {
    seq!["학년"@, "반"@, "번호"@, "이름"@, "등급"@]
}

/// The council form: line 1 is `"region-university(campus)-type-…"`, line 2
/// the header, the data from line 3; the value is the converted grade, or
/// the general grade where the converted score is not provided.
/// `Ok((university, information, records))`.
pub open spec fn daegyo_spec(rows: Seq<Seq<Seq<char>>>) -> Result<(Seq<char>, Seq<char>, Seq<(int, Seq<Seq<char>>)>), Seq<char>> {
    let info = raw_cell(rows, 0, 0);
    let h = row_at(rows, 1);
    match crate::sheet::first_missing(h, daegyo_cols(), 7) {
        Some(k) => Err("대교협 양식에서 '"@ + daegyo_cols()[k] + "' 열을 찾을 수 없습니다"@),
        None => Ok((trim(split_field(info, '-', 1)), trim(info), data_records(rows, h, 2, rows.len() as int, true))),
    }
}

/// The first required column missing from a header, by name.
fn missing_col(header: &Vec<String>, names: &Vec<&str>) -> (r: Option<usize>)
    ensures
        match r {
            None => crate::sheet::first_missing(texts(header@), names@.map_values(|s: &str| s@), names@.len() as int) is None,
            Some(k) => k < names@.len() && crate::sheet::first_missing(texts(header@), names@.map_values(|s: &str| s@), names@.len() as int) == Some(k as int),
        },
{
    let ghost ns = names@.map_values(|s: &str| s@);
    let mut k: usize = 0;
    while k < names.len()
        invariant
            ns == names@.map_values(|s: &str| s@),
            k <= names@.len(),
            crate::sheet::first_missing(texts(header@), ns, k as int) is None,
        decreases names@.len() - k,
    {
        if column_index(header, names[k]).is_none() {
            proof {
                lemma_missing_sticky(texts(header@), ns, k + 1, names@.len() as int);
            }
            return Some(k);
        }
        k = k + 1;
    }
    None
}

proof fn lemma_missing_sticky(headers: Seq<Seq<char>>, names: Seq<Seq<char>>, m: int, n: int)
    requires
        0 <= m <= n,
        crate::sheet::first_missing(headers, names, m) is Some,
    ensures
        crate::sheet::first_missing(headers, names, n) == crate::sheet::first_missing(headers, names, m),
    decreases n - m,
{
    if m < n {
        lemma_missing_sticky(headers, names, m, n - 1);
    }
}

/// The parsed file as plain values.
pub open spec fn parsed_view(p: ParsedFile) -> (Seq<char>, Seq<char>, Seq<char>, Seq<(int, Seq<Seq<char>>)>) {
    (p.univ_name@, p.value_header@, p.header_info@, parsed_records_view(p.records@))
}

/// Reads a council-form rank list from its sheet rows (see `daegyo_spec`).
pub fn parse_daegyo(rows: &Vec<Vec<String>>) -> (r: Result<ParsedFile, String>)
    requires
        rows@.len() < usize::MAX,
    ensures
        match daegyo_spec(rows_of(rows@)) {
            Err(e) => r matches Err(m) && m@ == e,
            Ok(v) => r matches Ok(p) && parsed_view(p) == (v.0, "내등급(환산)"@, v.1, v.2),
        },
{
    let info = raw_cell_exec(rows, 0, 0);
    let header = row_at_exec(rows, 1);
    let mut names: Vec<&str> = Vec::new();
    names.push("학년");
    names.push("반");
    names.push("번호");
    names.push("이름");
    names.push("일반등급");
    names.push("내점수(환산)");
    names.push("내등급(환산)");
    assert(names@.map_values(|s: &str| s@) =~= daegyo_cols());
    match missing_col(&header, &names) {
        Some(k) => {
            let mut v = chars_of("대교협 양식에서 '");
            append_str(&mut v, names[k]);
            append_str(&mut v, "' 열을 찾을 수 없습니다");
            assert(names@.map_values(|s: &str| s@)[k as int] == names@[k as int]@);
            return Err(string_of(&v));
        },
        None => {},
    }
    let info_chars = chars_of(info.as_str());
    let univ = trim_chars(&second_field(&info_chars, '-'));
    let records = collect_records(rows, &header, 2, true);
    Ok(
        ParsedFile {
            univ_name: string_of(&univ),
            value_header: string_of(&chars_of("내등급(환산)")),
            header_info: string_of(&trim_chars(&info_chars)),
            records,
        },
    )
}

/// One information line of the "univ" form (lines 1 to 3, columns A and B):
/// `"label: value"`, or whichever of the two is present.
pub open spec fn info_part(rows: Seq<Seq<Seq<char>>>, i: int) -> Option<Seq<char>> {
    if i >= rows.len() {
        None
    } else {
        let label = trim(raw_cell(rows, i, 0));
        let value = trim(raw_cell(rows, i, 1));
        if label.len() == 0 && value.len() == 0 {
            None
        } else if label.len() == 0 {
            Some(value)
        } else if value.len() == 0 {
            Some(label)
        } else {
            Some(label + ": "@ + value)
        }
    }
}

/// The information lines `0..n` present, joined by `" | "`.
pub open spec fn info_join(rows: Seq<Seq<Seq<char>>>, n: int) -> Seq<char>
    decreases n,
{
    if n <= 0 {
        Seq::empty()
    } else {
        let prev = info_join(rows, n - 1);
        match info_part(rows, n - 1) {
            None => prev,
            Some(p) => if prev.len() == 0 && !info_any(rows, n - 1) {
                p
            } else {
                prev + " | "@ + p
            },
        }
    }
}

/// Some information line among `0..n` is present.
pub open spec fn info_any(rows: Seq<Seq<Seq<char>>>, n: int) -> bool {
    exists|i: int| 0 <= i < n && (#[trigger] info_part(rows, i)) is Some
}

/// The "univ" form: B1 names the university, lines 1–3 carry information,
/// line 6 is the header, the data start at line 7, the value is the grade.
/// `Ok((university, information, records))`.
pub open spec fn univ_spec(rows: Seq<Seq<Seq<char>>>) -> Result<(Seq<char>, Seq<char>, Seq<(int, Seq<Seq<char>>)>), Seq<char>> {
    let h = row_at(rows, 5);
    match crate::sheet::first_missing(h, univ_cols(), 5) {
        Some(k) => Err("유니브 양식에서 '"@ + univ_cols()[k] + "' 열을 찾을 수 없습니다"@),
        None => Ok((trim(raw_cell(rows, 0, 1)), info_join(rows, 3), data_records(rows, h, 6, rows.len() as int, false))),
    }
}

/// Reads a "univ"-form rank list from its sheet rows (see `univ_spec`).
pub fn parse_univ(rows: &Vec<Vec<String>>) -> (r: Result<ParsedFile, String>)
    requires
        rows@.len() < usize::MAX,
    ensures
        match univ_spec(rows_of(rows@)) {
            Err(e) => r matches Err(m) && m@ == e,
            Ok(v) => r matches Ok(p) && parsed_view(p) == (v.0, "등급"@, v.1, v.2),
        },
{
    let ghost rv = rows_of(rows@);
    let univ = trim_chars(&chars_of(raw_cell_exec(rows, 0, 1).as_str()));
    let mut info: Vec<char> = Vec::new();
    let mut any = false;
    let mut i: usize = 0;
    while i < 3
        invariant
            rv == rows_of(rows@),
            i <= 3,
            info@ == info_join(rv, i as int),
            any == info_any(rv, i as int),
        decreases 3 - i,
    {
        if i < rows.len() {
            let label = trim_chars(&chars_of(raw_cell_exec(rows, i, 0).as_str()));
            let value = trim_chars(&chars_of(raw_cell_exec(rows, i, 1).as_str()));
            let mut part: Vec<char> = Vec::new();
            let present = label.len() > 0 || value.len() > 0;
            if label.len() == 0 {
                push_all(&mut part, &value);
            } else if value.len() == 0 {
                push_all(&mut part, &label);
            } else {
                push_all(&mut part, &label);
                append_str(&mut part, ": ");
                push_all(&mut part, &value);
            }
            if present {
                if any {
                    append_str(&mut info, " | ");
                }
                push_all(&mut info, &part);
                assert(info_part(rv, i as int) == Some(part@));
                proof {
                    if !any {
                        assert(!info_any(rv, i as int));
                        if info_join(rv, i as int).len() != 0 {
                            lemma_info_join_empty(rv, i as int);
                        }
                    }
                }
                any = true;
            }
        }
        proof {
            if info_part(rv, i as int) is Some {
                assert(info_any(rv, i + 1));
            }
            if info_any(rv, i + 1) && info_part(rv, i as int) is None {
                let j = choose|j: int| 0 <= j < i + 1 && (#[trigger] info_part(rv, j)) is Some;
                assert(j < i);
                assert(info_any(rv, i as int));
            }
            if info_any(rv, i as int) {
                let j = choose|j: int| 0 <= j < i && (#[trigger] info_part(rv, j)) is Some;
                assert(info_any(rv, i + 1));
            }
        }
        i = i + 1;
    }
    let header = row_at_exec(rows, 5);
    let mut names: Vec<&str> = Vec::new();
    names.push("학년");
    names.push("반");
    names.push("번호");
    names.push("이름");
    names.push("등급");
    assert(names@.map_values(|s: &str| s@) =~= univ_cols());
    match missing_col(&header, &names) {
        Some(k) => {
            let mut v = chars_of("유니브 양식에서 '");
            append_str(&mut v, names[k]);
            append_str(&mut v, "' 열을 찾을 수 없습니다");
            assert(names@.map_values(|s: &str| s@)[k as int] == names@[k as int]@);
            return Err(string_of(&v));
        },
        None => {},
    }
    let records = collect_records(rows, &header, 6, false);
    Ok(ParsedFile { univ_name: string_of(&univ), value_header: string_of(&chars_of("등급")), header_info: string_of(&info), records })
}

proof fn lemma_info_join_empty(rows: Seq<Seq<Seq<char>>>, n: int)
    requires
        !info_any(rows, n),
    ensures
        info_join(rows, n).len() == 0,
    decreases n,
{
    if n > 0 {
        assert(info_part(rows, n - 1) is None) by {
            if info_part(rows, n - 1) is Some {
                assert(info_any(rows, n));
            }
        }
        assert(!info_any(rows, n - 1)) by {
            if info_any(rows, n - 1) {
                let j = choose|j: int| 0 <= j < n - 1 && (#[trigger] info_part(rows, j)) is Some;
                assert(info_any(rows, n));
            }
        }
        lemma_info_join_empty(rows, n - 1);
    }
}

/// The preview of a parsed rank list: its first five records and their number.
pub fn external_preview(p: ParsedFile) -> (r: ExternalPreview)
    ensures
        r.univ_name == p.univ_name,
        r.value_header == p.value_header,
        r.header_info == p.header_info,
        r.total == p.records@.len(),
        r.preview@.len() == if p.records@.len() < 5 { p.records@.len() } else { 5 },
        forall|k: int| 0 <= k < r.preview@.len() ==> (#[trigger] r.preview@[k]) == p.records@[k].1,
{
    let total = p.records.len();
    let ghost recs = p.records@;
    let mut records = p.records;
    let mut preview: Vec<Vec<String>> = Vec::new();
    while preview.len() < 5 && records.len() > 0
        invariant
            preview@.len() <= 5,
            preview@.len() + records@.len() == recs.len(),
            forall|k: int| 0 <= k < records@.len() ==> records@[k] == recs[preview@.len() + k],
            forall|k: int| 0 <= k < preview@.len() ==> (#[trigger] preview@[k]) == recs[k].1,
        decreases records@.len(),
    {
        let ghost prev = records@;
        let (_, rec) = records.remove(0);
        assert(prev[0] == recs[preview@.len() as int]);
        preview.push(rec);
        assert forall|k: int| 0 <= k < records@.len() implies records@[k] == recs[preview@.len() + k] by {
            assert(records@[k] == prev[k + 1]);
        }
    }
    ExternalPreview { univ_name: p.univ_name, value_header: p.value_header, header_info: p.header_info, preview, total }
}

/// A rank list is imported only into a per-track area that takes single values,
/// and only when it has records.
pub fn check_external_area(scope: LookupScope, multi_value: bool, records: usize) -> (r: Result<(), Refusal>)
    ensures
        scope != LookupScope::Composite ==> is_refusal(
            r,
            400,
            "외부 가져오기는 대학별 환산점수 조회 전형요소에서만 사용할 수 있습니다"@,
        ),
        scope == LookupScope::Composite && multi_value ==> is_refusal(
            r,
            400,
            "복수값(합산) 전형요소에는 외부 가져오기를 사용할 수 없습니다. 기초 데이터 업로드를 사용해 주세요"@,
        ),
        scope == LookupScope::Composite && !multi_value && records == 0 ==> is_refusal(r, 400, "파일에 데이터 행이 없습니다"@),
        scope == LookupScope::Composite && !multi_value && records > 0 ==> r is Ok,
{
    if scope != LookupScope::Composite {
        return Err(refuse(400, "외부 가져오기는 대학별 환산점수 조회 전형요소에서만 사용할 수 있습니다"));
    }
    if multi_value {
        return Err(refuse(400, "복수값(합산) 전형요소에는 외부 가져오기를 사용할 수 없습니다. 기초 데이터 업로드를 사용해 주세요"));
    }
    if records == 0 {
        return Err(refuse(400, "파일에 데이터 행이 없습니다"));
    }
    Ok(())
}

/// The position of a record: grade, class and number, each an integer.
pub open spec fn record_key(rec: Seq<Seq<char>>, n: int) -> Result<(i64, i64, i64), Seq<char>> {
    match (int_cell(rec[0], "학년"@, n), int_cell(rec[1], "반"@, n), int_cell(rec[2], "번호"@, n)) {
        (Err(e), _, _) => Err(e),
        (Ok(_), Err(e), _) => Err(e),
        (Ok(_), Ok(_), Err(e)) => Err(e),
        (Ok(a), Ok(b), Ok(c)) => Ok((a, b, c)),
    }
}

fn int_field(raw: &String, label: &str, n: usize) -> (r: Result<i64, String>)
    ensures
        match r {
            Ok(v) => int_cell(raw@, label@, n as int) == Ok::<i64, Seq<char>>(v),
            Err(m) => int_cell(raw@, label@, n as int) == Err::<i64, Seq<char>>(m@),
        },
{
    match parse_i64(&chars_of(raw.as_str())) {
        Some(v) => Ok(v),
        None => {
            let mut v: Vec<char> = Vec::new();
            push_decimal(&mut v, n as u64);
            append_str(&mut v, "행: ");
            append_str(&mut v, label);
            append_str(&mut v, " '");
            append_str(&mut v, raw.as_str());
            append_str(&mut v, "' 숫자 변환 실패");
            Err(string_of(&v))
        },
    }
}

/// Reads the position of a record of line `row` (see `record_key`).
pub fn external_key(row: usize, rec: &Vec<String>) -> (r: Result<(i64, i64, i64), String>)
    requires
        rec@.len() >= 5,
    ensures
        match r {
            Ok(k) => record_key(texts(rec@), row as int) == Ok::<_, Seq<char>>(k),
            Err(m) => record_key(texts(rec@), row as int) == Err::<(i64, i64, i64), _>(m@),
        },
{
    assert(texts(rec@)[0] == rec@[0]@ && texts(rec@)[1] == rec@[1]@ && texts(rec@)[2] == rec@[2]@);
    let g = int_field(&rec[0], "학년", row)?;
    let c = int_field(&rec[1], "반", row)?;
    let s = int_field(&rec[2], "번호", row)?;
    Ok((g, c, s))
}

fn pos_line(row: usize, g: i64, c: i64, s: i64) -> (v: Vec<char>)
    ensures
        v@ == row_head(row as int) + position_text(g, c, s),
{
    let mut v: Vec<char> = Vec::new();
    push_decimal(&mut v, row as u64);
    append_str(&mut v, "행: ");
    push_all(&mut v, &chars_of(crate::imports::enrolled_label(g, c, s).as_str()));
    v
}

/// The error when no enrolled student sits at a record's position.
pub fn external_not_found(row: usize, g: i64, c: i64, s: i64, name: &str) -> (r: String)
    ensures
        r@ == row_head(row as int) + position_text(g, c, s) + " "@ + name@ + " — 등록된 재학생을 찾을 수 없습니다"@,
{
    let mut v = pos_line(row, g, c, s);
    append_str(&mut v, " ");
    append_str(&mut v, name);
    append_str(&mut v, " — 등록된 재학생을 찾을 수 없습니다");
    string_of(&v)
}

/// The error when a student appears twice in a rank list.
pub fn external_duplicate(row: usize, g: i64, c: i64, s: i64) -> (r: String)
    ensures
        r@ == row_head(row as int) + position_text(g, c, s) + " 중복 — 파일에 같은 학생이 두 번 이상 존재합니다"@,
{
    let mut v = pos_line(row, g, c, s);
    append_str(&mut v, " 중복 — 파일에 같은 학생이 두 번 이상 존재합니다");
    string_of(&v)
}

/// The warning when the file's name differs from the stored one (compared trimmed).
pub fn name_mismatch_warning(row: usize, g: i64, c: i64, s: i64, file_name: &str, db_name: &str) -> (r: Option<String>)
    ensures
        trim(file_name@) == trim(db_name@) ==> r is None,
        trim(file_name@) != trim(db_name@) ==> (r matches Some(m) && m@ == row_head(row as int) + position_text(g, c, s)
            + " 이름 불일치 — 가져오기 완료됨 (파일: '"@ + file_name@ + "', DB: '"@ + db_name@ + "')"@),
{
    if chars_equal(&trim_chars(&chars_of(file_name)), &trim_chars(&chars_of(db_name))) {
        return None;
    }
    let mut v = pos_line(row, g, c, s);
    append_str(&mut v, " 이름 불일치 — 가져오기 완료됨 (파일: '");
    append_str(&mut v, file_name);
    append_str(&mut v, "', DB: '");
    append_str(&mut v, db_name);
    append_str(&mut v, "')");
    Some(string_of(&v))
}

/// The value stored for a record, or the note of why it is skipped: a blank
/// grade, or one a numeric area cannot read (category values are kept as
/// they are).
pub open spec fn external_value_spec(
    raw: Seq<char>,
    calc_type: CalcType,
    row: int,
    g: i64,
    c: i64,
    s: i64,
    name: Seq<char>,
) -> Result<Seq<char>, Seq<char>> {
    let head = row_head(row) + position_text(g, c, s) + " "@ + name;
    if trim(raw).len() == 0 {
        Err(head + " — 석차 값이 비어 있어 건너뜀"@)
    } else if calc_type == CalcType::Category {
        Ok(raw)
    } else {
        match spec_parse_display(raw) {
            Ok(v) => Ok(int_text(v as int)),
            Err(e) => Err(head + " — 석차 값 "@ + e + " → 건너뜀"@),
        }
    }
}

/// Converts the grade of a record (see `external_value_spec`; `Err` is a skip note).
pub fn external_value(row: usize, g: i64, c: i64, s: i64, name: &str, raw: &str, calc_type: CalcType) -> (r: Result<
    String,
    String,
>)
    ensures
        match r {
            Ok(v) => external_value_spec(raw@, calc_type, row as int, g, c, s, name@) == Ok::<Seq<char>, Seq<char>>(v@),
            Err(m) => external_value_spec(raw@, calc_type, row as int, g, c, s, name@) == Err::<Seq<char>, Seq<char>>(m@),
        },
{
    let mut head = pos_line(row, g, c, s);
    append_str(&mut head, " ");
    append_str(&mut head, name);
    if trim_chars(&chars_of(raw)).len() == 0 {
        append_str(&mut head, " — 석차 값이 비어 있어 건너뜀");
        return Err(string_of(&head));
    }
    if calc_type == CalcType::Category {
        return Ok(string_of(&chars_of(raw)));
    }
    match parse_display_value(raw) {
        Ok(v) => Ok(string_of(&i64_text(v))),
        Err(e) => {
            append_str(&mut head, " — 석차 값 ");
            push_all(&mut head, &chars_of(e.as_str()));
            append_str(&mut head, " → 건너뜀");
            Err(string_of(&head))
        },
    }
}

/// The result of a rank-list import: any error rejects it (422, the skip
/// notes as warnings); so does an import that stored nothing; otherwise it
/// succeeds with the skip notes after the other warnings.
pub fn finish_external(
    rows: usize,
    errors: Vec<String>,
    warnings: Vec<String>,
    skipped: Vec<String>,
    info: Vec<String>,
) -> (r: (u16, ImportResult))
    ensures
        errors@.len() > 0 ==> r.0 == 422 && r.1.rows == 0 && r.1.errors@ == errors@ && r.1.warnings@ == skipped@
            && r.1.info@.len() == 0,
        errors@.len() == 0 && rows == 0 ==> r.0 == 422 && r.1.rows == 0 && r.1.errors@.len() == 1 && r.1.errors@[0]@
            == "저장된 행이 없습니다 — 모든 행의 석차 값이 비어 있거나 숫자로 변환할 수 없습니다"@ && r.1.warnings@ == skipped@
            && r.1.info@.len() == 0,
        errors@.len() == 0 && rows > 0 ==> r.0 == 200 && r.1.rows == rows && r.1.errors@.len() == 0 && r.1.warnings@
            == warnings@ + skipped@ && r.1.info@ == info@,
{
    if errors.len() > 0 {
        return (422, ImportResult { rows: 0, errors, warnings: skipped, info: Vec::new() });
    }
    if rows == 0 {
        let mut es: Vec<String> = Vec::new();
        es.push(string_of(&chars_of("저장된 행이 없습니다 — 모든 행의 석차 값이 비어 있거나 숫자로 변환할 수 없습니다")));
        return (422, ImportResult { rows: 0, errors: es, warnings: skipped, info: Vec::new() });
    }
    let mut all = warnings;
    let mut skipped = skipped;
    all.append(&mut skipped);
    (200, ImportResult { rows, errors: Vec::new(), warnings: all, info })
}

/// A record of a rank list with what the lookup of an enrolled student at
/// its position gave (the student's id and stored name); the lookup is read
/// only once the position is valid.
#[derive(Debug, Clone)]
pub struct ExternalRecord {
    pub row: usize,
    pub fields: Vec<String>,
    pub student: Option<(i64, String)>,
}

/// The records of a rank list read one by one: the errors, the warnings, the
/// skip notes, the values `(student, value)` to store, and the students seen.
/// A record with fewer than five fields is passed over; a record is refused
/// for an unreadable position, an unknown student or a student already seen;
/// a differing name is only a warning; a blank or unreadable grade is skipped
/// with a note.
pub open spec fn external_rows(calc_type: CalcType, recs: Seq<ExternalRecord>) -> (
    Seq<Seq<char>>,
    Seq<Seq<char>>,
    Seq<Seq<char>>,
    Seq<(i64, Seq<char>)>,
    Seq<i64>,
)
    decreases recs.len(),
{
    if recs.len() == 0 {
        (Seq::empty(), Seq::empty(), Seq::empty(), Seq::empty(), Seq::empty())
    } else {
        let prev = external_rows(calc_type, recs.drop_last());
        let (errors, warnings, skipped, writes, seen) = prev;
        let r = recs.last();
        let f = texts(r.fields@);
        let n = r.row as int;
        if f.len() < 5 {
            prev
        } else {
            match record_key(f, n) {
                Err(e) => (errors.push(e), warnings, skipped, writes, seen),
                Ok((g, c, s)) => match r.student {
                    None => (
                        errors.push(row_head(n) + position_text(g, c, s) + " "@ + f[3] + " — 등록된 재학생을 찾을 수 없습니다"@),
                        warnings,
                        skipped,
                        writes,
                        seen,
                    ),
                    Some((sid, db)) => if seen.contains(sid) {
                        (
                            errors.push(row_head(n) + position_text(g, c, s) + " 중복 — 파일에 같은 학생이 두 번 이상 존재합니다"@),
                            warnings,
                            skipped,
                            writes,
                            seen,
                        )
                    } else {
                        let w2 = if trim(f[3]) == trim(db@) {
                            warnings
                        } else {
                            warnings.push(
                                row_head(n) + position_text(g, c, s) + " 이름 불일치 — 가져오기 완료됨 (파일: '"@ + f[3] + "', DB: '"@
                                    + db@ + "')"@,
                            )
                        };
                        match external_value_spec(f[4], calc_type, n, g, c, s, f[3]) {
                            Err(m) => (errors, w2, skipped.push(m), writes, seen.push(sid)),
                            Ok(v) => (errors, w2, skipped, writes.push((sid, v)), seen.push(sid)),
                        }
                    },
                },
            }
        }
    }
}

/// The values to store as `(student, value text)`.
pub open spec fn external_writes_view(w: Seq<(i64, String)>) -> Seq<(i64, Seq<char>)> {
    w.map_values(|x: (i64, String)| (x.0, x.1@))
}

/// Plans the import of a rank list into one track of an area (see
/// `external_rows`); `created` says whether the track was created for it.
/// Returns the status, the import result and the values to store: any error
/// refuses the import (422, the skip notes as warnings); so does an import
/// that would store nothing; otherwise it succeeds (200) with the number of
/// values, the warnings followed by the skip notes, and the note of a created track.
pub fn plan_external_import(
    calc_type: CalcType,
    univ_name: &str,
    track_name: &str,
    created: bool,
    recs: &Vec<ExternalRecord>,
) -> (r: (u16, ImportResult, Vec<(i64, String)>))
    ensures
        ({
            let (errors, warnings, skipped, writes, seen) = external_rows(calc_type, recs@);
            &&& external_writes_view(r.2@) == writes
            &&& errors.len() > 0 ==> r.0 == 422 && r.1.rows == 0 && texts(r.1.errors@) == errors && texts(r.1.warnings@)
                == skipped && r.1.info@.len() == 0
            &&& errors.len() == 0 && writes.len() == 0 ==> r.0 == 422 && r.1.rows == 0 && r.1.errors@.len() == 1
                && r.1.errors@[0]@ == "저장된 행이 없습니다 — 모든 행의 석차 값이 비어 있거나 숫자로 변환할 수 없습니다"@
                && texts(r.1.warnings@) == skipped && r.1.info@.len() == 0
            &&& errors.len() == 0 && writes.len() > 0 ==> r.0 == 200 && r.1.rows == writes.len() && r.1.errors@.len() == 0
                && texts(r.1.warnings@) == warnings + skipped && texts(r.1.info@) == if created {
                seq!["'"@ + univ_name@ + "/"@ + track_name@ + "' 모집단위 자동 추가됨"@]
            } else {
                Seq::<Seq<char>>::empty()
            }
        }),
{
    let mut info: Vec<String> = Vec::new();
    if created {
        info.push(track_created_info(univ_name, track_name));
    }
    let mut errors: Vec<String> = Vec::new();
    let mut warnings: Vec<String> = Vec::new();
    let mut skipped: Vec<String> = Vec::new();
    let mut writes: Vec<(i64, String)> = Vec::new();
    let mut seen: Vec<i64> = Vec::new();
    let mut i: usize = 0;
    while i < recs.len()
        invariant
            i <= recs@.len(),
            external_rows(calc_type, recs@.take(i as int)) == (
                texts(errors@),
                texts(warnings@),
                texts(skipped@),
                external_writes_view(writes@),
                seen@,
            ),
        decreases recs@.len() - i,
    {
        let r = &recs[i];
        proof {
            assert(recs@.take(i + 1).drop_last() =~= recs@.take(i as int));
            assert(recs@.take(i + 1).last() == recs@[i as int]);
        }
        let ghost e0 = errors@;
        let ghost w0 = warnings@;
        let ghost k0 = skipped@;
        let ghost v0 = writes@;
        let ghost f = texts(r.fields@);
        if r.fields.len() >= 5 {
            assert(f[0] == r.fields@[0]@ && f[1] == r.fields@[1]@ && f[2] == r.fields@[2]@);
            assert(f[3] == r.fields@[3]@ && f[4] == r.fields@[4]@);
            match external_key(r.row, &r.fields) {
                Err(e) => {
                    errors.push(e);
                    assert(texts(errors@) =~= texts(e0).push(e@));
                },
                Ok((g, c, s)) => match &r.student {
                    None => {
                        errors.push(external_not_found(r.row, g, c, s, r.fields[3].as_str()));
                        assert(texts(errors@) =~= texts(e0).push(errors@.last()@));
                    },
                    Some((sid, db)) => {
                        let sid = *sid;
                        let mut dup = false;
                        let mut k: usize = 0;
                        while k < seen.len()
                            invariant
                                k <= seen@.len(),
                                dup <==> exists|j: int| 0 <= j < k && seen@[j] == sid,
                            decreases seen@.len() - k,
                        {
                            if seen[k] == sid {
                                dup = true;
                            }
                            k = k + 1;
                        }
                        proof {
                            if dup {
                                let j = choose|j: int| 0 <= j < k && seen@[j] == sid;
                                assert(seen@.contains(sid));
                            } else {
                                assert(!seen@.contains(sid));
                            }
                        }
                        if dup {
                            errors.push(external_duplicate(r.row, g, c, s));
                            assert(texts(errors@) =~= texts(e0).push(errors@.last()@));
                        } else {
                            seen.push(sid);
                            match name_mismatch_warning(r.row, g, c, s, r.fields[3].as_str(), db.as_str()) {
                                Some(m) => {
                                    warnings.push(m);
                                    assert(texts(warnings@) =~= texts(w0).push(warnings@.last()@));
                                },
                                None => {},
                            }
                            match external_value(r.row, g, c, s, r.fields[3].as_str(), r.fields[4].as_str(), calc_type) {
                                Err(m) => {
                                    skipped.push(m);
                                    assert(texts(skipped@) =~= texts(k0).push(skipped@.last()@));
                                },
                                Ok(v) => {
                                    writes.push((sid, v));
                                    assert(external_writes_view(writes@) =~= external_writes_view(v0).push(
                                        (sid, writes@.last().1@),
                                    ));
                                },
                            }
                        }
                    },
                },
            }
        }
        i = i + 1;
    }
    assert(recs@.take(recs@.len() as int) =~= recs@);
    let count = writes.len();
    proof {
        if created {
            assert(texts(info@) =~= seq!["'"@ + univ_name@ + "/"@ + track_name@ + "' 모집단위 자동 추가됨"@]);
        } else {
            assert(texts(info@) =~= Seq::<Seq<char>>::empty());
        }
    }
    let ghost wv = warnings@;
    let ghost sv = skipped@;
    let (status, result) = finish_external(count, errors, warnings, skipped, info);
    proof {
        if status == 200 {
            assert(texts(result.warnings@) =~= texts(wv) + texts(sv));
        }
    }
    (status, result, writes)
}

proof fn lemma_external_seen(calc_type: CalcType, recs: Seq<ExternalRecord>)
    ensures
        ({
            let (errors, warnings, skipped, writes, seen) = external_rows(calc_type, recs);
            &&& forall|j: int, k: int| 0 <= j < k < seen.len() ==> seen[j] != seen[k]
            &&& forall|j: int| 0 <= j < writes.len() ==> seen.contains(#[trigger] writes[j].0)
            &&& forall|j: int, k: int| 0 <= j < k < writes.len() ==> writes[j].0 != writes[k].0
        }),
    decreases recs.len(),
{
    if recs.len() > 0 {
        let d = recs.drop_last();
        lemma_external_seen(calc_type, d);
        let (e0, w0, k0, v0, s0) = external_rows(calc_type, d);
        let (e1, w1, k1, v1, s1) = external_rows(calc_type, recs);
        if s1.len() > s0.len() {
            assert(s1 == s0.push(s1.last()));
            assert(!s0.contains(s1.last()));
            assert forall|j: int| 0 <= j < v1.len() implies s1.contains(#[trigger] v1[j].0) by {
                if j < v0.len() {
                    assert(v1[j] == v0[j]);
                    assert(s0.contains(v0[j].0));
                    let k = choose|k: int| 0 <= k < s0.len() && s0[k] == v0[j].0;
                    assert(s1[k] == v0[j].0);
                } else {
                    assert(s1[s0.len() as int] == v1[j].0);
                }
            }
            assert forall|j: int, k: int| 0 <= j < k < v1.len() implies v1[j].0 != v1[k].0 by {
                if k >= v0.len() {
                    assert(v1[j] == v0[j]);
                    assert(s0.contains(v0[j].0));
                } else {
                    assert(v1[j] == v0[j] && v1[k] == v0[k]);
                }
            }
        }
    }
}

/// Law (a rank list stores one grade per student): the values an import of a
/// rank list stores are for distinct students; a student named twice refuses
/// the file.
pub proof fn law_rank_list_one_value_each(calc_type: CalcType, recs: Seq<ExternalRecord>)
    ensures
        ({
            let writes = external_rows(calc_type, recs).3;
            forall|j: int, k: int| 0 <= j < k < writes.len() ==> writes[j].0 != writes[k].0
        }),
{
    lemma_external_seen(calc_type, recs);
}

} // verus!
