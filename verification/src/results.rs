//! Round results as the homeroom teacher exports them: one CSV line per student,
//! that student's applications joined in one cell.
use vstd::prelude::*;
use crate::score::Score;
use crate::text::{append_str, chars_of, i64_text, int_text, push_all, string_of};

verus! {

/// One application's result row, joined with its student and track.
#[derive(Clone, Debug)]
pub struct ResultRow {
    pub student_id: i64,
    pub track_id: i64,
    pub round_id: i64,
    pub total_score: Score,
    pub score_detail: String,
    pub ranking: Option<i64>,
    pub track_rank: Option<i64>,
    pub recommended: bool,
    pub abandoned: bool,
    pub excluded: bool,
    pub excluded_reason: Option<String>,
    pub student_code: String,
    pub name: String,
    pub grade: Option<i64>,
    pub class_no: Option<i64>,
    pub seq_no: Option<i64>,
    pub is_enrolled: bool,
    pub univ_name: String,
    pub track_name: String,
    pub department_name: String,
}

/// The status word shown for an application: abandoned, recommended, or not selected.
pub open spec fn status_text(abandoned: bool, recommended: bool) -> Seq<char> {
    if abandoned {
        "포기됨"@
    } else if recommended {
        "추천 확정"@
    } else {
        "미선발"@
    }
}

/// The status word of a result row.
pub fn status_label(r: &ResultRow) -> (s: &'static str)
    ensures
        s@ == status_text(r.abandoned, r.recommended),
{
    if r.abandoned {
        "포기됨"
    } else if r.recommended {
        "추천 확정"
    } else {
        "미선발"
    }
}

/// `"{univ} {track}({status})"`, preceded by `"{round}라운드 "` when rounds are mixed.
pub open spec fn entry_spec(r: ResultRow, with_round: bool) -> Seq<char> {
    let body = r.univ_name@ + " "@ + r.track_name@ + "("@ + status_text(r.abandoned, r.recommended) + ")"@;
    if with_round {
        int_text(r.round_id as int) + "라운드 "@ + body
    } else {
        body
    }
}

fn push_entry(out: &mut Vec<char>, r: &ResultRow, with_round: bool)
    ensures
        final(out)@ == old(out)@ + entry_spec(*r, with_round),
{
    if with_round {
        let n = i64_text(r.round_id);
        push_all(out, &n);
        append_str(out, "라운드 ");
    }
    append_str(out, r.univ_name.as_str());
    append_str(out, " ");
    append_str(out, r.track_name.as_str());
    append_str(out, "(");
    append_str(out, status_label(r));
    append_str(out, ")");
}

/// One application written as `"{univ} {track}({status})"`; the round number is
/// prefixed only when the export spans all rounds.
pub fn entry_text(r: &ResultRow, with_round: bool) -> (s: String)
    ensures
        s@ == entry_spec(*r, with_round),
{
    let mut v: Vec<char> = Vec::new();
    push_entry(&mut v, r, with_round);
    string_of(&v)
}

/// Row `i` is the first row of its student.
pub open spec fn first_of_student(rows: Seq<ResultRow>, i: int) -> bool {
    forall|j: int| 0 <= j < i ==> rows[j].student_id != rows[i].student_id
}

/// The indices of each student's first row among the first `n` rows, in order.
pub open spec fn first_rows(rows: Seq<ResultRow>, n: int) -> Seq<int>
    decreases n,
{
    if n <= 0 {
        Seq::empty()
    } else if first_of_student(rows, n - 1) {
        first_rows(rows, n - 1).push(n - 1)
    } else {
        first_rows(rows, n - 1)
    }
}

/// Lexicographic order of texts by character code (the order of their UTF-8 bytes).
pub open spec fn text_le(a: Seq<char>, b: Seq<char>) -> bool
    decreases a.len(),
{
    if a.len() == 0 {
        true
    } else if b.len() == 0 {
        false
    } else if a[0] != b[0] {
        (a[0] as u32) < (b[0] as u32)
    } else {
        text_le(a.drop_first(), b.drop_first())
    }
}

/// `None` comes before every number; numbers in their order.
pub open spec fn opt_lt(a: Option<i64>, b: Option<i64>) -> bool {
    match (a, b) {
        (None, Some(_)) => true,
        (Some(x), Some(y)) => x < y,
        _ => false,
    }
}

/// Students are ordered by class number (graduates, who have none, first), then by code.
pub open spec fn row_key_le(a: ResultRow, b: ResultRow) -> bool {
    opt_lt(a.seq_no, b.seq_no) || (a.seq_no == b.seq_no && text_le(a.student_code@, b.student_code@))
}

/// Inserts row index `x` after every index whose row is not above it.
pub open spec fn insert_by_key(rows: Seq<ResultRow>, s: Seq<int>, x: int) -> Seq<int>
    decreases s.len(),
{
    if s.len() == 0 {
        seq![x]
    } else if row_key_le(rows[s.last()], rows[x]) {
        s.push(x)
    } else {
        insert_by_key(rows, s.drop_last(), x).push(s.last())
    }
}

/// A stable sort of row indices by their rows' keys.
pub open spec fn sort_by_key(rows: Seq<ResultRow>, s: Seq<int>) -> Seq<int>
    decreases s.len(),
{
    if s.len() == 0 {
        Seq::empty()
    } else {
        insert_by_key(rows, sort_by_key(rows, s.drop_last()), s.last())
    }
}

/// The entries of student `sid` among the first `n` rows, in row order.
pub open spec fn entries_of(rows: Seq<ResultRow>, sid: i64, n: int, with_round: bool) -> Seq<Seq<char>>
    decreases n,
{
    if n <= 0 {
        Seq::empty()
    } else if rows[n - 1].student_id == sid {
        entries_of(rows, sid, n - 1, with_round).push(entry_spec(rows[n - 1], with_round))
    } else {
        entries_of(rows, sid, n - 1, with_round)
    }
}

/// Texts joined with `", "`.
pub open spec fn joined(parts: Seq<Seq<char>>) -> Seq<char>
    decreases parts.len(),
{
    if parts.len() == 0 {
        Seq::empty()
    } else if parts.len() == 1 {
        parts[0]
    } else {
        joined(parts.drop_last()) + ", "@ + parts.last()
    }
}

/// An optional number as a cell: empty when absent.
pub open spec fn opt_cell(v: Option<i64>) -> Seq<char> {
    match v {
        Some(n) => int_text(n as int),
        None => Seq::empty(),
    }
}

/// The CSV header.
pub open spec fn csv_header() -> Seq<Seq<char>> {
    seq!["학생코드"@, "학년"@, "반"@, "번호"@, "이름"@, "선발결과"@]
}

/// A student's line, from the student's first row `i`.
pub open spec fn student_line(rows: Seq<ResultRow>, i: int, with_round: bool) -> Seq<Seq<char>> {
    let f = rows[i];
    seq![
        f.student_code@,
        opt_cell(f.grade),
        opt_cell(f.class_no),
        opt_cell(f.seq_no),
        f.name@,
        joined(entries_of(rows, f.student_id, rows.len() as int, with_round)),
    ]
}

/// The CSV records: the header, then one line per student, students ordered by key
/// (first appearance breaks ties).
pub open spec fn csv_records_spec(rows: Seq<ResultRow>, with_round: bool) -> Seq<Seq<Seq<char>>> {
    let order = sort_by_key(rows, first_rows(rows, rows.len() as int));
    seq![csv_header()] + Seq::new(order.len(), |k: int| student_line(rows, order[k], with_round))
}

/// The plain view of string records.
pub open spec fn records_view(records: Seq<Vec<String>>) -> Seq<Seq<Seq<char>>> {
    Seq::new(records.len(), |i: int| Seq::new(records[i]@.len(), |j: int| records[i]@[j]@))
}

/// The bytes the `csv` crate's default writer produces for the given records.
pub uninterp spec fn csv_encoding(records: Seq<Seq<Seq<char>>>) -> Seq<u8>;

/// An in-memory `csv::Writer`, private to this module: what it holds is known
/// through `csv_written` and `csv_failed` alone.
#[verifier::external_body]
pub struct CsvSink {
    w: csv::Writer<Vec<u8>>,
}

/// The records an in-memory CSV writer has been given, in order, while none of
/// its writes had failed.
pub uninterp spec fn csv_written(w: CsvSink) -> Seq<Seq<Seq<char>>>;

/// Some write of the writer has failed. A refused record stays in the writer's
/// buffer and its field count is not reset, so the writer's later output no
/// longer follows the records given.
pub uninterp spec fn csv_failed(w: CsvSink) -> bool;

/// A record as plain values.
pub open spec fn record_view(rec: Seq<String>) -> Seq<Seq<char>> {
    Seq::new(rec.len(), |j: int| rec[j]@)
}

/// `csv::Writer::from_writer(Vec::new())`: the default settings (comma, `\n`,
/// quoting where needed, equal record lengths required), nothing written yet.
#[verifier::external_body]
fn csv_writer() -> (w: CsvSink)
    ensures
        csv_written(w) == Seq::<Seq<Seq<char>>>::empty(),
        !csv_failed(w),
{
    CsvSink { w: csv::Writer::from_writer(Vec::new()) }
}

/// `csv::Writer::write_record`. While no write has failed, the crate's source
/// refuses exactly a record whose field count differs from the first record's
/// (`check_field_count`, with the default non-flexible writer), writing into
/// memory failing in no other way; a record it accepts is added. A refusal
/// marks the writer as failed; what a failed writer does with later records is
/// not stated.
#[verifier::external_body]
fn csv_write_record(w: &mut CsvSink, rec: &Vec<String>) -> (r: Result<(), String>)
    ensures
        !csv_failed(*old(w)) ==> ((r is Ok) == (csv_written(*old(w)).len() == 0 || csv_written(*old(w))[0].len()
            == rec@.len())),
        !csv_failed(*old(w)) && r is Ok ==> csv_written(*final(w)) == csv_written(*old(w)).push(record_view(rec@))
            && !csv_failed(*final(w)),
        r is Err ==> csv_failed(*final(w)),
{
    w.w.write_record(rec).map_err(|e| e.to_string())
}

/// `csv::Writer::into_inner`: the bytes written. Flushing into a `Vec` cannot
/// fail (`Vec<u8>` accepts every write), so the result is `Ok`; when no write
/// failed, its bytes are named: they are fixed by the records alone.
#[verifier::external_body]
fn csv_bytes(w: CsvSink) -> (r: Result<Vec<u8>, String>)
    ensures
        r is Ok,
        r is Ok && !csv_failed(w) ==> r->Ok_0@ == csv_encoding(csv_written(w)),
{
    w.w.into_inner().map_err(|e| e.to_string())
}

/// Every record has as many fields as the first.
pub open spec fn same_lengths(records: Seq<Seq<Seq<char>>>) -> bool {
    forall|i: int| 0 <= i < records.len() ==> (#[trigger] records[i]).len() == records[0].len()
}

/// Writes records with the default CSV writer into memory; records of equal
/// length are always written.
fn write_csv(records: &Vec<Vec<String>>) -> (r: Result<Vec<u8>, String>)
    ensures
        r is Ok ==> r->Ok_0@ == csv_encoding(records_view(records@)),
        same_lengths(records_view(records@)) ==> r is Ok,
{
    let ghost rv = records_view(records@);
    let mut w = csv_writer();
    let mut i: usize = 0;
    while i < records.len()
        invariant
            i <= records@.len(),
            rv == records_view(records@),
            csv_written(w) == rv.take(i as int),
            !csv_failed(w),
        decreases records@.len() - i,
    {
        assert(record_view(records@[i as int]@) =~= rv[i as int]);
        let ghost before = csv_written(w);
        match csv_write_record(&mut w, &records[i]) {
            Ok(()) => {},
            Err(e) => {
                proof {
                    if same_lengths(rv) {
                        assert(rv[i as int].len() == rv[0].len());
                        assert(before.len() > 0 ==> before[0] == rv[0]);
                    }
                }
                return Err(e);
            },
        }
        assert(rv.take(i + 1) =~= rv.take(i as int).push(rv[i as int]));
        i = i + 1;
    }
    assert(rv.take(records@.len() as int) =~= rv);
    csv_bytes(w)
}

fn text_le_exec(a: &Vec<char>, b: &Vec<char>) -> (r: bool)
    ensures
        r == text_le(a@, b@),
{
    let mut i: usize = 0;
    assert(a@.skip(0) =~= a@ && b@.skip(0) =~= b@);
    while i < a.len() && i < b.len() && a[i] == b[i]
        invariant
            i <= a@.len(),
            i <= b@.len(),
            text_le(a@, b@) == text_le(a@.skip(i as int), b@.skip(i as int)),
        decreases a@.len() - i,
    {
        assert(a@.skip(i as int).drop_first() =~= a@.skip(i + 1));
        assert(b@.skip(i as int).drop_first() =~= b@.skip(i + 1));
        i = i + 1;
    }
    if i == a.len() {
        true
    } else if i == b.len() {
        false
    } else {
        (a[i] as u32) < (b[i] as u32)
    }
}

fn opt_lt_exec(a: Option<i64>, b: Option<i64>) -> (r: bool)
    ensures
        r == opt_lt(a, b),
{
    match (a, b) {
        (None, Some(_)) => true,
        (Some(x), Some(y)) => x < y,
        _ => false,
    }
}

fn key_le_exec(x: &ResultRow, y: &ResultRow) -> (r: bool)
    ensures
        r == row_key_le(*x, *y),
{
    if opt_lt_exec(x.seq_no, y.seq_no) {
        true
    } else if x.seq_no == y.seq_no {
        let a = chars_of(x.student_code.as_str());
        let b = chars_of(y.student_code.as_str());
        text_le_exec(&a, &b)
    } else {
        false
    }
}

/// The index of each student's first row, in order of first appearance.
fn student_firsts(rows: &Vec<ResultRow>) -> (r: Vec<usize>)
    ensures
        r@.len() == first_rows(rows@, rows@.len() as int).len(),
        forall|k: int| 0 <= k < r@.len() ==> r@[k] as int == first_rows(rows@, rows@.len() as int)[k],
{
    let mut out: Vec<usize> = Vec::new();
    let mut i: usize = 0;
    while i < rows.len()
        invariant
            i <= rows@.len(),
            out@.len() == first_rows(rows@, i as int).len(),
            forall|k: int| 0 <= k < out@.len() ==> out@[k] as int == first_rows(rows@, i as int)[k],
        decreases rows@.len() - i,
    {
        let mut j: usize = 0;
        let mut seen = false;
        while j < i
            invariant
                j <= i < rows@.len(),
                seen == (exists|t: int| 0 <= t < j && rows@[t].student_id == rows@[i as int].student_id),
            decreases i - j,
        {
            if rows[j].student_id == rows[i].student_id {
                seen = true;
            }
            j = j + 1;
        }
        if !seen {
            out.push(i);
        }
        i = i + 1;
    }
    out
}

/// Sorts row indices stably by their rows' keys.
fn sort_students(rows: &Vec<ResultRow>, idx: &Vec<usize>) -> (r: Vec<usize>)
    requires
        forall|k: int| 0 <= k < idx@.len() ==> idx@[k] < rows@.len(),
    ensures
        r@.len() == idx@.len(),
        forall|k: int| 0 <= k < r@.len() ==> r@[k] < rows@.len(),
        Seq::new(r@.len(), |k: int| r@[k] as int) == sort_by_key(
            rows@,
            Seq::new(idx@.len(), |k: int| idx@[k] as int),
        ),
{
    let ghost src = Seq::new(idx@.len(), |k: int| idx@[k] as int);
    let mut out: Vec<usize> = Vec::new();
    let mut i: usize = 0;
    while i < idx.len()
        invariant
            i <= idx@.len(),
            out@.len() == i,
            src == Seq::new(idx@.len(), |k: int| idx@[k] as int),
            forall|k: int| 0 <= k < idx@.len() ==> idx@[k] < rows@.len(),
            forall|k: int| 0 <= k < out@.len() ==> out@[k] < rows@.len(),
            Seq::new(out@.len(), |k: int| out@[k] as int) == sort_by_key(rows@, src.take(i as int)),
        decreases idx@.len() - i,
    {
        let x = idx[i];
        let ghost xi = x as int;
        let ghost cur = Seq::new(out@.len(), |k: int| out@[k] as int);
        let mut p: usize = out.len();
        assert(cur.take(p as int) =~= cur);
        assert(cur.skip(p as int) =~= Seq::<int>::empty());
        assert(insert_by_key(rows@, cur, xi) + Seq::<int>::empty() =~= insert_by_key(rows@, cur, xi));
        while p > 0 && !key_le_exec(&rows[out[p - 1]], &rows[x])
            invariant
                p <= out@.len(),
                x < rows@.len(),
                xi == x as int,
                forall|k: int| 0 <= k < out@.len() ==> out@[k] < rows@.len(),
                cur == Seq::new(out@.len(), |k: int| out@[k] as int),
                insert_by_key(rows@, cur, xi) == insert_by_key(rows@, cur.take(p as int), xi) + cur.skip(p as int),
            decreases p,
        {
            let ghost s = cur.take(p as int);
            assert(s.drop_last() =~= cur.take(p - 1));
            assert(s.last() == out@[p - 1] as int);
            assert(cur.skip(p - 1) =~= seq![s.last()] + cur.skip(p as int));
            assert(insert_by_key(rows@, s, xi) == insert_by_key(rows@, cur.take(p - 1), xi).push(s.last()));
            assert(insert_by_key(rows@, cur.take(p - 1), xi).push(s.last()) + cur.skip(p as int) =~= insert_by_key(
                rows@,
                cur.take(p - 1),
                xi,
            ) + cur.skip(p - 1));
            p = p - 1;
        }
        proof {
            if p == 0 {
                assert(cur.take(0) =~= Seq::<int>::empty());
            } else {
                assert(cur.take(p as int).last() == out@[p - 1] as int);
            }
            assert(insert_by_key(rows@, cur.take(p as int), xi) =~= cur.take(p as int).push(xi));
            assert(src.take(i + 1).drop_last() =~= src.take(i as int));
            assert(src.take(i + 1).last() == xi);
        }
        out.insert(p, x);
        proof {
            assert(Seq::new(out@.len(), |k: int| out@[k] as int) =~= cur.take(p as int).push(xi) + cur.skip(p as int));
        }
        i = i + 1;
    }
    assert(src.take(idx@.len() as int) =~= src);
    out
}

fn opt_cell_exec(v: Option<i64>) -> (s: String)
    ensures
        s@ == opt_cell(v),
{
    match v {
        Some(n) => {
            let t = i64_text(n);
            string_of(&t)
        },
        None => String::new(),
    }
}

/// The joined entries of student `sid`.
fn student_summary(rows: &Vec<ResultRow>, sid: i64, with_round: bool) -> (s: String)
    ensures
        s@ == joined(entries_of(rows@, sid, rows@.len() as int, with_round)),
{
    let mut out: Vec<char> = Vec::new();
    let mut count: usize = 0;
    let mut i: usize = 0;
    while i < rows.len()
        invariant
            i <= rows@.len(),
            count == entries_of(rows@, sid, i as int, with_round).len(),
            count <= i,
            out@ == joined(entries_of(rows@, sid, i as int, with_round)),
        decreases rows@.len() - i,
    {
        let ghost before = entries_of(rows@, sid, i as int, with_round);
        if rows[i].student_id == sid {
            if count > 0 {
                append_str(&mut out, ", ");
            }
            push_entry(&mut out, &rows[i], with_round);
            count = count + 1;
            proof {
                let after = before.push(entry_spec(rows@[i as int], with_round));
                assert(after.drop_last() =~= before);
                if before.len() == 0 {
                    assert(out@ =~= after[0]);
                }
            }
        }
        i = i + 1;
    }
    string_of(&out)
}

fn text_cell(s: &str) -> (r: String)
    ensures
        r@ == s@,
{
    let v = chars_of(s);
    string_of(&v)
}

/// The header and one line per student (see `csv_records_spec`).
pub fn csv_records(rows: &Vec<ResultRow>, with_round: bool) -> (r: Vec<Vec<String>>)
    ensures
        records_view(r@) == csv_records_spec(rows@, with_round),
{
    let mut out: Vec<Vec<String>> = Vec::new();
    let mut header: Vec<String> = Vec::new();
    header.push(text_cell("학생코드"));
    header.push(text_cell("학년"));
    header.push(text_cell("반"));
    header.push(text_cell("번호"));
    header.push(text_cell("이름"));
    header.push(text_cell("선발결과"));
    assert(Seq::new(header@.len(), |j: int| header@[j]@) =~= csv_header());
    out.push(header);
    let firsts = student_firsts(rows);
    let ghost fr = first_rows(rows@, rows@.len() as int);
    proof {
        assert(Seq::new(firsts@.len(), |k: int| firsts@[k] as int) =~= fr);
        assert forall|k: int| 0 <= k < firsts@.len() implies firsts@[k] < rows@.len() by {
            lemma_first_rows_bounded(rows@, rows@.len() as int);
            assert(fr[k] < rows@.len());
        }
    }
    let order = sort_students(rows, &firsts);
    let ghost ord = sort_by_key(rows@, fr);
    let mut k: usize = 0;
    while k < order.len()
        invariant
            k <= order@.len(),
            ord.len() == order@.len(),
            forall|t: int| 0 <= t < order@.len() ==> order@[t] < rows@.len(),
            forall|t: int| 0 <= t < order@.len() ==> #[trigger] ord[t] == order@[t] as int,
            out@.len() == k + 1,
            records_view(out@) =~= seq![csv_header()] + Seq::new(
                k as nat,
                |t: int| student_line(rows@, ord[t], with_round),
            ),
        decreases order@.len() - k,
    {
        let i = order[k];
        assert(ord[k as int] == i as int);
        let f = &rows[i];
        let mut line: Vec<String> = Vec::new();
        line.push(f.student_code.clone());
        line.push(opt_cell_exec(f.grade));
        line.push(opt_cell_exec(f.class_no));
        line.push(opt_cell_exec(f.seq_no));
        line.push(f.name.clone());
        line.push(student_summary(rows, f.student_id, with_round));
        assert(Seq::new(line@.len(), |j: int| line@[j]@) =~= student_line(rows@, i as int, with_round));
        let ghost prev = out@;
        out.push(line);
        assert(records_view(out@) =~= records_view(prev).push(student_line(rows@, i as int, with_round)));
        k = k + 1;
    }
    out
}

proof fn lemma_first_rows_bounded(rows: Seq<ResultRow>, n: int)
    ensures
        forall|k: int| 0 <= k < first_rows(rows, n).len() ==> 0 <= #[trigger] first_rows(rows, n)[k] < n,
    decreases n,
{
    if n > 0 {
        lemma_first_rows_bounded(rows, n - 1);
        let p = first_rows(rows, n - 1);
        if first_of_student(rows, n - 1) {
            assert forall|k: int| 0 <= k < p.push(n - 1).len() implies 0 <= #[trigger] p.push(n - 1)[k] < n by {
                if k < p.len() {
                    assert(p.push(n - 1)[k] == p[k]);
                }
            }
        }
    }
}

/// The UTF-8 byte-order mark, which spreadsheet programs need to read Korean text.
pub open spec fn bom() -> Seq<u8> {
    seq![0xEFu8, 0xBBu8, 0xBFu8]
}

/// The results CSV: byte-order mark, then the records. Students appear in key order;
/// each student's applications keep their row order.
pub fn build_csv(rows: &Vec<ResultRow>, with_round: bool) -> (r: Result<Vec<u8>, String>)
    ensures
        r matches Ok(b) && b@ == bom() + csv_encoding(csv_records_spec(rows@, with_round)),
{
    let records = csv_records(rows, with_round);
    proof {
        let rv = records_view(records@);
        assert(rv[0].len() == 6);
        assert forall|i: int| 0 <= i < rv.len() implies (#[trigger] rv[i]).len() == rv[0].len() by {
            if i > 0 {
                assert(rv[i] == csv_records_spec(rows@, with_round)[i]);
            }
        }
    }
    match write_csv(&records) {
        Ok(body) => {
            let mut out: Vec<u8> = Vec::new();
            out.push(0xEF);
            out.push(0xBB);
            out.push(0xBF);
            let mut i: usize = 0;
            while i < body.len()
                invariant
                    i <= body@.len(),
                    out@ == bom() + body@.take(i as int),
                decreases body@.len() - i,
            {
                out.push(body[i]);
                i = i + 1;
                assert(body@.take(i as int) =~= body@.take(i - 1).push(body@[i - 1]));
            }
            assert(body@.take(body@.len() as int) =~= body@);
            Ok(out)
        },
        Err(e) => {
            let mut v = chars_of("CSV 생성 실패: ");
            append_str(&mut v, e.as_str());
            Err(string_of(&v))
        },
    }
}

/// No value occurs twice.
pub open spec fn no_dup(s: Seq<int>) -> bool {
    forall|i: int, j: int| 0 <= i < j < s.len() ==> s[i] != s[j]
}

proof fn lemma_first_rows_facts(rows: Seq<ResultRow>, n: int)
    requires
        0 <= n <= rows.len(),
    ensures
        forall|t: int| 0 <= t < first_rows(rows, n).len() ==> 0 <= #[trigger] first_rows(rows, n)[t] < n
            && first_of_student(rows, first_rows(rows, n)[t]),
        forall|a: int, b: int| 0 <= a < b < first_rows(rows, n).len() ==> first_rows(rows, n)[a] < first_rows(rows, n)[b],
        forall|k: int| #![trigger rows[k]] 0 <= k < n ==> exists|t: int| 0 <= t < first_rows(rows, n).len()
            && rows[#[trigger] first_rows(rows, n)[t]].student_id == rows[k].student_id,
    decreases n,
{
    if n > 0 {
        lemma_first_rows_facts(rows, n - 1);
        let p = first_rows(rows, n - 1);
        let f = first_rows(rows, n);
        if first_of_student(rows, n - 1) {
            assert(f == p.push(n - 1));
            assert forall|t: int| 0 <= t < f.len() implies 0 <= #[trigger] f[t] < n && first_of_student(rows, f[t]) by {
                if t < p.len() {
                    assert(f[t] == p[t]);
                }
            }
            assert forall|a: int, b: int| 0 <= a < b < f.len() implies f[a] < f[b] by {
                if b < p.len() {
                    assert(f[a] == p[a] && f[b] == p[b]);
                } else {
                    assert(f[a] == p[a]);
                }
            }
            assert forall|k: int| #![trigger rows[k]] 0 <= k < n implies exists|t: int| 0 <= t < f.len()
                && rows[#[trigger] f[t]].student_id == rows[k].student_id by {
                if k < n - 1 {
                    let t = choose|t: int| 0 <= t < p.len() && rows[#[trigger] p[t]].student_id == rows[k].student_id;
                    assert(f[t] == p[t]);
                } else {
                    assert(f[p.len() as int] == n - 1);
                }
            }
        } else {
            assert(f == p);
            assert forall|k: int| #![trigger rows[k]] 0 <= k < n implies exists|t: int| 0 <= t < f.len()
                && rows[#[trigger] f[t]].student_id == rows[k].student_id by {
                if k == n - 1 {
                    assert(!first_of_student(rows, n - 1));
                    let j = choose|j: int| 0 <= j < n - 1 && (#[trigger] rows[j]).student_id == rows[n - 1].student_id;
                    let t = choose|t: int| 0 <= t < p.len() && rows[#[trigger] p[t]].student_id == rows[j].student_id;
                }
            }
        }
    }
}

proof fn lemma_insert_by_key(rows: Seq<ResultRow>, s: Seq<int>, x: int)
    ensures
        forall|y: int|
            #![trigger insert_by_key(rows, s, x).contains(y)]
            #![trigger s.contains(y)]
            insert_by_key(rows, s, x).contains(y) <==> (s.contains(y) || y == x),
        insert_by_key(rows, s, x).len() == s.len() + 1,
        no_dup(s) && !s.contains(x) ==> no_dup(insert_by_key(rows, s, x)),
    decreases s.len(),
{
    let r = insert_by_key(rows, s, x);
    if s.len() == 0 {
        assert(r == seq![x]);
        assert forall|y: int| r.contains(y) <==> (s.contains(y) || y == x) by {
            if y == x {
                assert(r[0] == x);
            }
        }
    } else if row_key_le(rows[s.last()], rows[x]) {
        assert(r == s.push(x));
        assert forall|y: int| r.contains(y) <==> (s.contains(y) || y == x) by {
            if s.contains(y) {
                let k = choose|k: int| 0 <= k < s.len() && s[k] == y;
                assert(r[k] == y);
            }
            if y == x {
                assert(r[s.len() as int] == x);
            }
        }
    } else {
        let d = s.drop_last();
        lemma_insert_by_key(rows, d, x);
        let ins = insert_by_key(rows, d, x);
        assert(r == ins.push(s.last()));
        assert forall|y: int| r.contains(y) <==> (s.contains(y) || y == x) by {
            if r.contains(y) {
                let k = choose|k: int| 0 <= k < r.len() && r[k] == y;
                if k < ins.len() {
                    assert(ins[k] == y);
                    assert(ins.contains(y));
                    if d.contains(y) {
                        let m = choose|m: int| 0 <= m < d.len() && d[m] == y;
                        assert(s[m] == y);
                    }
                } else {
                    assert(s[s.len() - 1] == y);
                }
            }
            if s.contains(y) {
                let k = choose|k: int| 0 <= k < s.len() && s[k] == y;
                if k < s.len() - 1 {
                    assert(d[k] == y);
                    assert(d.contains(y));
                    assert(ins.contains(y));
                    let m = choose|m: int| 0 <= m < ins.len() && ins[m] == y;
                    assert(r[m] == y);
                } else {
                    assert(r[r.len() - 1] == y);
                }
            }
            if y == x {
                assert(ins.contains(x));
                let m = choose|m: int| 0 <= m < ins.len() && ins[m] == x;
                assert(r[m] == x);
            }
        }
        if no_dup(s) && !s.contains(x) {
            assert(no_dup(d)) by {
                assert forall|i: int, j: int| 0 <= i < j < d.len() implies d[i] != d[j] by {
                    assert(d[i] == s[i] && d[j] == s[j]);
                }
            }
            assert(!d.contains(x)) by {
                if d.contains(x) {
                    let m = choose|m: int| 0 <= m < d.len() && d[m] == x;
                    assert(s[m] == x);
                }
            }
            assert(!ins.contains(s.last())) by {
                if ins.contains(s.last()) {
                    if d.contains(s.last()) {
                        let m = choose|m: int| 0 <= m < d.len() && d[m] == s.last();
                        assert(s[m] == s[s.len() - 1]);
                    } else {
                        assert(s.last() == x);
                        assert(s[s.len() - 1] == x);
                    }
                }
            }
            assert forall|i: int, j: int| 0 <= i < j < r.len() implies r[i] != r[j] by {
                if j == r.len() - 1 {
                    assert(r[i] == ins[i]);
                    assert(ins.contains(ins[i]));
                } else {
                    assert(r[i] == ins[i] && r[j] == ins[j]);
                }
            }
        }
    }
}

proof fn lemma_sort_by_key(rows: Seq<ResultRow>, s: Seq<int>)
    ensures
        forall|y: int|
            #![trigger sort_by_key(rows, s).contains(y)]
            #![trigger s.contains(y)]
            sort_by_key(rows, s).contains(y) <==> s.contains(y),
        sort_by_key(rows, s).len() == s.len(),
        no_dup(s) ==> no_dup(sort_by_key(rows, s)),
    decreases s.len(),
{
    if s.len() > 0 {
        let d = s.drop_last();
        lemma_sort_by_key(rows, d);
        let sd = sort_by_key(rows, d);
        lemma_insert_by_key(rows, sd, s.last());
        assert forall|y: int| sort_by_key(rows, s).contains(y) <==> s.contains(y) by {
            if d.contains(y) {
                let m = choose|m: int| 0 <= m < d.len() && d[m] == y;
                assert(s[m] == y);
            }
            if s.contains(y) {
                let m = choose|m: int| 0 <= m < s.len() && s[m] == y;
                if m < s.len() - 1 {
                    assert(d[m] == y);
                }
            }
        }
        if no_dup(s) {
            assert(no_dup(d)) by {
                assert forall|i: int, j: int| 0 <= i < j < d.len() implies d[i] != d[j] by {
                    assert(d[i] == s[i] && d[j] == s[j]);
                }
            }
            assert(!sd.contains(s.last())) by {
                if d.contains(s.last()) {
                    let m = choose|m: int| 0 <= m < d.len() && d[m] == s.last();
                    assert(s[m] == s[s.len() - 1]);
                }
            }
        }
    } else {
        assert(sort_by_key(rows, s) =~= Seq::<int>::empty());
    }
}

/// Law (one line per student): the student lines of the results CSV name every
/// student of the rows, and no student twice.
#[verifier::rlimit(40)]
pub proof fn law_one_line_per_student(rows: Seq<ResultRow>)
    ensures
        ({
            let order = sort_by_key(rows, first_rows(rows, rows.len() as int));
            &&& forall|i: int, j: int| 0 <= i < j < order.len() ==> rows[order[i]].student_id != rows[order[j]].student_id
            &&& forall|k: int| #![trigger rows[k]] 0 <= k < rows.len() ==> exists|t: int| 0 <= t < order.len()
                && rows[#[trigger] order[t]].student_id == rows[k].student_id
            &&& forall|t: int| 0 <= t < order.len() ==> 0 <= #[trigger] order[t] < rows.len()
        }),
{
    let n = rows.len() as int;
    let f = first_rows(rows, n);
    let order = sort_by_key(rows, f);
    lemma_first_rows_facts(rows, n);
    lemma_sort_by_key(rows, f);
    assert(no_dup(f)) by {
        assert forall|i: int, j: int| 0 <= i < j < f.len() implies f[i] != f[j] by {
            assert(f[i] < f[j]);
        }
    }
    assert forall|t: int| 0 <= t < order.len() implies 0 <= #[trigger] order[t] < rows.len() by {
        assert(order.contains(order[t]));
        assert(f.contains(order[t]));
        let m = choose|m: int| 0 <= m < f.len() && f[m] == order[t];
        assert(0 <= f[m] < n);
    }
    assert(no_dup(order));
    assert forall|i: int, j: int| 0 <= i < j < order.len() implies rows[order[i]].student_id != rows[order[j]].student_id by {
        assert(order.contains(order[i]) && order.contains(order[j]));
        assert(f.contains(order[i]) && f.contains(order[j]));
        let a = choose|a: int| 0 <= a < f.len() && f[a] == order[i];
        let b = choose|b: int| 0 <= b < f.len() && f[b] == order[j];
        assert(order[i] != order[j]);
        assert(f[a] != f[b]);
        if a < b {
            assert(f[a] < f[b]);
            assert(first_of_student(rows, f[b]));
        } else {
            assert(f[b] < f[a]);
            assert(first_of_student(rows, f[a]));
        }
    }
    assert forall|k: int| #![trigger rows[k]] 0 <= k < rows.len() implies exists|t: int| 0 <= t < order.len()
        && rows[#[trigger] order[t]].student_id == rows[k].student_id by {
        let t = choose|t: int| 0 <= t < f.len() && rows[#[trigger] f[t]].student_id == rows[k].student_id;
        assert(f.contains(f[t]));
        assert(order.contains(f[t]));
        let u = choose|u: int| 0 <= u < order.len() && order[u] == f[t];
        assert(rows[order[u]].student_id == rows[k].student_id);
    }
}

proof fn lemma_text_le_total(a: Seq<char>, b: Seq<char>)
    ensures
        text_le(a, b) || text_le(b, a),
    decreases a.len(),
{
    if a.len() > 0 && b.len() > 0 {
        if a[0] == b[0] {
            lemma_text_le_total(a.drop_first(), b.drop_first());
        } else {
            vstd::utf8::char_u32_cast(a[0], a[0] as u32);
            vstd::utf8::char_u32_cast(b[0], b[0] as u32);
        }
    }
}

proof fn lemma_text_le_trans(a: Seq<char>, b: Seq<char>, c: Seq<char>)
    requires
        text_le(a, b),
        text_le(b, c),
    ensures
        text_le(a, c),
    decreases a.len(),
{
    if a.len() > 0 && b.len() > 0 && c.len() > 0 && a[0] == b[0] && b[0] == c[0] {
        lemma_text_le_trans(a.drop_first(), b.drop_first(), c.drop_first());
    }
}

proof fn lemma_key_total(a: ResultRow, b: ResultRow)
    ensures
        row_key_le(a, b) || row_key_le(b, a),
{
    lemma_text_le_total(a.student_code@, b.student_code@);
}

proof fn lemma_key_trans(a: ResultRow, b: ResultRow, c: ResultRow)
    requires
        row_key_le(a, b),
        row_key_le(b, c),
    ensures
        row_key_le(a, c),
{
    if a.seq_no == b.seq_no && b.seq_no == c.seq_no {
        lemma_text_le_trans(a.student_code@, b.student_code@, c.student_code@);
    }
}

/// The row indices are in key order.
pub open spec fn sorted_rows(rows: Seq<ResultRow>, s: Seq<int>) -> bool {
    forall|i: int, j: int| 0 <= i <= j < s.len() ==> row_key_le(rows[s[i]], rows[s[j]])
}

proof fn lemma_insert_bounded_rows(rows: Seq<ResultRow>, s: Seq<int>, x: int, b: int)
    requires
        forall|i: int| 0 <= i < s.len() ==> row_key_le(rows[#[trigger] s[i]], rows[b]),
        row_key_le(rows[x], rows[b]),
    ensures
        forall|i: int| 0 <= i < insert_by_key(rows, s, x).len() ==> row_key_le(rows[#[trigger] insert_by_key(rows, s, x)[i]], rows[b]),
    decreases s.len(),
{
    let r = insert_by_key(rows, s, x);
    lemma_insert_by_key(rows, s, x);
    if s.len() == 0 {
        assert forall|i: int| 0 <= i < r.len() implies row_key_le(rows[#[trigger] r[i]], rows[b]) by {
            assert(r[i] == x);
        }
    } else if row_key_le(rows[s.last()], rows[x]) {
        assert(r == s.push(x));
        assert forall|i: int| 0 <= i < r.len() implies row_key_le(rows[#[trigger] r[i]], rows[b]) by {
            if i < s.len() {
                assert(r[i] == s[i]);
            } else {
                assert(r[i] == x);
            }
        }
    } else {
        let d = s.drop_last();
        assert forall|i: int| 0 <= i < d.len() implies row_key_le(rows[#[trigger] d[i]], rows[b]) by {
            assert(d[i] == s[i]);
        }
        lemma_insert_bounded_rows(rows, d, x, b);
        let ins = insert_by_key(rows, d, x);
        assert(r == ins.push(s.last()));
        assert forall|i: int| 0 <= i < r.len() implies row_key_le(rows[#[trigger] r[i]], rows[b]) by {
            if i < ins.len() {
                assert(r[i] == ins[i]);
            } else {
                assert(r[i] == s[s.len() - 1]);
            }
        }
    }
}

proof fn lemma_insert_sorted_rows(rows: Seq<ResultRow>, s: Seq<int>, x: int)
    requires
        sorted_rows(rows, s),
    ensures
        sorted_rows(rows, insert_by_key(rows, s, x)),
    decreases s.len(),
{
    lemma_insert_by_key(rows, s, x);
    if s.len() == 0 {
        let r = insert_by_key(rows, s, x);
        assert(r == seq![x]);
        lemma_key_total(rows[x], rows[x]);
    } else if row_key_le(rows[s.last()], rows[x]) {
        let r = s.push(x);
        assert forall|i: int, j: int| 0 <= i <= j < r.len() implies row_key_le(rows[r[i]], rows[r[j]]) by {
            if j == r.len() - 1 {
                if i < j {
                    assert(row_key_le(rows[s[i]], rows[s[s.len() - 1]]));
                    lemma_key_trans(rows[s[i]], rows[s[s.len() - 1]], rows[x]);
                } else {
                    lemma_key_total(rows[x], rows[x]);
                }
            } else {
                assert(r[i] == s[i] && r[j] == s[j]);
            }
        }
    } else {
        let d = s.drop_last();
        let l = s.last();
        lemma_key_total(rows[l], rows[x]);
        assert(sorted_rows(rows, d)) by {
            assert forall|i: int, j: int| 0 <= i <= j < d.len() implies row_key_le(rows[d[i]], rows[d[j]]) by {
                assert(d[i] == s[i] && d[j] == s[j]);
            }
        }
        lemma_insert_sorted_rows(rows, d, x);
        assert forall|i: int| 0 <= i < d.len() implies row_key_le(rows[#[trigger] d[i]], rows[l]) by {
            assert(d[i] == s[i]);
            assert(row_key_le(rows[s[i]], rows[s[s.len() - 1]]));
        }
        lemma_insert_bounded_rows(rows, d, x, l);
        let ins = insert_by_key(rows, d, x);
        let r = ins.push(l);
        assert forall|i: int, j: int| 0 <= i <= j < r.len() implies row_key_le(rows[r[i]], rows[r[j]]) by {
            if j == r.len() - 1 {
                if i < j {
                    assert(r[i] == ins[i]);
                    assert(row_key_le(rows[ins[i]], rows[l]));
                } else {
                    lemma_key_total(rows[l], rows[l]);
                }
            } else {
                assert(r[i] == ins[i] && r[j] == ins[j]);
            }
        }
    }
}

proof fn lemma_sort_sorted_rows(rows: Seq<ResultRow>, s: Seq<int>)
    ensures
        sorted_rows(rows, sort_by_key(rows, s)),
    decreases s.len(),
{
    if s.len() > 0 {
        lemma_sort_sorted_rows(rows, s.drop_last());
        lemma_insert_sorted_rows(rows, sort_by_key(rows, s.drop_last()), s.last());
    }
}

/// Law (line order): the student lines of the results CSV are in key order —
/// graduates (no class number) first, then by class number, equal numbers by code.
pub proof fn law_lines_in_key_order(rows: Seq<ResultRow>)
    ensures
        sorted_rows(rows, sort_by_key(rows, first_rows(rows, rows.len() as int))),
{
    lemma_sort_sorted_rows(rows, first_rows(rows, rows.len() as int));
}

} // verus!
