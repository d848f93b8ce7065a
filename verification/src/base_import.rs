//! Planning the import of an area's base data (each student's raw value)
//! from the rows of an uploaded sheet: every row is checked, and the plan
//! says which values to write, or which errors refuse the upload.
use vstd::prelude::*;
use crate::enums::{CalcType, LookupScope};
use crate::imports::{
    base_value, check_graduated_key, convert_base_value, duplicate_student_error, enrolled_key, enrolled_label,
    enrolled_missing_error, graduated_label, graduated_missing_error, parse_enrolled_key, position_text, row_head,
};
use crate::sheet::texts;
use crate::table_import::{resolve_track_of, same_track, track_of, TrackLookup};

verus! {

/// One data row of an uploaded base-data sheet: the student's name and key
/// cells (grade, class and number for an enrolled student, a code for a
/// graduate), the value cell, the university and track names, what the lookup
/// of the student by its key gave, and what the lookup of the track gave.
/// The student lookup is read only once the key cells are valid; the track
/// lookup only for a per-track area whose row names both a university and a track.
#[derive(Debug, Clone)]
pub struct BaseRow {
    pub name: String,
    pub grade: String,
    pub class_no: String,
    pub seq_no: String,
    pub student_code: String,
    pub value: String,
    pub univ_name: String,
    pub track_name: String,
    pub student: Option<i64>,
    pub track: TrackLookup,
}

/// The plan of an accepted base-data upload: the values
/// `(student, track, value)` to write in row order, the `(student, track)`
/// pairs whose earlier values a multi-value area replaces (each once, in the
/// order they first occur; none for a single-value area), and the notes.
#[derive(Debug, Clone)]
pub struct BasePlan {
    pub writes: Vec<(i64, Option<i64>, String)>,
    pub affected: Vec<(i64, Option<i64>)>,
    pub info: Vec<String>,
}

/// The student of a row of sheet line `n` and how messages name it: an
/// enrolled student by a valid name, grade, class and number, a graduate by a
/// code and a name; an error when a cell is missing or unreadable or when the
/// lookup found no such student.
pub open spec fn row_student(enrolled: bool, r: BaseRow, n: int) -> Result<(i64, Seq<char>), Seq<char>> {
    if enrolled {
        match enrolled_key(r.name@, r.grade@, r.class_no@, r.seq_no@, n) {
            Err(e) => Err(e),
            Ok((g, c, s)) => match r.student {
                Some(id) => Ok((id, position_text(g, c, s))),
                None => Err(row_head(n) + position_text(g, c, s) + " — 등록된 재학생을 찾을 수 없습니다"@),
            },
        }
    } else if r.student_code@.len() == 0 {
        Err(row_head(n) + "학생코드 누락"@)
    } else if r.name@.len() == 0 {
        Err(row_head(n) + "이름 누락"@)
    } else {
        match r.student {
            Some(id) => Ok((id, "학생코드 '"@ + r.student_code@ + "'"@)),
            None => Err(
                row_head(n) + "학생코드 '"@ + r.student_code@ + "'에 해당하는 졸업생이 없습니다 (졸업생을 먼저 등록하세요)"@,
            ),
        }
    }
}

/// The values to write as `(student, track, value text)`.
pub open spec fn writes_view(w: Seq<(i64, Option<i64>, String)>) -> Seq<(i64, Option<i64>, Seq<char>)> {
    w.map_values(|x: (i64, Option<i64>, String)| (x.0, x.1, x.2@))
}

/// Some value is already written for `student` in table `track`.
pub open spec fn has_write(w: Seq<(i64, Option<i64>, Seq<char>)>, student: i64, track: Option<i64>) -> bool {
    exists|j: int| 0 <= j < w.len() && w[j].0 == student && w[j].1 == track
}

/// The rows of a base-data sheet read one by one (row `i` is sheet line
/// `i + 2`): the errors, the values to write and the notes. A row is refused
/// for a bad or unknown student, a missing or bad value, a bad track, or, in
/// a single-value area, a student whose value for the same track is already
/// in the file.
pub open spec fn base_rows(
    enrolled: bool,
    calc_type: CalcType,
    max_score: i64,
    scope: LookupScope,
    single_value: bool,
    rows: Seq<BaseRow>,
) -> (Seq<Seq<char>>, Seq<(i64, Option<i64>, Seq<char>)>, Seq<Seq<char>>)
    decreases rows.len(),
{
    if rows.len() == 0 {
        (Seq::empty(), Seq::empty(), Seq::empty())
    } else {
        let prev = base_rows(enrolled, calc_type, max_score, scope, single_value, rows.drop_last());
        let (errors, w, info) = prev;
        let r = rows.last();
        let n: int = rows.len() as int + 1;
        match row_student(enrolled, r, n) {
            Err(e) => (errors.push(e), w, info),
            Ok((sid, label)) => match base_value(r.value@, calc_type, max_score, n) {
                Err(e) => (errors.push(e), w, info),
                Ok(v) => match track_of(scope, r.univ_name@, r.track_name@, r.track, n) {
                    Err(e) => (errors.push(e), w, info),
                    Ok((t, note)) => {
                        let info2 = match note {
                            Some(m) => info.push(m),
                            None => info,
                        };
                        if single_value && has_write(w, sid, t) {
                            (
                                errors.push(row_head(n) + label + " 중복 — 파일에 같은 학생이 두 번 이상 존재합니다"@),
                                w,
                                info2,
                            )
                        } else {
                            (errors, w.push((sid, t, v)), info2)
                        }
                    },
                },
            },
        }
    }
}

/// The `(student, track)` pairs of the writes, each once, in the order they first occur.
pub open spec fn pairs_in_order(w: Seq<(i64, Option<i64>, Seq<char>)>) -> Seq<(i64, Option<i64>)>
    decreases w.len(),
{
    if w.len() == 0 {
        Seq::empty()
    } else {
        let p = pairs_in_order(w.drop_last());
        if p.contains((w.last().0, w.last().1)) {
            p
        } else {
            p.push((w.last().0, w.last().1))
        }
    }
}

/// The import of base data: refused with the row errors when there are any;
/// else accepted with the values to write, the pairs whose earlier values a
/// multi-value area replaces, and the notes of created tracks.
pub open spec fn base_data_plan(
    enrolled: bool,
    calc_type: CalcType,
    max_score: i64,
    scope: LookupScope,
    multi_value: bool,
    rows: Seq<BaseRow>,
) -> Result<(Seq<(i64, Option<i64>, Seq<char>)>, Seq<(i64, Option<i64>)>, Seq<Seq<char>>), Seq<Seq<char>>> {
    let (errors, w, info) = base_rows(enrolled, calc_type, max_score, scope, !multi_value, rows);
    if errors.len() > 0 {
        Err(errors)
    } else {
        Ok((w, if multi_value { pairs_in_order(w) } else { Seq::empty() }, info))
    }
}

fn student_of(enrolled: bool, r: &BaseRow, n: usize) -> (out: Result<(i64, String), String>)
    ensures
        match row_student(enrolled, *r, n as int) {
            Ok((sid, label)) => out matches Ok((s2, l2)) && s2 == sid && l2@ == label,
            Err(e) => out matches Err(m) && m@ == e,
        },
{
    if enrolled {
        let (g, c, s) = parse_enrolled_key(n, r.name.as_str(), r.grade.as_str(), r.class_no.as_str(), r.seq_no.as_str())?;
        match r.student {
            Some(id) => Ok((id, enrolled_label(g, c, s))),
            None => Err(enrolled_missing_error(n, g, c, s)),
        }
    } else {
        check_graduated_key(n, r.student_code.as_str(), r.name.as_str())?;
        match r.student {
            Some(id) => Ok((id, graduated_label(r.student_code.as_str()))),
            None => Err(graduated_missing_error(n, r.student_code.as_str())),
        }
    }
}

fn has_write_exec(w: &Vec<(i64, Option<i64>, String)>, student: i64, track: Option<i64>) -> (r: bool)
    ensures
        r == has_write(writes_view(w@), student, track),
{
    let mut j: usize = 0;
    while j < w.len()
        invariant
            j <= w@.len(),
            forall|k: int| 0 <= k < j ==> !(w@[k].0 == student && w@[k].1 == track),
        decreases w@.len() - j,
    {
        if w[j].0 == student && same_track(w[j].1, track) {
            assert(writes_view(w@)[j as int].0 == student);
            return true;
        }
        j = j + 1;
    }
    proof {
        if has_write(writes_view(w@), student, track) {
            let k = choose|k: int| 0 <= k < w@.len() && writes_view(w@)[k].0 == student && writes_view(w@)[k].1 == track;
            assert(w@[k].0 == student);
        }
    }
    false
}

fn affected_pairs(w: &Vec<(i64, Option<i64>, String)>) -> (r: Vec<(i64, Option<i64>)>)
    ensures
        r@ == pairs_in_order(writes_view(w@)),
{
    let mut out: Vec<(i64, Option<i64>)> = Vec::new();
    let mut i: usize = 0;
    while i < w.len()
        invariant
            i <= w@.len(),
            out@ == pairs_in_order(writes_view(w@.take(i as int))),
        decreases w@.len() - i,
    {
        let p = (w[i].0, w[i].1);
        proof {
            assert(writes_view(w@.take(i + 1)).drop_last() =~= writes_view(w@.take(i as int)));
        }
        let mut k: usize = 0;
        let mut found = false;
        while k < out.len()
            invariant
                k <= out@.len(),
                found <==> exists|j: int| 0 <= j < k && out@[j] == p,
            decreases out@.len() - k,
        {
            if out[k].0 == p.0 && same_track(out[k].1, p.1) {
                found = true;
            }
            k = k + 1;
        }
        proof {
            if found {
                let j = choose|j: int| 0 <= j < k && out@[j] == p;
                assert(out@.contains(p));
            } else {
                assert(!out@.contains(p));
            }
        }
        if !found {
            out.push(p);
        }
        i = i + 1;
    }
    assert(w@.take(w@.len() as int) =~= w@);
    out
}

/// Plans the import of base data from its data rows (see `base_data_plan`):
/// `Ok` with the values to write, the pairs to replace and the notes, or
/// `Err` with the errors that refuse the upload.
pub fn plan_base_data_import(
    enrolled: bool,
    calc_type: CalcType,
    max_score: i64,
    scope: LookupScope,
    multi_value: bool,
    rows: &Vec<BaseRow>,
) -> (r: Result<BasePlan, Vec<String>>)
    requires
        rows@.len() + 2 <= usize::MAX,
    ensures
        match base_data_plan(enrolled, calc_type, max_score, scope, multi_value, rows@) {
            Ok((w, affected, info)) => r matches Ok(p) && writes_view(p.writes@) == w && p.affected@ == affected
                && texts(p.info@) == info,
            Err(es) => r matches Err(e) && texts(e@) == es,
        },
{
    let single_value = !multi_value;
    let mut errors: Vec<String> = Vec::new();
    let mut w: Vec<(i64, Option<i64>, String)> = Vec::new();
    let mut info: Vec<String> = Vec::new();
    let mut i: usize = 0;
    while i < rows.len()
        invariant
            i <= rows@.len(),
            rows@.len() + 2 <= usize::MAX,
            single_value == !multi_value,
            base_rows(enrolled, calc_type, max_score, scope, single_value, rows@.take(i as int)) == (
                texts(errors@),
                writes_view(w@),
                texts(info@),
            ),
        decreases rows@.len() - i,
    {
        let r = &rows[i];
        let n = i + 2;
        proof {
            assert(rows@.take(i + 1).drop_last() =~= rows@.take(i as int));
            assert(rows@.take(i + 1).last() == rows@[i as int]);
        }
        let ghost e0 = errors@;
        let ghost f0 = info@;
        let ghost w0 = w@;
        match student_of(enrolled, r, n) {
            Err(e) => {
                errors.push(e);
                assert(texts(errors@) =~= texts(e0).push(e@));
            },
            Ok((sid, label)) => match convert_base_value(n, r.value.as_str(), calc_type, max_score) {
                Err(e) => {
                    errors.push(e);
                    assert(texts(errors@) =~= texts(e0).push(e@));
                },
                Ok(v) => match resolve_track_of(scope, r.univ_name.as_str(), r.track_name.as_str(), &r.track, n) {
                    Err(e) => {
                        errors.push(e);
                        assert(texts(errors@) =~= texts(e0).push(e@));
                    },
                    Ok((t, note)) => {
                        match note {
                            Some(m) => {
                                info.push(m);
                                assert(texts(info@) =~= texts(f0).push(m@));
                            },
                            None => {},
                        }
                        if single_value && has_write_exec(&w, sid, t) {
                            errors.push(duplicate_student_error(n, label.as_str()));
                            assert(texts(errors@) =~= texts(e0).push(errors@.last()@));
                        } else {
                            w.push((sid, t, v));
                            assert(writes_view(w@) =~= writes_view(w0).push((sid, t, v@)));
                        }
                    },
                },
            },
        }
        i = i + 1;
    }
    assert(rows@.take(rows@.len() as int) =~= rows@);
    if errors.len() > 0 {
        return Err(errors);
    }
    let affected = if multi_value {
        affected_pairs(&w)
    } else {
        Vec::new()
    };
    Ok(BasePlan { writes: w, affected, info })
}

/// No two writes are for the same student in the same table.
pub open spec fn one_write_each(w: Seq<(i64, Option<i64>, Seq<char>)>) -> bool {
    forall|j: int, k: int| 0 <= j < k < w.len() ==> !(w[j].0 == w[k].0 && w[j].1 == w[k].1)
}

proof fn lemma_single_rows_unique(
    enrolled: bool,
    calc_type: CalcType,
    max_score: i64,
    scope: LookupScope,
    rows: Seq<BaseRow>,
)
    ensures
        one_write_each(base_rows(enrolled, calc_type, max_score, scope, true, rows).1),
    decreases rows.len(),
{
    if rows.len() > 0 {
        lemma_single_rows_unique(enrolled, calc_type, max_score, scope, rows.drop_last());
    }
}

/// Law (a single-value area keeps one value per student): an accepted upload
/// of base data into a single-value area writes at most one value for each
/// student in each table; a file that names a student twice for the same
/// table is refused.
pub proof fn law_single_value_one_write(
    enrolled: bool,
    calc_type: CalcType,
    max_score: i64,
    scope: LookupScope,
    rows: Seq<BaseRow>,
)
    requires
        base_data_plan(enrolled, calc_type, max_score, scope, false, rows) is Ok,
    ensures
        one_write_each(base_data_plan(enrolled, calc_type, max_score, scope, false, rows)->Ok_0.0),
{
    lemma_single_rows_unique(enrolled, calc_type, max_score, scope, rows);
}

} // verus!
