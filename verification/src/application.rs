//! Validation and encoding of the base data a class teacher submits with an
//! application: every teacher-editable area must be given, and each value is
//! checked against its area before anything is written.
use vstd::prelude::*;
use crate::display::{fmt_score, parse_display_value, score_text, spec_parse_display};
use crate::enums::{CalcType, CategoryAgg, LookupScope};
use crate::guards::{refuse, refuse_chars, Refusal};
use crate::text::{append_str, chars_of, i64_text, int_text, push_all, string_of, trim, trim_chars};

verus! {

/// What the validation needs to know of an area.
#[derive(Debug, Clone, Copy, PartialEq, Eq)]
pub struct AreaInfo {
    pub id: i64,
    pub calc_type: CalcType,
    pub teacher_editable: bool,
    pub lookup_scope: LookupScope,
    /// Several category values may be given (the area sums its categories).
    pub multi_value: bool,
    pub max_score: i64,
}

impl AreaInfo {
    /// The area's information; it takes several values exactly when its
    /// categories are summed.
    pub fn new(
        id: i64,
        calc_type: CalcType,
        teacher_editable: bool,
        lookup_scope: LookupScope,
        category_agg: Option<CategoryAgg>,
        max_score: i64,
    ) -> (a: AreaInfo)
        ensures
            a == (AreaInfo {
                id,
                calc_type,
                teacher_editable,
                lookup_scope,
                multi_value: category_agg == Some(CategoryAgg::Sum),
                max_score,
            }),
    {
        let multi_value = match category_agg {
            Some(CategoryAgg::Sum) => true,
            _ => false,
        };
        AreaInfo { id, calc_type, teacher_editable, lookup_scope, multi_value, max_score }
    }
}

/// One submitted base-data item: display values for an area.
#[derive(Debug, Clone)]
pub struct BaseDataEntry {
    pub area_id: i64,
    pub values: Vec<String>,
}

/// A validated item, ready to be stored.
#[derive(Debug, Clone)]
pub struct EncodedEntry {
    pub area_id: i64,
    /// The track the value belongs to (`None` for a global area).
    pub lookup_track: Option<i64>,
    /// The stored values: a fixed-point integer in decimal, or trimmed categories.
    pub db_values: Vec<String>,
    pub multi_value: bool,
}

/// An encoded item as plain values.
pub open spec fn encoded_view(e: EncodedEntry) -> (i64, Option<i64>, Seq<Seq<char>>, bool) {
    (e.area_id, e.lookup_track, strings_view(e.db_values@), e.multi_value)
}

/// Strings as character sequences.
pub open spec fn strings_view(v: Seq<String>) -> Seq<Seq<char>> {
    v.map_values(|s: String| s@)
}

/// An entry carries values (entries without any are ignored).
pub open spec fn submitted(e: BaseDataEntry) -> bool {
    e.values@.len() > 0
}

/// The first area with id `id` from index `i` on.
pub open spec fn find_area(areas: Seq<AreaInfo>, id: i64, i: int) -> Option<int>
    decreases areas.len() - i,
{
    if i < 0 || i >= areas.len() {
        None
    } else if areas[i].id == id {
        Some(i)
    } else {
        find_area(areas, id, i + 1)
    }
}

/// `"전형요소 id=<id>"`, the start of every message about an area.
pub open spec fn area_label(id: i64) -> Seq<char> {
    "전형요소 id="@ + int_text(id as int)
}

/// The error of a failed validation: a status and a message.
pub open spec fn err_of<T>(status: u16, message: Seq<char>) -> Result<T, (u16, Seq<char>)> {
    Err((status, message))
}

/// Encodes one submitted entry for its area: numeric and manual areas take
/// exactly one display value, parsed to fixed point (a manual value may not
/// exceed the area's maximum); category areas take trimmed, non-blank values,
/// several only when the area sums its categories.
#[verifier::opaque]
pub open spec fn encode_spec(area: AreaInfo, e: BaseDataEntry, track_id: i64) -> Result<
    (i64, Option<i64>, Seq<Seq<char>>, bool),
    (u16, Seq<char>),
> {
    let vals = strings_view(e.values@);
    let lt = if area.lookup_scope == LookupScope::Composite {
        Some(track_id)
    } else {
        None
    };
    let label = area_label(e.area_id);
    match area.calc_type {
        CalcType::Category => if !area.multi_value && vals.len() > 1 {
            err_of(400, label + ": 단일값 전형요소에 복수값 입력 불가"@)
        } else if exists|k: int| 0 <= k < vals.len() && trim(#[trigger] vals[k]).len() == 0 {
            err_of(400, label + ": 빈 범주 값은 허용되지 않습니다"@)
        } else {
            Ok((e.area_id, lt, vals.map_values(|v: Seq<char>| trim(v)), area.multi_value))
        },
        _ => if vals.len() != 1 {
            err_of(400, label + ": NUMERIC/MANUAL은 정확히 1개의 값이 필요합니다"@)
        } else {
            match spec_parse_display(vals[0]) {
                Err(m) => err_of(400, label + ": "@ + m),
                Ok(v) => if area.calc_type == CalcType::Manual && v > area.max_score {
                    err_of(
                        400,
                        label + ": 값("@ + score_text(v as int) + ")이 만점("@ + score_text(area.max_score as int)
                            + ")을 초과합니다"@,
                    )
                } else {
                    Ok((e.area_id, lt, seq![int_text(v as int)], area.multi_value))
                },
            }
        },
    }
}

/// The first failure among entries `0..n`: an unknown area (404) or an area
/// the teacher may not fill in (403).
pub open spec fn editable_failure(areas: Seq<AreaInfo>, entries: Seq<BaseDataEntry>, n: int) -> Option<(u16, Seq<char>)>
    decreases n,
{
    if n <= 0 {
        None
    } else {
        match editable_failure(areas, entries, n - 1) {
            Some(f) => Some(f),
            None => {
                let e = entries[n - 1];
                if !submitted(e) {
                    None
                } else {
                    match find_area(areas, e.area_id, 0) {
                        None => Some((404u16, area_label(e.area_id) + " 없음"@)),
                        Some(i) => if !areas[i].teacher_editable {
                            Some((403u16, area_label(e.area_id) + "는 담임 입력이 허용되지 않습니다"@))
                        } else {
                            None
                        },
                    }
                }
            },
        }
    }
}

/// Some submitted entry gives area `id`.
pub open spec fn is_given(entries: Seq<BaseDataEntry>, id: i64) -> bool {
    exists|j: int| 0 <= j < entries.len() && submitted(#[trigger] entries[j]) && entries[j].area_id == id
}

/// The first teacher-editable area among areas `0..n` that no entry gives (422).
pub open spec fn missing_failure(areas: Seq<AreaInfo>, entries: Seq<BaseDataEntry>, n: int) -> Option<(u16, Seq<char>)>
    decreases n,
{
    if n <= 0 {
        None
    } else {
        match missing_failure(areas, entries, n - 1) {
            Some(f) => Some(f),
            None => {
                let a = areas[n - 1];
                if a.teacher_editable && !is_given(entries, a.id) {
                    Some(
                        (
                            422u16,
                            area_label(a.id) + "의 값이 누락되었습니다. 모든 담임 입력 전형요소에 값을 입력해야 합니다"@,
                        ),
                    )
                } else {
                    None
                }
            },
        }
    }
}

/// The encoding of entries `0..n` in order, or the first failure.
pub open spec fn encode_all(
    areas: Seq<AreaInfo>,
    entries: Seq<BaseDataEntry>,
    track_id: i64,
    n: int,
) -> Result<Seq<(i64, Option<i64>, Seq<Seq<char>>, bool)>, (u16, Seq<char>)>
    decreases n,
{
    if n <= 0 {
        Ok(Seq::empty())
    } else {
        match encode_all(areas, entries, track_id, n - 1) {
            Err(f) => Err(f),
            Ok(acc) => {
                let e = entries[n - 1];
                if !submitted(e) {
                    Ok(acc)
                } else {
                    match find_area(areas, e.area_id, 0) {
                        None => err_of(404, area_label(e.area_id) + " 없음"@),
                        Some(i) => match encode_spec(areas[i], e, track_id) {
                            Err(f) => Err(f),
                            Ok(x) => Ok(acc.push(x)),
                        },
                    }
                }
            },
        }
    }
}

/// The validation of a submitted application, checks in order: a department
/// name is required; every submitted entry names a teacher-editable area;
/// every teacher-editable area is given; every entry encodes.
pub open spec fn validate_spec(
    department_name: Seq<char>,
    areas: Seq<AreaInfo>,
    entries: Seq<BaseDataEntry>,
    track_id: i64,
) -> Result<Seq<(i64, Option<i64>, Seq<Seq<char>>, bool)>, (u16, Seq<char>)> {
    if trim(department_name).len() == 0 {
        err_of(400, "학과명은 필수입니다"@)
    } else {
        match editable_failure(areas, entries, entries.len() as int) {
            Some(f) => Err(f),
            None => match missing_failure(areas, entries, areas.len() as int) {
                Some(f) => Err(f),
                None => encode_all(areas, entries, track_id, entries.len() as int),
            },
        }
    }
}

/// The first area with the given id.
fn find_area_index(areas: &Vec<AreaInfo>, id: i64) -> (r: Option<usize>)
    ensures
        match r {
            Some(i) => find_area(areas@, id, 0) == Some(i as int) && i < areas@.len(),
            None => find_area(areas@, id, 0) is None,
        },
{
    let mut i: usize = 0;
    while i < areas.len()
        invariant
            i <= areas@.len(),
            find_area(areas@, id, 0) == find_area(areas@, id, i as int),
        decreases areas@.len() - i,
    {
        if areas[i].id == id {
            return Some(i);
        }
        i = i + 1;
    }
    None
}

fn area_label_chars(id: i64) -> (v: Vec<char>)
    ensures
        v@ == area_label(id),
{
    let mut v = chars_of("전형요소 id=");
    push_all(&mut v, &i64_text(id));
    v
}

fn label_refusal(status: u16, id: i64, tail: &str) -> (r: Refusal)
    ensures
        r.status == status,
        r.message@ == area_label(id) + tail@,
{
    let mut v = area_label_chars(id);
    append_str(&mut v, tail);
    refuse_chars(status, &v)
}

/// Encodes one submitted entry for its area (see `encode_spec`).
pub fn encode_entry(area: &AreaInfo, e: &BaseDataEntry, track_id: i64) -> (r: Result<EncodedEntry, Refusal>)
    ensures
        match r {
            Ok(x) => encode_spec(*area, *e, track_id) == Ok::<_, (u16, Seq<char>)>(encoded_view(x)),
            Err(f) => encode_spec(*area, *e, track_id) == err_of::<(i64, Option<i64>, Seq<Seq<char>>, bool)>(
                f.status,
                f.message@,
            ),
        },
{
    reveal(encode_spec);
    let ghost vals = strings_view(e.values@);
    let lt: Option<i64> = if area.lookup_scope == LookupScope::Composite {
        Some(track_id)
    } else {
        None
    };
    let n = e.values.len();
    match area.calc_type {
        CalcType::Category => {
            if !area.multi_value && n > 1 {
                return Err(label_refusal(400, e.area_id, ": 단일값 전형요소에 복수값 입력 불가"));
            }
            let mut out: Vec<String> = Vec::new();
            let mut blank = false;
            let mut k: usize = 0;
            while k < n
                invariant
                    n == e.values@.len(),
                    vals == strings_view(e.values@),
                    k <= n,
                    out@.len() == k,
                    forall|j: int| 0 <= j < k ==> (#[trigger] out@[j])@ == trim(vals[j]),
                    blank <==> exists|j: int| 0 <= j < k && trim(#[trigger] vals[j]).len() == 0,
                decreases n - k,
            {
                let cs = chars_of(e.values[k].as_str());
                let tr = trim_chars(&cs);
                assert(cs@ == vals[k as int]);
                if tr.len() == 0 {
                    blank = true;
                }
                out.push(string_of(&tr));
                k = k + 1;
            }
            if blank {
                return Err(label_refusal(400, e.area_id, ": 빈 범주 값은 허용되지 않습니다"));
            }
            assert(strings_view(out@) =~= vals.map_values(|v: Seq<char>| trim(v)));
            Ok(EncodedEntry { area_id: e.area_id, lookup_track: lt, db_values: out, multi_value: area.multi_value })
        },
        _ => {
            if n != 1 {
                return Err(label_refusal(400, e.area_id, ": NUMERIC/MANUAL은 정확히 1개의 값이 필요합니다"));
            }
            match parse_display_value(e.values[0].as_str()) {
                Err(m) => {
                    let mut v = area_label_chars(e.area_id);
                    append_str(&mut v, ": ");
                    push_all(&mut v, &chars_of(m.as_str()));
                    Err(refuse_chars(400, &v))
                },
                Ok(x) => {
                    if area.calc_type == CalcType::Manual && x > area.max_score {
                        let mut v = area_label_chars(e.area_id);
                        append_str(&mut v, ": 값(");
                        push_all(&mut v, &chars_of(fmt_score(x).as_str()));
                        append_str(&mut v, ")이 만점(");
                        push_all(&mut v, &chars_of(fmt_score(area.max_score).as_str()));
                        append_str(&mut v, ")을 초과합니다");
                        return Err(refuse_chars(400, &v));
                    }
                    let mut out: Vec<String> = Vec::new();
                    out.push(string_of(&i64_text(x)));
                    assert(strings_view(out@) =~= seq![int_text(x as int)]);
                    Ok(EncodedEntry { area_id: e.area_id, lookup_track: lt, db_values: out, multi_value: area.multi_value })
                },
            }
        },
    }
}

proof fn lemma_editable_sticky(areas: Seq<AreaInfo>, entries: Seq<BaseDataEntry>, m: int, n: int)
    requires
        0 <= m <= n,
        editable_failure(areas, entries, m) is Some,
    ensures
        editable_failure(areas, entries, n) == editable_failure(areas, entries, m),
    decreases n - m,
{
    if m < n {
        lemma_editable_sticky(areas, entries, m, n - 1);
    }
}

proof fn lemma_missing_sticky(areas: Seq<AreaInfo>, entries: Seq<BaseDataEntry>, m: int, n: int)
    requires
        0 <= m <= n,
        missing_failure(areas, entries, m) is Some,
    ensures
        missing_failure(areas, entries, n) == missing_failure(areas, entries, m),
    decreases n - m,
{
    if m < n {
        lemma_missing_sticky(areas, entries, m, n - 1);
    }
}

proof fn lemma_encode_sticky(areas: Seq<AreaInfo>, entries: Seq<BaseDataEntry>, track_id: i64, m: int, n: int)
    requires
        0 <= m <= n,
        encode_all(areas, entries, track_id, m) is Err,
    ensures
        encode_all(areas, entries, track_id, n) == encode_all(areas, entries, track_id, m),
    decreases n - m,
{
    if m < n {
        lemma_encode_sticky(areas, entries, track_id, m, n - 1);
    }
}

/// Validates and encodes the base data submitted with an application (see
/// `validate_spec` for the checks and their order).
pub fn validate_application(
    department_name: &str,
    areas: &Vec<AreaInfo>,
    entries: &Vec<BaseDataEntry>,
    track_id: i64,
) -> (r: Result<Vec<EncodedEntry>, Refusal>)
    ensures
        match r {
            Ok(v) => validate_spec(department_name@, areas@, entries@, track_id) == Ok::<_, (u16, Seq<char>)>(
                v@.map_values(|x: EncodedEntry| encoded_view(x)),
            ),
            Err(f) => validate_spec(department_name@, areas@, entries@, track_id) == err_of::<
                Seq<(i64, Option<i64>, Seq<Seq<char>>, bool)>,
            >(f.status, f.message@),
        },
{
    let ghost a = areas@;
    let ghost es = entries@;
    let ghost ne = entries@.len() as int;
    let ghost na = areas@.len() as int;
    let dept = trim_chars(&chars_of(department_name));
    if dept.len() == 0 {
        return Err(refuse(400, "학과명은 필수입니다"));
    }
    // every submitted entry names a teacher-editable area
    let mut k: usize = 0;
    while k < entries.len()
        invariant
            a == areas@,
            es == entries@,
            ne == es.len(),
            trim(department_name@).len() > 0,
            k <= ne,
            editable_failure(a, es, k as int) is None,
        decreases ne - k,
    {
        let e = &entries[k];
        if e.values.len() > 0 {
            match find_area_index(areas, e.area_id) {
                None => {
                    proof {
                        lemma_editable_sticky(a, es, k + 1, ne);
                    }
                    return Err(label_refusal(404, e.area_id, " 없음"));
                },
                Some(i) => {
                    if !areas[i].teacher_editable {
                        proof {
                            lemma_editable_sticky(a, es, k + 1, ne);
                        }
                        return Err(label_refusal(403, e.area_id, "는 담임 입력이 허용되지 않습니다"));
                    }
                },
            }
        }
        k = k + 1;
    }
    // every teacher-editable area is given
    let mut i: usize = 0;
    while i < areas.len()
        invariant
            a == areas@,
            es == entries@,
            ne == es.len(),
            trim(department_name@).len() > 0,
            na == a.len(),
            i <= na,
            editable_failure(a, es, ne) is None,
            missing_failure(a, es, i as int) is None,
        decreases na - i,
    {
        let ar = areas[i];
        if ar.teacher_editable {
            let mut given = false;
            let mut j: usize = 0;
            while j < entries.len()
                invariant
                    es == entries@,
                    ne == es.len(),
                    j <= ne,
                    given <==> exists|jj: int| 0 <= jj < j && submitted(#[trigger] es[jj]) && es[jj].area_id == ar.id,
                decreases ne - j,
            {
                if entries[j].values.len() > 0 && entries[j].area_id == ar.id {
                    given = true;
                }
                j = j + 1;
            }
            if !given {
                proof {
                    lemma_missing_sticky(a, es, i + 1, na);
                }
                return Err(
                    label_refusal(422, ar.id, "의 값이 누락되었습니다. 모든 담임 입력 전형요소에 값을 입력해야 합니다"),
                );
            }
        }
        i = i + 1;
    }
    // every entry encodes
    let mut out: Vec<EncodedEntry> = Vec::new();
    assert(out@.map_values(|x: EncodedEntry| encoded_view(x)) =~= Seq::empty());
    let mut k: usize = 0;
    while k < entries.len()
        invariant
            a == areas@,
            es == entries@,
            ne == es.len(),
            trim(department_name@).len() > 0,
            k <= ne,
            na == a.len(),
            editable_failure(a, es, ne) is None,
            missing_failure(a, es, na) is None,
            encode_all(a, es, track_id, k as int) == Ok::<_, (u16, Seq<char>)>(
                out@.map_values(|x: EncodedEntry| encoded_view(x)),
            ),
        decreases ne - k,
    {
        let e = &entries[k];
        if e.values.len() > 0 {
            match find_area_index(areas, e.area_id) {
                None => {
                    proof {
                        lemma_encode_sticky(a, es, track_id, k + 1, ne);
                    }
                    return Err(label_refusal(404, e.area_id, " 없음"));
                },
                Some(ai) => {
                    match encode_entry(&areas[ai], e, track_id) {
                        Err(f) => {
                            proof {
                                lemma_encode_sticky(a, es, track_id, k + 1, ne);
                            }
                            return Err(f);
                        },
                        Ok(x) => {
                            let ghost before = out@;
                            out.push(x);
                            assert(out@.map_values(|y: EncodedEntry| encoded_view(y)) =~= before.map_values(
                                |y: EncodedEntry| encoded_view(y),
                            ).push(encoded_view(x)));
                        },
                    }
                },
            }
        }
        k = k + 1;
    }
    Ok(out)
}

/// An application as listed, with its student, track, result mark and round status.
#[derive(Debug, Clone)]
pub struct ApplicationRow {
    pub student_id: i64,
    pub track_id: i64,
    pub round_id: i64,
    pub abandoned: bool,
    pub excluded: bool,
    pub excluded_reason: Option<String>,
    pub department_name: String,
    pub student_code: String,
    pub name: String,
    pub grade: Option<i64>,
    pub class_no: Option<i64>,
    pub seq_no: Option<i64>,
    pub is_enrolled: bool,
    pub univ_id: i64,
    pub univ_name: String,
    pub track_name: String,
    pub recommended: Option<bool>,
    pub round_status: String,
}

/// The administrator's application list filters.
#[derive(Debug, Clone, Copy)]
pub struct ApplicationListQuery {
    pub round_id: Option<i64>,
    pub track_id: Option<i64>,
}

/// The teacher's application list filter.
#[derive(Debug, Clone, Copy)]
pub struct TeacherAppListQuery {
    pub round_id: Option<i64>,
}

/// An application as submitted by a teacher; `prev_track_id` is the track of
/// the application being edited, where one is.
#[derive(Debug, Clone)]
pub struct CreateApplicationBody {
    pub student_id: i64,
    pub track_id: i64,
    pub round_id: i64,
    pub department_name: String,
    pub base_data_entries: Vec<BaseDataEntry>,
    pub prev_track_id: Option<i64>,
}

/// The reason an administrator gives for excluding an application.
#[derive(Debug, Clone)]
pub struct ExcludeApplicationBody {
    pub reason: String,
}

/// Validates a submitted application's department and base data against the areas.
pub fn validate_body(body: &CreateApplicationBody, areas: &Vec<AreaInfo>) -> (r: Result<Vec<EncodedEntry>, Refusal>)
    ensures
        match r {
            Ok(v) => validate_spec(body.department_name@, areas@, body.base_data_entries@, body.track_id) == Ok::<
                _,
                (u16, Seq<char>),
            >(v@.map_values(|x: EncodedEntry| encoded_view(x))),
            Err(f) => validate_spec(body.department_name@, areas@, body.base_data_entries@, body.track_id) == err_of::<
                Seq<(i64, Option<i64>, Seq<Seq<char>>, bool)>,
            >(f.status, f.message@),
        },
{
    validate_application(body.department_name.as_str(), areas, &body.base_data_entries, body.track_id)
}

} // verus!
