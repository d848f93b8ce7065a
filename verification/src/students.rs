//! Student records: reading them from sheet rows, checking them before they
//! are stored, and generating the codes of enrolled students.
use vstd::prelude::*;
use crate::guards::{is_refusal, refuse, refuse_chars, Refusal};
use crate::sheet::{cell_of, get_col, texts};
use crate::text::{
    append_str, chars_of, i64_text, int_text, pad2_text, parse_i64, push_all, push_pad2, spec_parse_i64, string_of,
    trim, trim_chars,
};

verus! {

/// A student as read from a sheet row or a request.
#[derive(Debug, Clone)]
pub struct StudentRecord {
    pub student_code: String,
    pub name: String,
    pub is_enrolled: bool,
    pub grade: Option<i64>,
    pub class_no: Option<i64>,
    pub seq_no: Option<i64>,
    pub grad_year: Option<i64>,
}

/// A new enrolled student, as requested.
#[derive(Debug, Clone)]
pub struct AddEnrolledBody {
    pub name: String,
    pub grade: i64,
    pub class_no: i64,
    pub seq_no: i64,
}

/// A new graduate, as requested.
#[derive(Debug, Clone)]
pub struct AddGraduatedBody {
    pub student_code: String,
    pub name: String,
    pub grad_year: i64,
}

/// The integer in a cell (`str::parse::<i64>` of the trimmed cell).
pub open spec fn cell_int(cols: Seq<Seq<char>>, headers: Seq<Seq<char>>, name: Seq<char>) -> Option<i64> {
    spec_parse_i64(cell_of(cols, headers, name))
}

fn get_int(cols: &Vec<String>, headers: &Vec<String>, name: &str) -> (r: Option<i64>)
    ensures
        r == cell_int(texts(cols@), texts(headers@), name@),
{
    let s = get_col(cols, headers, name);
    parse_i64(&chars_of(s.as_str()))
}

/// A row of the all-students sheet: code, name, enrolment flag (`0` =
/// graduate; enrolled when missing or unreadable), grade, class, number and
/// graduation year.
pub fn row_to_record(cols: &Vec<String>, headers: &Vec<String>) -> (r: StudentRecord)
    ensures
        ({
            let (c, h) = (texts(cols@), texts(headers@));
            &&& r.student_code@ == cell_of(c, h, "학생코드"@)
            &&& r.name@ == cell_of(c, h, "이름"@)
            &&& r.is_enrolled == match cell_int(c, h, "재학여부"@) {
                Some(v) => v != 0,
                None => true,
            }
            &&& r.grade == cell_int(c, h, "학년"@)
            &&& r.class_no == cell_int(c, h, "반"@)
            &&& r.seq_no == cell_int(c, h, "번호"@)
            &&& r.grad_year == cell_int(c, h, "졸업연도"@)
        }),
{
    let is_enrolled = match get_int(cols, headers, "재학여부") {
        Some(v) => v != 0,
        None => true,
    };
    StudentRecord {
        student_code: get_col(cols, headers, "학생코드"),
        name: get_col(cols, headers, "이름"),
        is_enrolled,
        grade: get_int(cols, headers, "학년"),
        class_no: get_int(cols, headers, "반"),
        seq_no: get_int(cols, headers, "번호"),
        grad_year: get_int(cols, headers, "졸업연도"),
    }
}

/// A row of the enrolled-students sheet (the code is generated later).
pub fn row_to_enrolled_record(cols: &Vec<String>, headers: &Vec<String>) -> (r: StudentRecord)
    ensures
        ({
            let (c, h) = (texts(cols@), texts(headers@));
            &&& r.student_code@ == Seq::<char>::empty()
            &&& r.name@ == cell_of(c, h, "이름"@)
            &&& r.is_enrolled
            &&& r.grade == cell_int(c, h, "학년"@)
            &&& r.class_no == cell_int(c, h, "반"@)
            &&& r.seq_no == cell_int(c, h, "번호"@)
            &&& r.grad_year is None
        }),
{
    StudentRecord {
        student_code: String::new(),
        name: get_col(cols, headers, "이름"),
        is_enrolled: true,
        grade: get_int(cols, headers, "학년"),
        class_no: get_int(cols, headers, "반"),
        seq_no: get_int(cols, headers, "번호"),
        grad_year: None,
    }
}

/// A row of the graduates sheet.
pub fn row_to_graduated_record(cols: &Vec<String>, headers: &Vec<String>) -> (r: StudentRecord)
    ensures
        ({
            let (c, h) = (texts(cols@), texts(headers@));
            &&& r.student_code@ == cell_of(c, h, "학생코드"@)
            &&& r.name@ == cell_of(c, h, "이름"@)
            &&& !r.is_enrolled
            &&& r.grade is None && r.class_no is None && r.seq_no is None
            &&& r.grad_year == cell_int(c, h, "졸업연도"@)
        }),
{
    StudentRecord {
        student_code: get_col(cols, headers, "학생코드"),
        name: get_col(cols, headers, "이름"),
        is_enrolled: false,
        grade: None,
        class_no: None,
        seq_no: None,
        grad_year: get_int(cols, headers, "졸업연도"),
    }
}

/// Where a checked record is stored: a class position, or a graduation year.
#[derive(Debug, Clone, Copy, PartialEq, Eq, Structural)]
pub enum StudentKey {
    Enrolled { grade: i64, class_no: i64, seq_no: i64 },
    Graduated { grad_year: i64 },
}

/// The check of a record before it is stored by code: code and name are
/// required; an enrolled student needs grade, class and number, a graduate a
/// graduation year.
pub open spec fn record_check(rec: StudentRecord) -> Result<StudentKey, Seq<char>> {
    if rec.student_code@.len() == 0 {
        Err("student_code 누락"@)
    } else if rec.name@.len() == 0 {
        Err("name 누락"@)
    } else if rec.is_enrolled {
        match (rec.grade, rec.class_no, rec.seq_no) {
            (Some(g), Some(c), Some(s)) => Ok(StudentKey::Enrolled { grade: g, class_no: c, seq_no: s }),
            _ => Err("재학생은 grade, class_no, seq_no 필수"@),
        }
    } else {
        match rec.grad_year {
            Some(y) => Ok(StudentKey::Graduated { grad_year: y }),
            None => Err("졸업생은 grad_year 필수"@),
        }
    }
}

/// Checks a record before it is stored by code (see `record_check`).
pub fn check_student_record(rec: &StudentRecord) -> (r: Result<StudentKey, String>)
    ensures
        match r {
            Ok(k) => record_check(*rec) == Ok::<StudentKey, Seq<char>>(k),
            Err(m) => record_check(*rec) == Err::<StudentKey, Seq<char>>(m@),
        },
{
    if chars_of(rec.student_code.as_str()).len() == 0 {
        return Err(string_of(&chars_of("student_code 누락")));
    }
    if chars_of(rec.name.as_str()).len() == 0 {
        return Err(string_of(&chars_of("name 누락")));
    }
    if rec.is_enrolled {
        match (rec.grade, rec.class_no, rec.seq_no) {
            (Some(g), Some(c), Some(s)) => Ok(StudentKey::Enrolled { grade: g, class_no: c, seq_no: s }),
            _ => Err(string_of(&chars_of("재학생은 grade, class_no, seq_no 필수"))),
        }
    } else {
        match rec.grad_year {
            Some(y) => Ok(StudentKey::Graduated { grad_year: y }),
            None => Err(string_of(&chars_of("졸업생은 grad_year 필수"))),
        }
    }
}

/// Checks an enrolled record stored by class position: a name and the full
/// position are required.
pub fn check_enrolled_position(rec: &StudentRecord) -> (r: Result<(i64, i64, i64), String>)
    ensures
        rec.name@.len() == 0 ==> (r matches Err(m) && m@ == "name 누락"@),
        rec.name@.len() > 0 ==> match (rec.grade, rec.class_no, rec.seq_no) {
            (Some(g), Some(c), Some(s)) => r == Ok::<(i64, i64, i64), String>((g, c, s)),
            _ => (r matches Err(m) && m@ == "grade, class_no, seq_no 필수"@),
        },
{
    if chars_of(rec.name.as_str()).len() == 0 {
        return Err(string_of(&chars_of("name 누락")));
    }
    match (rec.grade, rec.class_no, rec.seq_no) {
        (Some(g), Some(c), Some(s)) => Ok((g, c, s)),
        _ => Err(string_of(&chars_of("grade, class_no, seq_no 필수"))),
    }
}

/// `"<grade>학년 <class>반이 학급 목록에 없습니다"`.
pub fn class_missing_message(grade: i64, class_no: i64) -> (m: String)
    ensures
        m@ == int_text(grade as int) + "학년 "@ + int_text(class_no as int) + "반이 학급 목록에 없습니다"@,
{
    let mut v = i64_text(grade);
    append_str(&mut v, "학년 ");
    push_all(&mut v, &i64_text(class_no));
    append_str(&mut v, "반이 학급 목록에 없습니다");
    string_of(&v)
}

/// The code of an enrolled student: the year, the grade, then the class and
/// the number on two digits (`{year}{grade}{class:02}{seq:02}`).
pub open spec fn code_base_text(year: Seq<char>, grade: i64, class_no: i64, seq_no: i64) -> Seq<char> {
    year + int_text(grade as int) + pad2_text(class_no as int) + pad2_text(seq_no as int)
}

/// Builds the code of an enrolled student (see `code_base_text`).
pub fn student_code_base(year: &str, grade: i64, class_no: i64, seq_no: i64) -> (s: String)
    ensures
        s@ == code_base_text(year@, grade, class_no, seq_no),
{
    let mut v = chars_of(year);
    push_all(&mut v, &i64_text(grade));
    push_pad2(&mut v, class_no);
    push_pad2(&mut v, seq_no);
    string_of(&v)
}

/// The `n`-th code tried for `base`: the base itself first, then `base-2`, `base-3`, ….
pub fn code_candidate(base: &str, n: u32) -> (s: String)
    ensures
        n < 2 ==> s@ == base@,
        n >= 2 ==> s@ == base@ + "-"@ + int_text(n as int),
{
    let mut v = chars_of(base);
    if n >= 2 {
        append_str(&mut v, "-");
        push_all(&mut v, &i64_text(n as i64));
    }
    string_of(&v)
}

/// The error when every candidate code is taken.
pub fn code_exhausted_message(base: &str) -> (m: String)
    ensures
        m@ == "학생코드 자동 생성 실패: "@ + base@ + " 충돌이 너무 많습니다"@,
{
    let mut v = chars_of("학생코드 자동 생성 실패: ");
    append_str(&mut v, base);
    append_str(&mut v, " 충돌이 너무 많습니다");
    string_of(&v)
}

/// The record for a single enrolled student added by hand (the name trimmed,
/// required).
pub fn enrolled_from_body(body: &AddEnrolledBody) -> (r: Result<StudentRecord, Refusal>)
    ensures
        trim(body.name@).len() == 0 ==> is_refusal(r, 400, "이름이 비어있습니다"@),
        trim(body.name@).len() > 0 ==> (r matches Ok(rec) && rec.name@ == trim(body.name@) && rec.student_code@.len() == 0
            && rec.is_enrolled && rec.grade == Some(body.grade) && rec.class_no == Some(body.class_no) && rec.seq_no
            == Some(body.seq_no) && rec.grad_year is None),
{
    let name = trim_chars(&chars_of(body.name.as_str()));
    if name.len() == 0 {
        return Err(refuse(400, "이름이 비어있습니다"));
    }
    Ok(
        StudentRecord {
            student_code: String::new(),
            name: string_of(&name),
            is_enrolled: true,
            grade: Some(body.grade),
            class_no: Some(body.class_no),
            seq_no: Some(body.seq_no),
            grad_year: None,
        },
    )
}

/// The record for a single graduate added by hand (name and code trimmed,
/// both required, the name checked first).
pub fn graduated_from_body(body: &AddGraduatedBody) -> (r: Result<StudentRecord, Refusal>)
    ensures
        trim(body.name@).len() == 0 ==> is_refusal(r, 400, "이름이 비어있습니다"@),
        trim(body.name@).len() > 0 && trim(body.student_code@).len() == 0 ==> is_refusal(r, 400, "학생코드가 비어있습니다"@),
        trim(body.name@).len() > 0 && trim(body.student_code@).len() > 0 ==> (r matches Ok(rec) && rec.name@ == trim(
            body.name@,
        ) && rec.student_code@ == trim(body.student_code@) && !rec.is_enrolled && rec.grade is None && rec.class_no is None
            && rec.seq_no is None && rec.grad_year == Some(body.grad_year)),
{
    let name = trim_chars(&chars_of(body.name.as_str()));
    let code = trim_chars(&chars_of(body.student_code.as_str()));
    if name.len() == 0 {
        return Err(refuse(400, "이름이 비어있습니다"));
    }
    if code.len() == 0 {
        return Err(refuse(400, "학생코드가 비어있습니다"));
    }
    Ok(
        StudentRecord {
            student_code: string_of(&code),
            name: string_of(&name),
            is_enrolled: false,
            grade: None,
            class_no: None,
            seq_no: None,
            grad_year: Some(body.grad_year),
        },
    )
}

/// A student with base data or applications cannot be deleted (409).
pub fn check_student_deletable(base_count: i64, app_count: i64) -> (r: Result<(), Refusal>)
    ensures
        base_count <= 0 && app_count <= 0 ==> r is Ok,
        base_count > 0 || app_count > 0 ==> is_refusal(
            r,
            409,
            "기초 데이터 "@ + int_text(base_count as int) + "건, 지원 기록 "@ + int_text(app_count as int)
                + "건이 있어 삭제할 수 없습니다."@,
        ),
{
    if base_count > 0 || app_count > 0 {
        let mut v = chars_of("기초 데이터 ");
        push_all(&mut v, &i64_text(base_count));
        append_str(&mut v, "건, 지원 기록 ");
        push_all(&mut v, &i64_text(app_count));
        append_str(&mut v, "건이 있어 삭제할 수 없습니다.");
        return Err(refuse_chars(409, &v));
    }
    Ok(())
}

/// The page size of the student list when none is asked for.
pub fn default_per_page() -> (n: i64)
    ensures
        n == 100,
{
    100
}

} // verus!
