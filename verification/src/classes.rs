//! Classes and their homeroom teachers: the rules of the class sheet import and
//! of saving or deleting one class.
use vstd::prelude::*;
use crate::guards::{is_refusal, refuse, refuse_chars, Refusal};
use crate::sheet::{cell_of, get_col, texts};
use crate::text::{utf8_len, utf8_len_below, append_str, chars_of, i64_text, int_text, parse_i64, push_all, push_decimal, spec_parse_i64, string_of};

verus! {

/// A class as listed.
#[derive(Debug, Clone)]
pub struct ClassRow {
    pub grade: i64,
    pub class_no: i64,
    pub teacher_name: Option<String>,
}

/// The fields an administrator may set on a class.
#[derive(Debug, Clone)]
pub struct UpsertClassBody {
    pub teacher_name: Option<String>,
    pub password: Option<String>,
}

/// A valid line of the class sheet.
#[derive(Debug, Clone)]
pub struct ClassImportRow {
    pub grade: i64,
    pub class_no: i64,
    pub teacher_name: String,
    pub password: Option<String>,
}

/// `"{line}행: "`.
pub open spec fn line_prefix(line: int) -> Seq<char> {
    int_text(line) + "행: "@
}

/// The number in a cell when it is a positive integer.
pub open spec fn positive_cell(cell: Seq<char>) -> Option<i64> {
    match spec_parse_i64(cell) {
        Some(v) => if v > 0 { Some(v) } else { None },
        None => None,
    }
}

/// A password shorter than four bytes is refused.
pub open spec fn password_too_short(pw: Seq<char>) -> bool {
    utf8_len(pw) < 4
}

/// The duplicate-class message.
pub open spec fn duplicate_class_text(line: int, grade: i64, class_no: i64) -> Seq<char> {
    line_prefix(line) + int_text(grade as int) + "학년 "@ + int_text(class_no as int)
        + "반 중복 — 파일에 같은 반이 두 번 이상 존재합니다"@
}

/// The error of one sheet line, given the classes seen on earlier lines; `None`
/// when the line is valid.
pub open spec fn class_line_error(cells: Seq<Seq<char>>, headers: Seq<Seq<char>>, line: int, seen: Seq<(i64, i64)>) -> Option<Seq<char>> {
    let g = positive_cell(cell_of(cells, headers, "학년"@));
    let c = positive_cell(cell_of(cells, headers, "반"@));
    let name = cell_of(cells, headers, "담임명"@);
    let pw = cell_of(cells, headers, "비밀번호"@);
    if g is None {
        Some(line_prefix(line) + "학년 값이 올바르지 않습니다"@)
    } else if c is None {
        Some(line_prefix(line) + "반 값이 올바르지 않습니다"@)
    } else if seen.contains((g->0, c->0)) {
        Some(duplicate_class_text(line, g->0, c->0))
    } else if name.len() == 0 {
        Some(line_prefix(line) + "담임명 누락"@)
    } else if pw.len() > 0 && password_too_short(pw) {
        Some(line_prefix(line) + "비밀번호는 4자 이상이어야 합니다"@)
    } else {
        None
    }
}

/// The classes seen after a line: a line whose grade and class number parse marks
/// that class as seen, whatever comes after.
pub open spec fn seen_after(cells: Seq<Seq<char>>, headers: Seq<Seq<char>>, seen: Seq<(i64, i64)>) -> Seq<(i64, i64)> {
    let g = positive_cell(cell_of(cells, headers, "학년"@));
    let c = positive_cell(cell_of(cells, headers, "반"@));
    if g is Some && c is Some && !seen.contains((g->0, c->0)) {
        seen.push((g->0, c->0))
    } else {
        seen
    }
}

fn push_line_prefix(v: &mut Vec<char>, line: u64)
    ensures
        final(v)@ == old(v)@ + line_prefix(line as int),
{
    push_decimal(v, line);
    append_str(v, "행: ");
}

fn line_error(line: u64, msg: &str) -> (r: String)
    ensures
        r@ == line_prefix(line as int) + msg@,
{
    let mut v: Vec<char> = Vec::new();
    push_line_prefix(&mut v, line);
    append_str(&mut v, msg);
    string_of(&v)
}

fn positive_cell_exec(cell: &String) -> (r: Option<i64>)
    ensures
        r == positive_cell(cell@),
{
    let cs = chars_of(cell.as_str());
    match parse_i64(&cs) {
        Some(v) => if v > 0 {
            Some(v)
        } else {
            None
        },
        None => None,
    }
}

fn contains_class(seen: &Vec<(i64, i64)>, key: (i64, i64)) -> (r: bool)
    ensures
        r == seen@.contains(key),
{
    let mut i: usize = 0;
    while i < seen.len()
        invariant
            i <= seen@.len(),
            forall|j: int| 0 <= j < i ==> seen@[j] != key,
        decreases seen@.len() - i,
    {
        if seen[i].0 == key.0 && seen[i].1 == key.1 {
            assert(seen@[i as int] == key);
            return true;
        }
        i = i + 1;
    }
    false
}

/// Reads one line of the class sheet (`line` is its sheet line number) and records
/// its class as seen. A valid line gives the class; otherwise the line's error.
pub fn class_import_row(cells: &Vec<String>, headers: &Vec<String>, line: u64, seen: &mut Vec<(i64, i64)>) -> (r: Result<ClassImportRow, String>)
    ensures
        final(seen)@ == seen_after(texts(cells@), texts(headers@), old(seen)@),
        match class_line_error(texts(cells@), texts(headers@), line as int, old(seen)@) {
            Some(m) => r matches Err(e) && e@ == m,
            None => r matches Ok(row) && row.grade == positive_cell(cell_of(texts(cells@), texts(headers@), "학년"@))->0
                && row.class_no == positive_cell(cell_of(texts(cells@), texts(headers@), "반"@))->0
                && row.teacher_name@ == cell_of(texts(cells@), texts(headers@), "담임명"@)
                && (if cell_of(texts(cells@), texts(headers@), "비밀번호"@).len() == 0 {
                    row.password is None
                } else {
                    row.password matches Some(p) && p@ == cell_of(texts(cells@), texts(headers@), "비밀번호"@)
                }),
        },
{
    let ghost hs = texts(headers@);
    let ghost cs = texts(cells@);
    let gcell = get_col(cells, headers, "학년");
    let grade = match positive_cell_exec(&gcell) {
        Some(g) => g,
        None => {
            return Err(line_error(line, "학년 값이 올바르지 않습니다"));
        },
    };
    let ccell = get_col(cells, headers, "반");
    let class_no = match positive_cell_exec(&ccell) {
        Some(c) => c,
        None => {
            return Err(line_error(line, "반 값이 올바르지 않습니다"));
        },
    };
    if contains_class(seen, (grade, class_no)) {
        let mut v: Vec<char> = Vec::new();
        push_line_prefix(&mut v, line);
        let g = i64_text(grade);
        push_all(&mut v, &g);
        append_str(&mut v, "학년 ");
        let c = i64_text(class_no);
        push_all(&mut v, &c);
        append_str(&mut v, "반 중복 — 파일에 같은 반이 두 번 이상 존재합니다");
        return Err(string_of(&v));
    }
    seen.push((grade, class_no));
    let name = get_col(cells, headers, "담임명");
    if chars_of(name.as_str()).len() == 0 {
        return Err(line_error(line, "담임명 누락"));
    }
    let pw = get_col(cells, headers, "비밀번호");
    let password = if chars_of(pw.as_str()).len() == 0 {
        None
    } else {
        if utf8_len_below(pw.as_str(), 4) {
            return Err(line_error(line, "비밀번호는 4자 이상이어야 합니다"));
        }
        Some(pw)
    };
    Ok(ClassImportRow { grade, class_no, teacher_name: name, password })
}

/// The error of a new class listed without a password.
pub fn new_class_password_error(line: u64) -> (r: String)
    ensures
        r@ == line_prefix(line as int) + "신규 학급은 비밀번호가 필요합니다"@,
{
    line_error(line, "신규 학급은 비밀번호가 필요합니다")
}

/// What saving a class does.
#[derive(Debug, Clone, Copy, PartialEq, Eq, Structural)]
pub enum ClassSave {
    /// Create the class.
    Insert,
    /// Update the given fields of the class.
    Update,
    /// Nothing was changed: no write and no audit entry.
    Unchanged,
}

/// Saving class `grade`-`class_no`: grade and class 0/0 is reserved for graduates,
/// both must be positive, a given password needs four bytes, and a new class needs
/// a password. An existing class saved with no field given is left unchanged.
pub fn plan_class_save(grade: i64, class_no: i64, body: &UpsertClassBody, exists: bool) -> (r: Result<ClassSave, Refusal>)
    ensures
        grade == 0 && class_no == 0 ==> is_refusal(r, 400, "학년=0, 반=0은 졸업생 전용 예약값으로 사용할 수 없습니다"@),
        !(grade == 0 && class_no == 0) && (grade <= 0 || class_no <= 0) ==> is_refusal(
            r,
            400,
            "학년과 반은 1 이상이어야 합니다"@,
        ),
        grade > 0 && class_no > 0 ==> match body.password {
            Some(p) if password_too_short(p@) => is_refusal(r, 400, "비밀번호는 4자 이상이어야 합니다"@),
            _ => if !exists {
                if body.password is None {
                    is_refusal(r, 400, "신규 학급은 비밀번호를 설정해야 합니다"@)
                } else {
                    r == Ok::<ClassSave, Refusal>(ClassSave::Insert)
                }
            } else if body.teacher_name is None && body.password is None {
                r == Ok::<ClassSave, Refusal>(ClassSave::Unchanged)
            } else {
                r == Ok::<ClassSave, Refusal>(ClassSave::Update)
            },
        },
{
    if grade == 0 && class_no == 0 {
        return Err(refuse(400, "학년=0, 반=0은 졸업생 전용 예약값으로 사용할 수 없습니다"));
    }
    if grade <= 0 || class_no <= 0 {
        return Err(refuse(400, "학년과 반은 1 이상이어야 합니다"));
    }
    match &body.password {
        Some(p) => {
            if utf8_len_below(p.as_str(), 4) {
                return Err(refuse(400, "비밀번호는 4자 이상이어야 합니다"));
            }
        },
        None => {},
    }
    if !exists {
        if body.password.is_none() {
            return Err(refuse(400, "신규 학급은 비밀번호를 설정해야 합니다"));
        }
        Ok(ClassSave::Insert)
    } else if body.teacher_name.is_none() && body.password.is_none() {
        Ok(ClassSave::Unchanged)
    } else {
        Ok(ClassSave::Update)
    }
}

/// The message when students still belong to the class.
pub open spec fn class_in_use_text(grade: i64, class_no: i64, students: i64) -> Seq<char> {
    int_text(grade as int) + "학년 "@ + int_text(class_no as int) + "반에 학생 "@ + int_text(students as int)
        + "명이 등록되어 있어 삭제할 수 없습니다."@
}

/// Deleting a class: refused while students belong to it, then when it does not exist.
pub fn check_class_deletable(grade: i64, class_no: i64, student_count: i64, found: bool) -> (r: Result<(), Refusal>)
    ensures
        student_count > 0 ==> is_refusal(r, 409, class_in_use_text(grade, class_no, student_count)),
        student_count <= 0 && !found ==> is_refusal(r, 404, "학급을 찾을 수 없습니다"@),
        student_count <= 0 && found ==> r is Ok,
{
    if student_count > 0 {
        let mut v = i64_text(grade);
        append_str(&mut v, "학년 ");
        let c = i64_text(class_no);
        push_all(&mut v, &c);
        append_str(&mut v, "반에 학생 ");
        let n = i64_text(student_count);
        push_all(&mut v, &n);
        append_str(&mut v, "명이 등록되어 있어 삭제할 수 없습니다.");
        return Err(refuse_chars(409, &v));
    }
    if !found {
        return Err(refuse(404, "학급을 찾을 수 없습니다"));
    }
    Ok(())
}

/// The class list: the stored classes in their order, then the graduates'
/// pseudo-class (grade 0, class 0) when there are graduates.
pub fn list_classes(rows: Vec<ClassRow>, has_graduates: bool) -> (r: Vec<ClassRow>)
    ensures
        has_graduates ==> r@.len() == rows@.len() + 1 && r@.take(rows@.len() as int) == rows@ && ({
            let g = r@[rows@.len() as int];
            g.grade == 0 && g.class_no == 0 && (g.teacher_name matches Some(n) && n@ == "졸업생"@)
        }),
        !has_graduates ==> r@ == rows@,
{
    let mut out = rows;
    let ghost before = out@;
    if has_graduates {
        out.push(ClassRow { grade: 0, class_no: 0, teacher_name: Some(string_of(&chars_of("졸업생"))) });
        assert(out@.take(before.len() as int) =~= before);
    }
    out
}

} // verus!
