//! The student list: its filters, its pages, and the grade and class choices
//! offered to the filters.
use vstd::prelude::*;
use crate::text::{append_str, chars_of, string_of};

verus! {

/// A student as listed.
#[derive(Debug, Clone)]
pub struct StudentRow {
    pub id: i64,
    pub student_code: String,
    pub name: String,
    pub grade: Option<i64>,
    pub class_no: Option<i64>,
    pub seq_no: Option<i64>,
    pub is_enrolled: bool,
    pub grad_year: Option<i64>,
}

/// The list request: optional filters and the page.
#[derive(Debug, Clone, Copy)]
pub struct ListQuery {
    pub grade: Option<i64>,
    pub class_no: Option<i64>,
    pub is_enrolled: Option<i64>,
    pub page: i64,
    pub per_page: i64,
}

/// One page of students and the number of students matching the filters.
#[derive(Debug, Clone)]
pub struct StudentPage {
    pub rows: Vec<StudentRow>,
    pub total: i64,
    pub page: i64,
    pub per_page: i64,
}

/// The grades of enrolled students, ascending, each with its class numbers.
#[derive(Debug, Clone)]
pub struct GradeOptions {
    pub grades: Vec<i64>,
    pub by_grade: Vec<(i64, Vec<i64>)>,
}

/// The `WHERE` conditions of the list, one per filter given, in a fixed order.
pub open spec fn filter_text(q: ListQuery) -> Seq<char> {
    (if q.grade is Some { " AND grade = ?"@ } else { Seq::empty() })
        + (if q.class_no is Some { " AND class_no = ?"@ } else { Seq::empty() })
        + (if q.is_enrolled is Some { " AND is_enrolled = ?"@ } else { Seq::empty() })
}

/// The count query of the list.
pub open spec fn count_sql_text(q: ListQuery) -> Seq<char> {
    "SELECT COUNT(*) FROM students WHERE 1=1"@ + filter_text(q)
}

/// The page query of the list: enrolled students first, then by grade, class and number.
pub open spec fn page_sql_text(q: ListQuery) -> Seq<char> {
    "SELECT id, student_code, name, grade, class_no, seq_no, is_enrolled, grad_year FROM students WHERE 1=1"@
        + filter_text(q) + " ORDER BY is_enrolled DESC, grade, class_no, seq_no LIMIT ? OFFSET ?"@
}

fn push_filters(v: &mut Vec<char>, q: &ListQuery)
    ensures
        final(v)@ == old(v)@ + filter_text(*q),
{
    let ghost start = v@;
    if q.grade.is_some() {
        append_str(v, " AND grade = ?");
    }
    let ghost a = v@;
    if q.class_no.is_some() {
        append_str(v, " AND class_no = ?");
    }
    let ghost b = v@;
    if q.is_enrolled.is_some() {
        append_str(v, " AND is_enrolled = ?");
    }
    proof {
        if q.grade is None {
            assert(a =~= start + Seq::<char>::empty());
        }
        if q.class_no is None {
            assert(b =~= a + Seq::<char>::empty());
        }
        if q.is_enrolled is None {
            assert(v@ =~= b + Seq::<char>::empty());
        }
        assert(v@ =~= start + filter_text(*q));
    }
}

/// The count and page queries of a list request; their parameters are bound in
/// the same filter order, then the limit and offset.
pub fn student_list_sql(q: &ListQuery) -> (r: (String, String))
    ensures
        r.0@ == count_sql_text(*q),
        r.1@ == page_sql_text(*q),
{
    let mut c = chars_of("SELECT COUNT(*) FROM students WHERE 1=1");
    push_filters(&mut c, q);
    let mut s = chars_of(
        "SELECT id, student_code, name, grade, class_no, seq_no, is_enrolled, grad_year FROM students WHERE 1=1",
    );
    push_filters(&mut s, q);
    append_str(&mut s, " ORDER BY is_enrolled DESC, grade, class_no, seq_no LIMIT ? OFFSET ?");
    (string_of(&c), string_of(&s))
}

/// Some row has grade `g`.
pub open spec fn has_grade(rows: Seq<(i64, i64)>, g: i64) -> bool {
    exists|j: int| 0 <= j < rows.len() && rows[j].0 == g
}

/// The class numbers listed with grade `g` among the first `n` rows, in row order.
pub open spec fn classes_of(rows: Seq<(i64, i64)>, g: i64, n: int) -> Seq<i64>
    decreases n,
{
    if n <= 0 {
        Seq::empty()
    } else if rows[n - 1].0 == g {
        classes_of(rows, g, n - 1).push(rows[n - 1].1)
    } else {
        classes_of(rows, g, n - 1)
    }
}

/// Strictly increasing.
pub open spec fn increasing(s: Seq<i64>) -> bool {
    forall|i: int, j: int| 0 <= i < j < s.len() ==> s[i] < s[j]
}

fn insert_grade(grades: &mut Vec<i64>, g: i64)
    requires
        increasing(old(grades)@),
    ensures
        increasing(final(grades)@),
        forall|x: i64| final(grades)@.contains(x) <==> (old(grades)@.contains(x) || x == g),
{
    let mut p: usize = 0;
    while p < grades.len() && grades[p] < g
        invariant
            p <= grades@.len(),
            grades@ == old(grades)@,
            forall|k: int| 0 <= k < p ==> grades@[k] < g,
        decreases grades@.len() - p,
    {
        p = p + 1;
    }
    if p < grades.len() && grades[p] == g {
        assert(grades@[p as int] == g);
        return;
    }
    let ghost before = grades@;
    grades.insert(p, g);
    assert(grades@ =~= before.take(p as int).push(g) + before.skip(p as int));
    assert forall|i: int, j: int| 0 <= i < j < grades@.len() implies grades@[i] < grades@[j] by {
        if j < p {
        } else if j == p {
        } else if i < p {
            assert(grades@[j] == before[j - 1]);
            assert(before[j - 1] >= g);
        } else if i == p {
            assert(grades@[j] == before[j - 1]);
        } else {
            assert(grades@[i] == before[i - 1] && grades@[j] == before[j - 1]);
        }
    }
    assert forall|x: i64| grades@.contains(x) <==> (before.contains(x) || x == g) by {
        if grades@.contains(x) {
            let k = choose|k: int| 0 <= k < grades@.len() && grades@[k] == x;
            if k < p {
                assert(before[k] == x);
            } else if k > p {
                assert(before[k - 1] == x);
            }
        }
        if before.contains(x) {
            let k = choose|k: int| 0 <= k < before.len() && before[k] == x;
            if k < p {
                assert(grades@[k] == x);
            } else {
                assert(grades@[k + 1] == x);
            }
        }
        if x == g {
            assert(grades@[p as int] == g);
        }
    }
    assert(before == old(grades)@);
    assert(forall|x: i64| grades@.contains(x) <==> (old(grades)@.contains(x) || x == g));
}

fn classes_for(rows: &Vec<(i64, i64)>, g: i64) -> (r: Vec<i64>)
    ensures
        r@ == classes_of(rows@, g, rows@.len() as int),
{
    let mut out: Vec<i64> = Vec::new();
    let mut i: usize = 0;
    while i < rows.len()
        invariant
            i <= rows@.len(),
            out@ == classes_of(rows@, g, i as int),
        decreases rows@.len() - i,
    {
        if rows[i].0 == g {
            out.push(rows[i].1);
        }
        i = i + 1;
    }
    out
}

/// The grade choices from the (grade, class) pairs of enrolled students: the grades
/// present, ascending without repeats, each with its classes in row order.
pub fn grade_options(rows: &Vec<(i64, i64)>) -> (r: GradeOptions)
    ensures
        increasing(r.grades@),
        forall|g: i64| r.grades@.contains(g) <==> has_grade(rows@, g),
        r.by_grade@.len() == r.grades@.len(),
        forall|k: int| 0 <= k < r.by_grade@.len() ==> #[trigger] r.by_grade@[k].0 == r.grades@[k]
            && r.by_grade@[k].1@ == classes_of(rows@, r.grades@[k], rows@.len() as int),
{
    let mut grades: Vec<i64> = Vec::new();
    let mut i: usize = 0;
    while i < rows.len()
        invariant
            i <= rows@.len(),
            increasing(grades@),
            forall|g: i64| grades@.contains(g) <==> (exists|j: int| 0 <= j < i && rows@[j].0 == g),
        decreases rows@.len() - i,
    {
        let g = rows[i].0;
        insert_grade(&mut grades, g);
        assert forall|x: i64| grades@.contains(x) <==> (exists|j: int| 0 <= j < i + 1 && rows@[j].0 == x) by {
            if x == g {
                assert(rows@[i as int].0 == x);
            }
        }
        i = i + 1;
    }
    let mut by_grade: Vec<(i64, Vec<i64>)> = Vec::new();
    let mut k: usize = 0;
    while k < grades.len()
        invariant
            k <= grades@.len(),
            by_grade@.len() == k,
            forall|t: int| 0 <= t < k ==> #[trigger] by_grade@[t].0 == grades@[t]
                && by_grade@[t].1@ == classes_of(rows@, grades@[t], rows@.len() as int),
        decreases grades@.len() - k,
    {
        let g = grades[k];
        let cs = classes_for(rows, g);
        by_grade.push((g, cs));
        k = k + 1;
    }
    GradeOptions { grades, by_grade }
}

} // verus!
