//! Reading the cells of an uploaded sheet by column name: the header row
//! names the columns, so their order in the file does not matter.
use vstd::prelude::*;
use crate::text::{chars_equal, chars_of, string_of, trim, trim_chars};

verus! {

/// Strings as character sequences.
pub open spec fn texts(v: Seq<String>) -> Seq<Seq<char>> {
    v.map_values(|s: String| s@)
}

/// The first column from `i` on whose trimmed header is `name`.
pub open spec fn column_of(headers: Seq<Seq<char>>, name: Seq<char>, i: int) -> Option<int>
    decreases headers.len() - i,
{
    if i < 0 || i >= headers.len() {
        None
    } else if trim(headers[i]) == name {
        Some(i)
    } else {
        column_of(headers, name, i + 1)
    }
}

/// The trimmed cell of column `name` in a row; empty when the column or the cell is missing.
pub open spec fn cell_of(cols: Seq<Seq<char>>, headers: Seq<Seq<char>>, name: Seq<char>) -> Seq<char> {
    match column_of(headers, name, 0) {
        Some(i) => if i < cols.len() {
            trim(cols[i])
        } else {
            Seq::empty()
        },
        None => Seq::empty(),
    }
}

/// The index of the column named `name`.
pub fn column_index(headers: &Vec<String>, name: &str) -> (r: Option<usize>)
    ensures
        match r {
            Some(i) => column_of(texts(headers@), name@, 0) == Some(i as int) && i < headers@.len(),
            None => column_of(texts(headers@), name@, 0) is None,
        },
{
    let ghost hs = texts(headers@);
    let want = chars_of(name);
    let mut i: usize = 0;
    while i < headers.len()
        invariant
            hs == texts(headers@),
            want@ == name@,
            i <= headers@.len(),
            column_of(hs, name@, 0) == column_of(hs, name@, i as int),
        decreases headers@.len() - i,
    {
        let h = trim_chars(&chars_of(headers[i].as_str()));
        assert(hs[i as int] == headers@[i as int]@);
        if chars_equal(&h, &want) {
            return Some(i);
        }
        i = i + 1;
    }
    None
}

/// The trimmed cell of column `name` in a row (empty when missing).
pub fn get_col(cols: &Vec<String>, headers: &Vec<String>, name: &str) -> (r: String)
    ensures
        r@ == cell_of(texts(cols@), texts(headers@), name@),
{
    match column_index(headers, name) {
        Some(i) => if i < cols.len() {
            let t = trim_chars(&chars_of(cols[i].as_str()));
            assert(texts(cols@)[i as int] == cols@[i as int]@);
            string_of(&t)
        } else {
            String::new()
        },
        None => String::new(),
    }
}

/// The first required column the header row lacks.
pub open spec fn first_missing(headers: Seq<Seq<char>>, names: Seq<Seq<char>>, n: int) -> Option<int>
    decreases n,
{
    if n <= 0 {
        None
    } else {
        match first_missing(headers, names, n - 1) {
            Some(k) => Some(k),
            None => if column_of(headers, names[n - 1], 0) is None {
                Some(n - 1)
            } else {
                None
            },
        }
    }
}

/// Checks that every required column is present; the error names the first
/// one missing.
pub fn require_cols(headers: &Vec<String>, names: &Vec<&str>) -> (r: Result<(), String>)
    ensures
        match first_missing(texts(headers@), names@.map_values(|s: &str| s@), names@.len() as int) {
            None => r is Ok,
            Some(k) => r matches Err(m) && m@ == "필수 열이 없습니다: "@ + names@[k]@,
        },
{
    let ghost ns = names@.map_values(|s: &str| s@);
    let mut k: usize = 0;
    while k < names.len()
        invariant
            ns == names@.map_values(|s: &str| s@),
            k <= names@.len(),
            first_missing(texts(headers@), ns, k as int) is None,
        decreases names@.len() - k,
    {
        if column_index(headers, names[k]).is_none() {
            proof {
                lemma_first_missing_sticky(texts(headers@), ns, k + 1, names@.len() as int);
            }
            let mut v = chars_of("필수 열이 없습니다: ");
            let w = chars_of(names[k]);
            crate::text::push_all(&mut v, &w);
            return Err(string_of(&v));
        }
        k = k + 1;
    }
    Ok(())
}

proof fn lemma_first_missing_sticky(headers: Seq<Seq<char>>, names: Seq<Seq<char>>, m: int, n: int)
    requires
        0 <= m <= n,
        first_missing(headers, names, m) is Some,
    ensures
        first_missing(headers, names, n) == first_missing(headers, names, m),
    decreases n - m,
{
    if m < n {
        lemma_first_missing_sticky(headers, names, m, n - 1);
    }
}

/// The first missing column is one of the required ones.
pub proof fn lemma_first_missing_range(headers: Seq<Seq<char>>, names: Seq<Seq<char>>, n: int)
    ensures
        first_missing(headers, names, n) matches Some(k) ==> 0 <= k < n,
    decreases n,
{
    if n > 0 {
        lemma_first_missing_range(headers, names, n - 1);
    }
}

} // verus!
