//! Planning the import of a score table (a range table or a category table)
//! from the rows of an uploaded sheet: every row is checked, the tables of
//! each track are checked as a whole, and the plan says which entries to
//! store, or which errors refuse the upload.
use vstd::prelude::*;
use crate::enums::{LookupScope, MatchMode};
use crate::imports::{
    category_zero_error, check_track_names, duplicate_key_error, first_break, insert_by_threshold, monotonic_error,
    order_broken, order_error, parse_category_row, parse_threshold_row, row_head, score_cell, sort_by_threshold,
    track_created_info, track_error, upper_zero_text, upper_zero_warning, value_cell, zero_rule_error,
};
use crate::lookup::{law_lookup_matches_threshold, law_lookup_selection, law_lower_monotone, law_upper_monotone, spec_lookup};
use crate::sheet::texts;
use crate::text::{chars_equal, chars_of};

verus! {

/// What looking up (or creating) the track named by a row gave.
#[derive(Debug, Clone)]
pub enum TrackLookup {
    /// The track's id, and whether it was created just now.
    Found { id: i64, created: bool },
    /// The lookup failed, with its cause.
    Failed { cause: String },
}

/// One data row of an uploaded score table: its key cell (a threshold or a
/// category), its score cell, its university and track names, and what the
/// lookup of that track gave. The lookup is read only for a per-track area
/// whose row names both a university and a track.
#[derive(Debug, Clone)]
pub struct TableRow {
    pub key: String,
    pub score: String,
    pub univ_name: String,
    pub track_name: String,
    pub track: TrackLookup,
}

/// The plan of an accepted range-table upload: the entries
/// `(track, threshold, score)` to store in row order, the warnings and the notes.
#[derive(Debug, Clone)]
pub struct NumericPlan {
    pub inserts: Vec<(Option<i64>, i64, i64)>,
    pub warnings: Vec<String>,
    pub info: Vec<String>,
}

/// The plan of an accepted category-table upload: the entries
/// `(track, category, score)` to store in row order, and the notes.
#[derive(Debug, Clone)]
pub struct CategoryPlan {
    pub inserts: Vec<(Option<i64>, String, i64)>,
    pub info: Vec<String>,
}

/// Whether the track of a row has to be looked up: the area is per track and
/// the row names both a university and a track.
pub open spec fn row_names_track(scope: LookupScope, univ_name: Seq<char>, track_name: Seq<char>) -> bool {
    scope == LookupScope::Composite && univ_name.len() > 0 && track_name.len() > 0
}

/// Decides whether the track of a row has to be looked up (see `row_names_track`).
pub fn needs_track(scope: LookupScope, univ_name: &str, track_name: &str) -> (r: bool)
    ensures
        r == row_names_track(scope, univ_name@, track_name@),
{
    match scope {
        LookupScope::Composite => chars_of(univ_name).len() > 0 && chars_of(track_name).len() > 0,
        LookupScope::Simple => false,
    }
}

/// The table that a row of sheet line `n` with university and track names
/// `univ_name` and `track_name` belongs to, with the note of a created track:
/// the common table for a global area or a row without names; an error for a
/// row with only one of the two names, or whose track lookup failed.
pub open spec fn track_of(scope: LookupScope, univ_name: Seq<char>, track_name: Seq<char>, lookup: TrackLookup, n: int) -> Result<
    (Option<i64>, Option<Seq<char>>),
    Seq<char>,
> {
    if scope != LookupScope::Composite || (univ_name.len() == 0 && track_name.len() == 0) {
        Ok((None, None))
    } else if univ_name.len() == 0 || track_name.len() == 0 {
        Err(row_head(n) + "대학명과 모집단위명은 함께 입력하거나 함께 비워야 합니다"@)
    } else {
        match lookup {
            TrackLookup::Found { id, created } => Ok(
                (
                    Some(id),
                    if created {
                        Some("'"@ + univ_name + "/"@ + track_name + "' 모집단위 자동 추가됨"@)
                    } else {
                        None
                    },
                ),
            ),
            TrackLookup::Failed { cause } => Err(row_head(n) + "모집단위 처리 오류 — "@ + cause@),
        }
    }
}

/// The table of a table row (see `track_of`).
pub open spec fn row_track(scope: LookupScope, r: TableRow, n: int) -> Result<(Option<i64>, Option<Seq<char>>), Seq<char>> {
    track_of(scope, r.univ_name@, r.track_name@, r.track, n)
}

/// Resolves the table of a row (see `track_of`).
pub fn resolve_track_of(scope: LookupScope, univ_name: &str, track_name: &str, lookup: &TrackLookup, n: usize) -> (out: Result<
    (Option<i64>, Option<String>),
    String,
>)
    ensures
        match track_of(scope, univ_name@, track_name@, *lookup, n as int) {
            Ok((t, note)) => out matches Ok((t2, note2)) && t2 == t && match note {
                Some(m) => note2 matches Some(s) && s@ == m,
                None => note2 is None,
            },
            Err(e) => out matches Err(m) && m@ == e,
        },
{
    match scope {
        LookupScope::Simple => return Ok((None, None)),
        LookupScope::Composite => {},
    }
    let named = check_track_names(univ_name, track_name, n)?;
    if !named {
        return Ok((None, None));
    }
    match lookup {
        TrackLookup::Found { id, created } => {
            if *created {
                Ok((Some(*id), Some(track_created_info(univ_name, track_name))))
            } else {
                Ok((Some(*id), None))
            }
        },
        TrackLookup::Failed { cause } => Err(track_error(n, cause.as_str())),
    }
}

fn resolve_row_track(scope: LookupScope, r: &TableRow, n: usize) -> (out: Result<(Option<i64>, Option<String>), String>)
    ensures
        match row_track(scope, *r, n as int) {
            Ok((t, note)) => out matches Ok((t2, note2)) && t2 == t && match note {
                Some(m) => note2 matches Some(s) && s@ == m,
                None => note2 is None,
            },
            Err(e) => out matches Err(m) && m@ == e,
        },
{
    resolve_track_of(scope, r.univ_name.as_str(), r.track_name.as_str(), &r.track, n)
}

pub(crate) fn same_track(a: Option<i64>, b: Option<i64>) -> (r: bool)
    ensures
        r == (a == b),
{
    match (a, b) {
        (None, None) => true,
        (Some(x), Some(y)) => x == y,
        _ => false,
    }
}

/// The tracks of a list of entries, each once, in the order they first occur.
pub open spec fn tracks_in_order<K>(ins: Seq<(Option<i64>, K, i64)>) -> Seq<Option<i64>>
    decreases ins.len(),
{
    if ins.len() == 0 {
        Seq::empty()
    } else {
        let t = tracks_in_order(ins.drop_last());
        if t.contains(ins.last().0) {
            t
        } else {
            t.push(ins.last().0)
        }
    }
}

/// Some entry of track `t` has threshold `th`.
pub open spec fn has_threshold(ins: Seq<(Option<i64>, i64, i64)>, t: Option<i64>, th: i64) -> bool {
    exists|j: int| 0 <= j < ins.len() && ins[j].0 == t && ins[j].1 == th
}

/// The `(threshold, score)` pairs of track `t`, in entry order.
pub open spec fn pairs_of(ins: Seq<(Option<i64>, i64, i64)>, t: Option<i64>) -> Seq<(i64, i64)>
    decreases ins.len(),
{
    if ins.len() == 0 {
        Seq::empty()
    } else {
        let p = pairs_of(ins.drop_last(), t);
        if ins.last().0 == t {
            p.push((ins.last().1, ins.last().2))
        } else {
            p
        }
    }
}

/// The thresholds of track `t`, in entry order.
pub open spec fn thresholds_of(ins: Seq<(Option<i64>, i64, i64)>, t: Option<i64>) -> Seq<i64> {
    pairs_of(ins, t).map_values(|p: (i64, i64)| p.0)
}

/// The warnings of the UPPER tables of `tracks` without a threshold 0, in track order.
pub open spec fn zero_warnings(ins: Seq<(Option<i64>, i64, i64)>, tracks: Seq<Option<i64>>) -> Seq<Seq<char>>
    decreases tracks.len(),
{
    if tracks.len() == 0 {
        Seq::empty()
    } else {
        let rest = zero_warnings(ins, tracks.drop_last());
        match upper_zero_text(tracks.last(), thresholds_of(ins, tracks.last())) {
            Some(m) => rest.push(m),
            None => rest,
        }
    }
}

/// The order errors of the tables of `tracks`, in track order.
pub open spec fn order_errors(mode: MatchMode, ins: Seq<(Option<i64>, i64, i64)>, tracks: Seq<Option<i64>>) -> Seq<Seq<char>>
    decreases tracks.len(),
{
    if tracks.len() == 0 {
        Seq::empty()
    } else {
        let rest = order_errors(mode, ins, tracks.drop_last());
        match order_error(mode, tracks.last(), pairs_of(ins, tracks.last())) {
            Some(m) => rest.push(m),
            None => rest,
        }
    }
}

/// The rows of a range table read one by one (row `i` is sheet line `i + 2`):
/// the errors, the entries to store and the notes. A row is refused for a
/// missing or unreadable threshold or score, a score above the area's maximum,
/// a bad track, or a threshold its table already has.
pub open spec fn numeric_rows(scope: LookupScope, max_score: i64, rows: Seq<TableRow>) -> (
    Seq<Seq<char>>,
    Seq<(Option<i64>, i64, i64)>,
    Seq<Seq<char>>,
)
    decreases rows.len(),
{
    if rows.len() == 0 {
        (Seq::empty(), Seq::empty(), Seq::empty())
    } else {
        let prev = numeric_rows(scope, max_score, rows.drop_last());
        let (errors, ins, info) = prev;
        let r = rows.last();
        let n: int = rows.len() as int + 1;
        match value_cell(r.key@, "기준값"@, n) {
            Err(e) => (errors.push(e), ins, info),
            Ok(th) => match score_cell(r.score@, max_score, n) {
                Err(e) => (errors.push(e), ins, info),
                Ok(sc) => match row_track(scope, r, n) {
                    Err(e) => (errors.push(e), ins, info),
                    Ok((t, note)) => {
                        let info2 = match note {
                            Some(m) => info.push(m),
                            None => info,
                        };
                        if has_threshold(ins, t, th) {
                            (
                                errors.push(
                                    row_head(n) + "기준값 '"@ + r.key@ + "' 중복 — 같은 기준값은 한 번만 등록할 수 있습니다"@,
                                ),
                                ins,
                                info2,
                            )
                        } else {
                            (errors, ins.push((t, th, sc)), info2)
                        }
                    },
                },
            },
        }
    }
}

/// The import of a range table: refused with the row errors when there are
/// any; else, when some table of a track (taken in the order the tracks first
/// occur) breaks the order rule of the area's direction, refused with those
/// errors; else accepted with its entries, the warnings of UPPER tables that
/// lack a threshold 0, and the notes of created tracks.
pub open spec fn numeric_table_plan(scope: LookupScope, mode: Option<MatchMode>, max_score: i64, rows: Seq<TableRow>) -> Result<
    (Seq<(Option<i64>, i64, i64)>, Seq<Seq<char>>, Seq<Seq<char>>),
    Seq<Seq<char>>,
> {
    let (errors, ins, info) = numeric_rows(scope, max_score, rows);
    if errors.len() > 0 {
        Err(errors)
    } else {
        let tracks = tracks_in_order(ins);
        let warnings = if mode == Some(MatchMode::Upper) {
            zero_warnings(ins, tracks)
        } else {
            Seq::empty()
        };
        let order = match mode {
            Some(m) => order_errors(m, ins, tracks),
            None => Seq::empty(),
        };
        if order.len() > 0 {
            Err(order)
        } else {
            Ok((ins, warnings, info))
        }
    }
}

fn has_threshold_exec(ins: &Vec<(Option<i64>, i64, i64)>, t: Option<i64>, th: i64) -> (r: bool)
    ensures
        r == has_threshold(ins@, t, th),
{
    let mut j: usize = 0;
    while j < ins.len()
        invariant
            j <= ins@.len(),
            forall|k: int| 0 <= k < j ==> !(ins@[k].0 == t && ins@[k].1 == th),
        decreases ins@.len() - j,
    {
        if same_track(ins[j].0, t) && ins[j].1 == th {
            return true;
        }
        j = j + 1;
    }
    false
}

pub(crate) fn track_list<K>(ins: &Vec<(Option<i64>, K, i64)>) -> (r: Vec<Option<i64>>)
    ensures
        r@ == tracks_in_order(ins@),
{
    let mut out: Vec<Option<i64>> = Vec::new();
    let mut i: usize = 0;
    while i < ins.len()
        invariant
            i <= ins@.len(),
            out@ == tracks_in_order(ins@.take(i as int)),
        decreases ins@.len() - i,
    {
        let t = ins[i].0;
        proof {
            assert(ins@.take(i + 1).drop_last() =~= ins@.take(i as int));
        }
        let mut k: usize = 0;
        let mut found = false;
        while k < out.len()
            invariant
                k <= out@.len(),
                found <==> exists|j: int| 0 <= j < k && out@[j] == t,
            decreases out@.len() - k,
        {
            if same_track(out[k], t) {
                found = true;
            }
            k = k + 1;
        }
        proof {
            if found {
                let j = choose|j: int| 0 <= j < k && out@[j] == t;
                assert(out@.contains(t));
            } else {
                assert(!out@.contains(t));
            }
        }
        if !found {
            out.push(t);
        }
        i = i + 1;
    }
    assert(ins@.take(ins@.len() as int) =~= ins@);
    out
}

fn pairs_for(ins: &Vec<(Option<i64>, i64, i64)>, t: Option<i64>) -> (r: Vec<(i64, i64)>)
    ensures
        r@ == pairs_of(ins@, t),
{
    let mut out: Vec<(i64, i64)> = Vec::new();
    let mut i: usize = 0;
    while i < ins.len()
        invariant
            i <= ins@.len(),
            out@ == pairs_of(ins@.take(i as int), t),
        decreases ins@.len() - i,
    {
        proof {
            assert(ins@.take(i + 1).drop_last() =~= ins@.take(i as int));
        }
        if same_track(ins[i].0, t) {
            out.push((ins[i].1, ins[i].2));
        }
        i = i + 1;
    }
    assert(ins@.take(ins@.len() as int) =~= ins@);
    out
}

fn firsts(pairs: &Vec<(i64, i64)>) -> (r: Vec<i64>)
    ensures
        r@ == pairs@.map_values(|p: (i64, i64)| p.0),
{
    let mut out: Vec<i64> = Vec::new();
    let mut i: usize = 0;
    while i < pairs.len()
        invariant
            i <= pairs@.len(),
            out@ == pairs@.take(i as int).map_values(|p: (i64, i64)| p.0),
        decreases pairs@.len() - i,
    {
        out.push(pairs[i].0);
        i = i + 1;
        assert(out@ =~= pairs@.take(i as int).map_values(|p: (i64, i64)| p.0));
    }
    assert(pairs@.take(pairs@.len() as int) =~= pairs@);
    out
}

/// Plans the import of a range table from its data rows (see
/// `numeric_table_plan`): `Ok` with the entries to store, the warnings and the
/// notes, or `Err` with the errors that refuse the upload.
pub fn plan_numeric_table(scope: LookupScope, mode: Option<MatchMode>, max_score: i64, rows: &Vec<TableRow>) -> (r: Result<
    NumericPlan,
    Vec<String>,
>)
    requires
        rows@.len() + 2 <= usize::MAX,
    ensures
        match numeric_table_plan(scope, mode, max_score, rows@) {
            Ok((ins, warnings, info)) => r matches Ok(p) && p.inserts@ == ins && texts(p.warnings@) == warnings
                && texts(p.info@) == info,
            Err(es) => r matches Err(e) && texts(e@) == es,
        },
{
    let mut errors: Vec<String> = Vec::new();
    let mut ins: Vec<(Option<i64>, i64, i64)> = Vec::new();
    let mut info: Vec<String> = Vec::new();
    let mut i: usize = 0;
    while i < rows.len()
        invariant
            i <= rows@.len(),
            rows@.len() + 2 <= usize::MAX,
            numeric_rows(scope, max_score, rows@.take(i as int)) == (texts(errors@), ins@, texts(info@)),
        decreases rows@.len() - i,
    {
        let r = &rows[i];
        let n = i + 2;
        proof {
            assert(rows@.take(i + 1).drop_last() =~= rows@.take(i as int));
            assert(rows@.take(i + 1).last() == rows@[i as int]);
        }
        let ghost e0 = errors@;
        let ghost f0 = info@;
        match parse_threshold_row(r.key.as_str(), r.score.as_str(), max_score, n) {
            Err(e) => {
                errors.push(e);
                assert(texts(errors@) =~= texts(e0).push(e@));
            },
            Ok((th, sc)) => match resolve_row_track(scope, r, n) {
                Err(e) => {
                    errors.push(e);
                    assert(texts(errors@) =~= texts(e0).push(e@));
                },
                Ok((t, note)) => {
                    match note {
                        Some(m) => {
                            info.push(m);
                            assert(texts(info@) =~= texts(f0).push(m@));
                        },
                        None => {},
                    }
                    if has_threshold_exec(&ins, t, th) {
                        errors.push(duplicate_key_error(n, r.key.as_str(), true));
                        assert(texts(errors@) =~= texts(e0).push(errors@.last()@));
                    } else {
                        ins.push((t, th, sc));
                    }
                },
            },
        }
        i = i + 1;
    }
    assert(rows@.take(rows@.len() as int) =~= rows@);
    if errors.len() > 0 {
        return Err(errors);
    }
    let tracks = track_list(&ins);
    let mut warnings: Vec<String> = Vec::new();
    let mut order: Vec<String> = Vec::new();
    let upper = match mode {
        Some(MatchMode::Upper) => true,
        _ => false,
    };
    let mut k: usize = 0;
    while k < tracks.len()
        invariant
            k <= tracks@.len(),
            tracks@ == tracks_in_order(ins@),
            upper == (mode == Some(MatchMode::Upper)),
            texts(warnings@) == if upper { zero_warnings(ins@, tracks@.take(k as int)) } else { Seq::empty() },
            texts(order@) == match mode {
                Some(m) => order_errors(m, ins@, tracks@.take(k as int)),
                None => Seq::empty(),
            },
        decreases tracks@.len() - k,
    {
        let t = tracks[k];
        proof {
            assert(tracks@.take(k + 1).drop_last() =~= tracks@.take(k as int));
        }
        let pairs = pairs_for(&ins, t);
        let ghost w0 = warnings@;
        let ghost o0 = order@;
        if upper {
            let ths = firsts(&pairs);
            match upper_zero_warning(t, &ths) {
                Some(w) => {
                    warnings.push(w);
                    assert(texts(warnings@) =~= texts(w0).push(warnings@.last()@));
                },
                None => {},
            }
        }
        match mode {
            Some(m) => match monotonic_error(m, t, &pairs) {
                Some(e) => {
                    order.push(e);
                    assert(texts(order@) =~= texts(o0).push(order@.last()@));
                },
                None => {},
            },
            None => {},
        }
        k = k + 1;
    }
    assert(tracks@.take(tracks@.len() as int) =~= tracks@);
    if order.len() > 0 {
        return Err(order);
    }
    Ok(NumericPlan { inserts: ins, warnings, info })
}

/// Some entry of track `t` has category `c`.
pub open spec fn has_category(ins: Seq<(Option<i64>, String, i64)>, t: Option<i64>, c: Seq<char>) -> bool {
    exists|j: int| 0 <= j < ins.len() && ins[j].0 == t && ins[j].1@ == c
}

/// The scores of track `t`, in entry order.
pub open spec fn scores_of(ins: Seq<(Option<i64>, String, i64)>, t: Option<i64>) -> Seq<i64>
    decreases ins.len(),
{
    if ins.len() == 0 {
        Seq::empty()
    } else {
        let p = scores_of(ins.drop_last(), t);
        if ins.last().0 == t {
            p.push(ins.last().2)
        } else {
            p
        }
    }
}

/// The zero-rule errors of the category tables of `tracks`, in track order.
pub open spec fn zero_rule_errors(ins: Seq<(Option<i64>, String, i64)>, tracks: Seq<Option<i64>>) -> Seq<Seq<char>>
    decreases tracks.len(),
{
    if tracks.len() == 0 {
        Seq::empty()
    } else {
        let rest = zero_rule_errors(ins, tracks.drop_last());
        match zero_rule_error(tracks.last(), scores_of(ins, tracks.last())) {
            Some(m) => rest.push(m),
            None => rest,
        }
    }
}

/// The rows of a category table read one by one (row `i` is sheet line
/// `i + 2`): the errors, the entries to store and the notes. A row is refused
/// for a missing category, a missing or unreadable score, a score above the
/// area's maximum, a bad track, or a category its table already has.
pub open spec fn category_rows(scope: LookupScope, max_score: i64, rows: Seq<TableRow>) -> (
    Seq<Seq<char>>,
    Seq<(Option<i64>, String, i64)>,
    Seq<Seq<char>>,
)
    decreases rows.len(),
{
    if rows.len() == 0 {
        (Seq::empty(), Seq::empty(), Seq::empty())
    } else {
        let prev = category_rows(scope, max_score, rows.drop_last());
        let (errors, ins, info) = prev;
        let r = rows.last();
        let n: int = rows.len() as int + 1;
        if r.key@.len() == 0 {
            (errors.push(row_head(n) + "범주 누락"@), ins, info)
        } else {
            match score_cell(r.score@, max_score, n) {
                Err(e) => (errors.push(e), ins, info),
                Ok(sc) => match row_track(scope, r, n) {
                    Err(e) => (errors.push(e), ins, info),
                    Ok((t, note)) => {
                        let info2 = match note {
                            Some(m) => info.push(m),
                            None => info,
                        };
                        if has_category(ins, t, r.key@) {
                            (
                                errors.push(
                                    row_head(n) + "범주 '"@ + r.key@ + "' 중복 — 같은 범주는 한 번만 등록할 수 있습니다"@,
                                ),
                                ins,
                                info2,
                            )
                        } else {
                            (errors, ins.push((t, r.key, sc)), info2)
                        }
                    },
                },
            }
        }
    }
}

/// The import of a category table: refused with the row errors when there are
/// any; else, when some table of a track (taken in the order the tracks first
/// occur) breaks the zero rule, refused with those errors; else accepted with
/// its entries and the notes of created tracks.
pub open spec fn category_table_plan(scope: LookupScope, max_score: i64, rows: Seq<TableRow>) -> Result<
    (Seq<(Option<i64>, String, i64)>, Seq<Seq<char>>),
    Seq<Seq<char>>,
> {
    let (errors, ins, info) = category_rows(scope, max_score, rows);
    if errors.len() > 0 {
        Err(errors)
    } else {
        let zero = zero_rule_errors(ins, tracks_in_order(ins));
        if zero.len() > 0 {
            Err(zero)
        } else {
            Ok((ins, info))
        }
    }
}

fn has_category_exec(ins: &Vec<(Option<i64>, String, i64)>, t: Option<i64>, c: &str) -> (r: bool)
    ensures
        r == has_category(ins@, t, c@),
{
    let cv = chars_of(c);
    let mut j: usize = 0;
    while j < ins.len()
        invariant
            j <= ins@.len(),
            cv@ == c@,
            forall|k: int| 0 <= k < j ==> !(ins@[k].0 == t && ins@[k].1@ == c@),
        decreases ins@.len() - j,
    {
        if same_track(ins[j].0, t) && chars_equal(&chars_of(ins[j].1.as_str()), &cv) {
            return true;
        }
        j = j + 1;
    }
    false
}

fn scores_for(ins: &Vec<(Option<i64>, String, i64)>, t: Option<i64>) -> (r: Vec<i64>)
    ensures
        r@ == scores_of(ins@, t),
{
    let mut out: Vec<i64> = Vec::new();
    let mut i: usize = 0;
    while i < ins.len()
        invariant
            i <= ins@.len(),
            out@ == scores_of(ins@.take(i as int), t),
        decreases ins@.len() - i,
    {
        proof {
            assert(ins@.take(i + 1).drop_last() =~= ins@.take(i as int));
        }
        if same_track(ins[i].0, t) {
            out.push(ins[i].2);
        }
        i = i + 1;
    }
    assert(ins@.take(ins@.len() as int) =~= ins@);
    out
}

/// Plans the import of a category table from its data rows (see
/// `category_table_plan`): `Ok` with the entries to store and the notes, or
/// `Err` with the errors that refuse the upload.
pub fn plan_category_table(scope: LookupScope, max_score: i64, rows: &Vec<TableRow>) -> (r: Result<CategoryPlan, Vec<String>>)
    requires
        rows@.len() + 2 <= usize::MAX,
    ensures
        match category_table_plan(scope, max_score, rows@) {
            Ok((ins, info)) => r matches Ok(p) && p.inserts@ == ins && texts(p.info@) == info,
            Err(es) => r matches Err(e) && texts(e@) == es,
        },
{
    let mut errors: Vec<String> = Vec::new();
    let mut ins: Vec<(Option<i64>, String, i64)> = Vec::new();
    let mut info: Vec<String> = Vec::new();
    let mut i: usize = 0;
    while i < rows.len()
        invariant
            i <= rows@.len(),
            rows@.len() + 2 <= usize::MAX,
            category_rows(scope, max_score, rows@.take(i as int)) == (texts(errors@), ins@, texts(info@)),
        decreases rows@.len() - i,
    {
        let r = &rows[i];
        let n = i + 2;
        proof {
            assert(rows@.take(i + 1).drop_last() =~= rows@.take(i as int));
            assert(rows@.take(i + 1).last() == rows@[i as int]);
        }
        let ghost e0 = errors@;
        let ghost f0 = info@;
        match parse_category_row(r.key.as_str(), r.score.as_str(), max_score, n) {
            Err(e) => {
                errors.push(e);
                assert(texts(errors@) =~= texts(e0).push(e@));
            },
            Ok(sc) => match resolve_row_track(scope, r, n) {
                Err(e) => {
                    errors.push(e);
                    assert(texts(errors@) =~= texts(e0).push(e@));
                },
                Ok((t, note)) => {
                    match note {
                        Some(m) => {
                            info.push(m);
                            assert(texts(info@) =~= texts(f0).push(m@));
                        },
                        None => {},
                    }
                    if has_category_exec(&ins, t, r.key.as_str()) {
                        errors.push(duplicate_key_error(n, r.key.as_str(), false));
                        assert(texts(errors@) =~= texts(e0).push(errors@.last()@));
                    } else {
                        ins.push((t, r.key.clone(), sc));
                    }
                },
            },
        }
        i = i + 1;
    }
    assert(rows@.take(rows@.len() as int) =~= rows@);
    if errors.len() > 0 {
        return Err(errors);
    }
    let tracks = track_list(&ins);
    let mut zero: Vec<String> = Vec::new();
    let mut k: usize = 0;
    while k < tracks.len()
        invariant
            k <= tracks@.len(),
            tracks@ == tracks_in_order(ins@),
            texts(zero@) == zero_rule_errors(ins@, tracks@.take(k as int)),
        decreases tracks@.len() - k,
    {
        let t = tracks[k];
        proof {
            assert(tracks@.take(k + 1).drop_last() =~= tracks@.take(k as int));
        }
        let scores = scores_for(&ins, t);
        let ghost z0 = zero@;
        match category_zero_error(t, &scores) {
            Some(e) => {
                zero.push(e);
                assert(texts(zero@) =~= texts(z0).push(zero@.last()@));
            },
            None => {},
        }
        k = k + 1;
    }
    assert(tracks@.take(tracks@.len() as int) =~= tracks@);
    if zero.len() > 0 {
        return Err(zero);
    }
    Ok(CategoryPlan { inserts: ins, info })
}

/// Pairs ordered by threshold.
pub open spec fn sorted_pairs(s: Seq<(i64, i64)>) -> bool {
    forall|i: int, j: int| 0 <= i < j < s.len() ==> s[i].0 <= s[j].0
}

proof fn lemma_insert_by_threshold(s: Seq<(i64, i64)>, x: (i64, i64))
    ensures
        forall|y: (i64, i64)| insert_by_threshold(s, x).contains(y) <==> (s.contains(y) || y == x),
        sorted_pairs(s) ==> sorted_pairs(insert_by_threshold(s, x)),
    decreases s.len(),
{
    let r = insert_by_threshold(s, x);
    if s.len() == 0 {
        assert(r =~= seq![x]);
        assert forall|y: (i64, i64)| r.contains(y) <==> (s.contains(y) || y == x) by {
            if y == x {
                assert(r[0] == x);
            }
        }
    } else if s.last().0 <= x.0 {
        assert(r == s.push(x));
        assert forall|y: (i64, i64)| r.contains(y) <==> (s.contains(y) || y == x) by {
            if r.contains(y) {
                let k = choose|k: int| 0 <= k < r.len() && r[k] == y;
                if k < s.len() {
                    assert(s[k] == y);
                }
            }
            if s.contains(y) {
                let k = choose|k: int| 0 <= k < s.len() && s[k] == y;
                assert(r[k] == y);
            }
            if y == x {
                assert(r[s.len() as int] == x);
            }
        }
    } else {
        let d = s.drop_last();
        let l = s.last();
        let q = insert_by_threshold(d, x);
        lemma_insert_by_threshold(d, x);
        assert(r == q.push(l));
        assert forall|y: (i64, i64)| s.contains(y) <==> (d.contains(y) || y == l) by {
            if s.contains(y) {
                let k = choose|k: int| 0 <= k < s.len() && s[k] == y;
                if k < d.len() {
                    assert(d[k] == y);
                }
            }
            if d.contains(y) {
                let k = choose|k: int| 0 <= k < d.len() && d[k] == y;
                assert(s[k] == y);
            }
            if y == l {
                assert(s[s.len() - 1] == l);
            }
        }
        assert forall|y: (i64, i64)| r.contains(y) <==> (q.contains(y) || y == l) by {
            if r.contains(y) {
                let k = choose|k: int| 0 <= k < r.len() && r[k] == y;
                if k < q.len() {
                    assert(q[k] == y);
                }
            }
            if q.contains(y) {
                let k = choose|k: int| 0 <= k < q.len() && q[k] == y;
                assert(r[k] == y);
            }
            if y == l {
                assert(r[q.len() as int] == l);
            }
        }
        if sorted_pairs(s) {
            assert(sorted_pairs(d));
            assert forall|i: int| 0 <= i < q.len() implies q[i].0 <= l.0 by {
                assert(q.contains(q[i]));
                if d.contains(q[i]) {
                    let k = choose|k: int| 0 <= k < d.len() && d[k] == q[i];
                    assert(s[k] == q[i]);
                }
            }
            assert forall|i: int, j: int| 0 <= i < j < r.len() implies r[i].0 <= r[j].0 by {
                if j < q.len() {
                    assert(r[i] == q[i] && r[j] == q[j]);
                } else {
                    assert(r[i] == q[i]);
                }
            }
        }
    }
}

proof fn lemma_sort_by_threshold(s: Seq<(i64, i64)>)
    ensures
        forall|y: (i64, i64)| sort_by_threshold(s).contains(y) <==> s.contains(y),
        sorted_pairs(sort_by_threshold(s)),
    decreases s.len(),
{
    if s.len() > 0 {
        let d = s.drop_last();
        lemma_sort_by_threshold(d);
        lemma_insert_by_threshold(sort_by_threshold(d), s.last());
        assert forall|y: (i64, i64)| s.contains(y) <==> (d.contains(y) || y == s.last()) by {
            if s.contains(y) {
                let k = choose|k: int| 0 <= k < s.len() && s[k] == y;
                if k < d.len() {
                    assert(d[k] == y);
                }
            }
            if d.contains(y) {
                let k = choose|k: int| 0 <= k < d.len() && d[k] == y;
                assert(s[k] == y);
            }
            if y == s.last() {
                assert(s[s.len() - 1] == y);
            }
        }
    }
}

proof fn lemma_no_break(s: Seq<(i64, i64)>, mode: MatchMode, start: int)
    requires
        0 <= start,
        first_break(s, mode, start) is None,
    ensures
        forall|i: int| start <= i < s.len() - 1 ==> !order_broken(mode, #[trigger] s[i], s[i + 1]),
    decreases s.len() - start,
{
    if start + 1 < s.len() {
        lemma_no_break(s, mode, start + 1);
    }
}

proof fn lemma_chain(s: Seq<(i64, i64)>, mode: MatchMode, i: int, j: int)
    requires
        forall|k: int| 0 <= k < s.len() - 1 ==> !order_broken(mode, #[trigger] s[k], s[k + 1]),
        0 <= i <= j < s.len(),
    ensures
        mode == MatchMode::Upper ==> s[i].1 <= s[j].1,
        mode == MatchMode::Lower ==> s[i].1 >= s[j].1,
    decreases j - i,
{
    if i < j {
        lemma_chain(s, mode, i, j - 1);
        assert(!order_broken(mode, s[j - 1], s[j]));
    }
}

proof fn lemma_order_errors_none(mode: MatchMode, ins: Seq<(Option<i64>, i64, i64)>, tracks: Seq<Option<i64>>, k: int)
    requires
        order_errors(mode, ins, tracks).len() == 0,
        0 <= k < tracks.len(),
    ensures
        order_error(mode, tracks[k], pairs_of(ins, tracks[k])) is None,
    decreases tracks.len(),
{
    let d = tracks.drop_last();
    if k < tracks.len() - 1 {
        assert(d[k] == tracks[k]);
        lemma_order_errors_none(mode, ins, d, k);
    }
}

proof fn lemma_track_listed(ins: Seq<(Option<i64>, i64, i64)>, t: Option<i64>)
    requires
        pairs_of(ins, t).len() > 0,
    ensures
        tracks_in_order(ins).contains(t),
    decreases ins.len(),
{
    let d = ins.drop_last();
    let prev = tracks_in_order(d);
    if ins.last().0 == t {
        if !prev.contains(t) {
            assert(tracks_in_order(ins)[prev.len() as int] == t);
        }
    } else {
        lemma_track_listed(d, t);
        let k = choose|k: int| 0 <= k < prev.len() && prev[k] == t;
        assert(tracks_in_order(ins)[k] == t);
    }
}

/// No two entries share a track and a threshold.
pub open spec fn unique_keys(ins: Seq<(Option<i64>, i64, i64)>) -> bool {
    forall|j: int, k: int| 0 <= j < k < ins.len() ==> !(ins[j].0 == ins[k].0 && ins[j].1 == ins[k].1)
}

proof fn lemma_rows_unique(scope: LookupScope, max_score: i64, rows: Seq<TableRow>)
    ensures
        unique_keys(numeric_rows(scope, max_score, rows).1),
    decreases rows.len(),
{
    if rows.len() > 0 {
        lemma_rows_unique(scope, max_score, rows.drop_last());
    }
}

proof fn lemma_pairs_distinct(ins: Seq<(Option<i64>, i64, i64)>, t: Option<i64>)
    requires
        unique_keys(ins),
    ensures
        forall|i: int| 0 <= i < pairs_of(ins, t).len() ==> has_threshold(ins, t, #[trigger] pairs_of(ins, t)[i].0),
        forall|i: int, j: int| 0 <= i < pairs_of(ins, t).len() && 0 <= j < pairs_of(ins, t).len() && i != j
            ==> pairs_of(ins, t)[i].0 != pairs_of(ins, t)[j].0,
    decreases ins.len(),
{
    if ins.len() > 0 {
        let d = ins.drop_last();
        let n = ins.len() - 1;
        assert(unique_keys(d));
        lemma_pairs_distinct(d, t);
        let q = pairs_of(d, t);
        let p = pairs_of(ins, t);
        assert forall|i: int| 0 <= i < q.len() implies has_threshold(ins, t, q[i].0) && q[i].0 != ins[n].1 || ins[n].0 != t by {
            assert(has_threshold(d, t, q[i].0));
            let j = choose|j: int| 0 <= j < d.len() && d[j].0 == t && d[j].1 == q[i].0;
            assert(ins[j] == d[j]);
        }
        if ins.last().0 == t {
            assert(p == q.push((ins[n].1, ins[n].2)));
            assert(has_threshold(ins, t, ins[n].1)) by {
                assert(ins[n].0 == t && ins[n].1 == ins[n].1);
            }
            assert forall|i: int| 0 <= i < p.len() implies has_threshold(ins, t, #[trigger] p[i].0) by {
                if i < q.len() {
                    assert(p[i] == q[i]);
                }
            }
            assert forall|i: int, j: int| 0 <= i < p.len() && 0 <= j < p.len() && i != j implies p[i].0 != p[j].0 by {
                if i < q.len() && j < q.len() {
                    assert(p[i] == q[i] && p[j] == q[j]);
                } else if i < q.len() {
                    assert(p[i] == q[i]);
                } else {
                    assert(p[j] == q[j]);
                }
            }
        } else {
            assert(p == q);
        }
    }
}

/// Law (an accepted range table gives monotone scores): in a range table that
/// the import accepted for an UPPER or LOWER area, the table of every track
/// (and the common one) has distinct thresholds and scores that follow the
/// direction; so between two values, the higher never earns a lower UPPER
/// score, nor a higher LOWER score.
pub proof fn law_accepted_table_monotone(
    scope: LookupScope,
    mode: MatchMode,
    max_score: i64,
    rows: Seq<TableRow>,
    t: Option<i64>,
    v1: i64,
    v2: i64,
)
    requires
        numeric_table_plan(scope, Some(mode), max_score, rows) is Ok,
        v1 <= v2,
        spec_lookup(v1, pairs_of(numeric_table_plan(scope, Some(mode), max_score, rows)->Ok_0.0, t), mode) is Ok,
    ensures
        ({
            let p = pairs_of(numeric_table_plan(scope, Some(mode), max_score, rows)->Ok_0.0, t);
            &&& mode == MatchMode::Upper ==> spec_lookup(v2, p, mode) is Ok && spec_lookup(v1, p, mode)->Ok_0
                <= spec_lookup(v2, p, mode)->Ok_0
            &&& mode == MatchMode::Lower ==> spec_lookup(v2, p, mode) is Ok && spec_lookup(v1, p, mode)->Ok_0
                >= spec_lookup(v2, p, mode)->Ok_0
        }),
{
    let ins = numeric_rows(scope, max_score, rows).1;
    assert(numeric_table_plan(scope, Some(mode), max_score, rows)->Ok_0.0 == ins);
    let p = pairs_of(ins, t);
    law_lookup_selection(v1, p);
    law_lookup_matches_threshold(v1, p, mode);
    if mode == MatchMode::Exact || p.len() == 0 {
        return;
    }
    let tracks = tracks_in_order(ins);
    lemma_track_listed(ins, t);
    let k = choose|k: int| 0 <= k < tracks.len() && tracks[k] == t;
    lemma_order_errors_none(mode, ins, tracks, k);
    let s = sort_by_threshold(p);
    lemma_sort_by_threshold(p);
    lemma_no_break(s, mode, 0);
    lemma_rows_unique(scope, max_score, rows);
    lemma_pairs_distinct(ins, t);
    assert forall|i: int, j: int| 0 <= i < p.len() && 0 <= j < p.len() && p[i].0 < p[j].0 implies (mode
        == MatchMode::Upper ==> p[i].1 <= p[j].1) && (mode == MatchMode::Lower ==> p[i].1 >= p[j].1) by {
        assert(p.contains(p[i]) && p.contains(p[j]));
        let a = choose|a: int| 0 <= a < s.len() && s[a] == p[i];
        let b = choose|b: int| 0 <= b < s.len() && s[b] == p[j];
        if b <= a {
            assert(s[b].0 <= s[a].0);
        }
        lemma_chain(s, mode, a, b);
    }
    if mode == MatchMode::Upper {
        law_upper_monotone(v1, v2, p);
    } else {
        law_lower_monotone(v1, v2, p);
    }
}

proof fn lemma_zero_errors_none(ins: Seq<(Option<i64>, String, i64)>, tracks: Seq<Option<i64>>, k: int)
    requires
        zero_rule_errors(ins, tracks).len() == 0,
        0 <= k < tracks.len(),
    ensures
        zero_rule_error(tracks[k], scores_of(ins, tracks[k])) is None,
    decreases tracks.len(),
{
    let d = tracks.drop_last();
    if k < tracks.len() - 1 {
        assert(d[k] == tracks[k]);
        lemma_zero_errors_none(ins, d, k);
    }
}

proof fn lemma_category_track_listed(ins: Seq<(Option<i64>, String, i64)>, t: Option<i64>)
    requires
        scores_of(ins, t).len() > 0,
    ensures
        tracks_in_order(ins).contains(t),
    decreases ins.len(),
{
    let d = ins.drop_last();
    let prev = tracks_in_order(d);
    if ins.last().0 == t {
        if !prev.contains(t) {
            assert(tracks_in_order(ins)[prev.len() as int] == t);
        }
    } else {
        lemma_category_track_listed(d, t);
        let k = choose|k: int| 0 <= k < prev.len() && prev[k] == t;
        assert(tracks_in_order(ins)[k] == t);
    }
}

/// Law (an accepted category table scores its students who match no
/// category): in a category table that the import accepted, the table of
/// every track (and the common one) that gives some category a positive score
/// also gives some category a score of zero.
pub proof fn law_accepted_category_has_zero(scope: LookupScope, max_score: i64, rows: Seq<TableRow>, t: Option<i64>)
    requires
        category_table_plan(scope, max_score, rows) is Ok,
    ensures
        ({
            let sc = scores_of(category_table_plan(scope, max_score, rows)->Ok_0.0, t);
            (exists|i: int| 0 <= i < sc.len() && sc[i] > 0) ==> sc.contains(0)
        }),
{
    let ins = category_rows(scope, max_score, rows).1;
    assert(category_table_plan(scope, max_score, rows)->Ok_0.0 == ins);
    let sc = scores_of(ins, t);
    if sc.len() > 0 {
        let tracks = tracks_in_order(ins);
        lemma_category_track_listed(ins, t);
        let k = choose|k: int| 0 <= k < tracks.len() && tracks[k] == t;
        lemma_zero_errors_none(ins, tracks, k);
    }
}

} // verus!
