//! SQL fragments shared by the ranking and recalculation queries.
//!
//! The table aliases are `&'static str`: the fragments are assembled as text,
//! so only literals may reach them.
use vstd::prelude::*;
use crate::text::{append_str, chars_of, string_of};

verus! {

/// The `PARTITION BY` list: by track, and by round too when the query spans rounds.
pub open spec fn partition_text(r: Seq<char>, by_round: bool) -> Seq<char> {
    if by_round {
        r + ".track_id, "@ + r + ".round_id"@
    } else {
        r + ".track_id"@
    }
}

/// The `track_rank` window: within a track, enrolled students first where the track
/// prioritises them, then by total score, descending; ties share a rank (`RANK()`).
pub open spec fn rank_window_text(r: Seq<char>, ut: Seq<char>, s: Seq<char>, by_round: bool) -> Seq<char> {
    "CAST(RANK() OVER (\n                    PARTITION BY "@ + partition_text(r, by_round)
        + "\n                    ORDER BY\n                        CASE WHEN "@ + ut
        + ".prioritize_enrolled = 1 THEN "@ + s
        + ".is_enrolled ELSE NULL END DESC NULLS LAST,\n                        "@ + r
        + ".total_score DESC\n                ) AS INTEGER) AS track_rank"@
}

/// The `track_rank` column expression over results `r`, tracks `ut` and students `s`.
pub fn track_rank_window(r: &'static str, ut: &'static str, s: &'static str, partition_by_round: bool) -> (q: String)
    ensures
        q@ == rank_window_text(r@, ut@, s@, partition_by_round),
{
    let mut v = chars_of("CAST(RANK() OVER (\n                    PARTITION BY ");
    append_str(&mut v, r);
    if partition_by_round {
        append_str(&mut v, ".track_id, ");
        append_str(&mut v, r);
        append_str(&mut v, ".round_id");
    } else {
        append_str(&mut v, ".track_id");
    }
    append_str(&mut v, "\n                    ORDER BY\n                        CASE WHEN ");
    append_str(&mut v, ut);
    append_str(&mut v, ".prioritize_enrolled = 1 THEN ");
    append_str(&mut v, s);
    append_str(&mut v, ".is_enrolled ELSE NULL END DESC NULLS LAST,\n                        ");
    append_str(&mut v, r);
    append_str(&mut v, ".total_score DESC\n                ) AS INTEGER) AS track_rank");
    string_of(&v)
}

/// Whether a closed round needs recalculation: base data was imported after the
/// round's earliest score calculation. A round never calculated needs none.
pub open spec fn recalc_expr_text(r: Seq<char>) -> Seq<char> {
    "(CASE WHEN "@ + r + ".status = 'CLOSED' AND EXISTS(\n             SELECT 1 FROM audit_log al\n             WHERE al.action = 'BASE_DATA_IMPORTED'\n               AND al.at > (SELECT MIN(res.calculated_at) FROM results res WHERE res.round_id = "@
        + r + ".id)\n         ) THEN 1 ELSE 0 END)"@
}

/// The 0/1 "needs recalculation" expression over rounds aliased `r`.
pub fn needs_recalc_expr(r: &'static str) -> (q: String)
    ensures
        q@ == recalc_expr_text(r@),
{
    let mut v = chars_of("(CASE WHEN ");
    append_str(&mut v, r);
    append_str(
        &mut v,
        ".status = 'CLOSED' AND EXISTS(\n             SELECT 1 FROM audit_log al\n             WHERE al.action = 'BASE_DATA_IMPORTED'\n               AND al.at > (SELECT MIN(res.calculated_at) FROM results res WHERE res.round_id = ",
    );
    append_str(&mut v, r);
    append_str(&mut v, ".id)\n         ) THEN 1 ELSE 0 END)");
    string_of(&v)
}

} // verus!
