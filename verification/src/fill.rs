//! Tie-aware quota filling.
//!
//! Candidates come grouped by rank. A group of equal-ranked candidates is
//! confirmed atomically: either every member fits into the remaining quota,
//! or none of them is confirmed. When a group straddles the quota boundary
//! with free seats left, the boundary is reported as a tie for a manual
//! decision.
use vstd::prelude::*;

verus! {

/// Where a group of equal-ranked candidates straddles the quota boundary.
#[derive(Debug, Clone, Copy, PartialEq, Eq, Structural)]
pub struct TieBoundary {
    /// The rank shared by the straddling group.
    pub rank: i64,
    /// The seats still free at that point (always positive).
    pub free: i64,
    /// How many candidates compete for those seats (always more than `free`).
    pub contenders: i64,
}

/// The result of an atomic group filling.
#[derive(Debug)]
pub struct FillOutcome<T> {
    /// Candidates confirmed automatically (never part of a straddling group).
    pub confirmed: Vec<T>,
    /// `Some` only when a tie straddles the quota boundary.
    pub tie: Option<TieBoundary>,
}

/// The decision taken for one group of equal-ranked candidates.
#[derive(Debug, Clone, Copy, PartialEq, Eq, Structural)]
pub enum GroupStep {
    /// The whole group fits into the remaining quota.
    Take,
    /// No seat is left: the quota ends exactly between two groups.
    StopClean,
    /// `0 < free < group size`: the group straddles the quota boundary.
    StopTie { free: i64 },
}

/// The decision for a group of `group_size` candidates after `confirmed_len`
/// confirmations against a quota of `rem`.
pub open spec fn group_step(confirmed_len: int, group_size: int, rem: int) -> GroupStep {
    if confirmed_len + group_size <= rem {
        GroupStep::Take
    } else if rem <= confirmed_len {
        GroupStep::StopClean
    } else {
        GroupStep::StopTie { free: (rem - confirmed_len) as i64 }
    }
}

/// Decides what happens to one group of equal-ranked candidates.
pub fn decide_group(confirmed_len: i64, group_size: i64, rem: i64) -> (step: GroupStep)
    requires
        i64::MIN <= confirmed_len + group_size <= i64::MAX,
        confirmed_len + group_size > rem ==> i64::MIN <= rem - confirmed_len <= i64::MAX,
    ensures
        step == group_step(confirmed_len as int, group_size as int, rem as int),
{
    if confirmed_len + group_size <= rem {
        return GroupStep::Take;
    }
    let free = rem - confirmed_len;
    if free <= 0 {
        GroupStep::StopClean
    } else {
        GroupStep::StopTie { free }
    }
}

/// `b` is a group boundary of `s`: no group of equal ranks is cut at `b`.
pub open spec fn is_boundary<T>(s: Seq<(i64, T)>, b: int) -> bool {
    &&& 0 <= b <= s.len()
    &&& (b == 0 || b == s.len() || s[b - 1].0 != s[b].0)
}

/// The candidates (without their ranks) of a sequence of ranked candidates.
pub open spec fn values_of<T>(s: Seq<(i64, T)>) -> Seq<T> {
    s.map_values(|p: (i64, T)| p.1)
}

/// `[b, b + n)` is exactly one group: all of rank `s[b].0`, ending at a boundary.
pub open spec fn is_group_at<T>(s: Seq<(i64, T)>, b: int, n: int) -> bool {
    &&& 0 <= b
    &&& 0 < n
    &&& b + n <= s.len()
    &&& is_boundary(s, b + n)
    &&& forall|k: int| b <= k < b + n ==> #[trigger] s[k].0 == s[b].0
}

/// The exact contract of a filling against a finite quota `rem`: the confirmed
/// candidates are the prefix up to `cut`, the last group boundary that does not
/// exceed the quota; a tie is reported when free seats remain after `cut`.
pub open spec fn fill_pair<T>(
    s: Seq<(i64, T)>,
    rem: int,
    cut: int,
    confirmed: Seq<T>,
    tie: Option<TieBoundary>,
) -> bool {
    &&& is_boundary(s, cut)
    &&& (cut <= rem || cut == 0)
    &&& forall|b: int| #[trigger] is_boundary(s, b) && b > cut ==> b > rem
    &&& confirmed == values_of(s.take(cut))
    &&& if cut < s.len() && cut < rem {
        &&& tie is Some
        &&& tie->0.rank == s[cut].0
        &&& tie->0.free == rem - cut
        &&& is_group_at(s, cut, tie->0.contenders as int)
    } else {
        tie is None
    }
}

/// `fill_pair` for an outcome.
pub open spec fn fill_result<T>(s: Seq<(i64, T)>, rem: int, cut: int, out: FillOutcome<T>) -> bool {
    fill_pair(s, rem, cut, out.confirmed@, out.tie)
}

/// `p` is the `(confirmed, tie)` of a filling of `s` against the quota `rem`.
pub open spec fn fill_ok<T>(s: Seq<(i64, T)>, rem: int, p: (Seq<T>, Option<TieBoundary>)) -> bool {
    exists|cut: int| fill_pair(s, rem, cut, p.0, p.1)
}

/// The filling of `s` as a function: `(confirmed, tie)` for the quota `rem`
/// (`None` = unlimited).
pub open spec fn fill_spec<T>(s: Seq<(i64, T)>, remaining: Option<i64>) -> (Seq<T>, Option<TieBoundary>) {
    match remaining {
        None => (values_of(s), None),
        Some(rem) => choose|p: (Seq<T>, Option<TieBoundary>)| #[trigger] fill_ok(s, rem as int, p),
    }
}

proof fn lemma_no_boundary_inside_group<T>(s: Seq<(i64, T)>, i: int, j: int, b: int)
    requires
        0 <= i < j <= s.len(),
        forall|k: int| i <= k < j ==> #[trigger] s[k].0 == s[i].0,
        i < b < j,
    ensures
        !is_boundary(s, b),
{
    assert(s[b - 1].0 == s[i].0);
    assert(s[b].0 == s[i].0);
}

/// **Atomic group filling**, shared by the per-track quota phase and the
/// university quota phase.
///
/// `items` are `(rank, candidate)` pairs in rank order; `remaining` is the
/// remaining quota (`None` = unlimited). Groups of equal ranks are taken from
/// the top while they fit; the first group that does not fit ends the filling,
/// and is reported as a tie when it straddles free seats.
pub fn fill_by_rank_groups<T: Copy>(items: &[(i64, T)], remaining: Option<i64>) -> (out: FillOutcome<T>)
    requires
        items@.len() <= i64::MAX,
    ensures
        remaining is None ==> out.confirmed@ == values_of(items@) && out.tie is None,
        remaining matches Some(rem) ==> exists|cut: int| fill_result(items@, rem as int, cut, out),
        (out.confirmed@, out.tie) == fill_spec(items@, remaining),
{
    let rem = match remaining {
        None => {
            let mut all: Vec<T> = Vec::new();
            let mut k: usize = 0;
            while k < items.len()
                invariant
                    k <= items@.len(),
                    all@ == values_of(items@.take(k as int)),
                decreases items@.len() - k,
            {
                all.push(items[k].1);
                k = k + 1;
                assert(values_of(items@.take(k as int)) =~= values_of(items@.take(k - 1)).push(items@[k - 1].1));
            }
            assert(items@.take(items@.len() as int) =~= items@);
            return FillOutcome { confirmed: all, tie: None };
        },
        Some(r) => r,
    };

    let ghost s = items@;
    let mut confirmed: Vec<T> = Vec::new();
    let mut i: usize = 0;
    while i < items.len()
        invariant
            s == items@,
            s.len() <= i64::MAX,
            is_boundary(s, i as int),
            i <= rem || i == 0,
            confirmed@ == values_of(s.take(i as int)),
            remaining == Some(rem),
        decreases s.len() - i,
    {
        let rank = items[i].0;
        let mut j: usize = i;
        while j < items.len() && items[j].0 == rank
            invariant
                s == items@,
                i < s.len(),
                rank == s[i as int].0,
                i <= j <= s.len(),
                remaining == Some(rem),
                forall|k: int| i <= k < j ==> #[trigger] s[k].0 == rank,
            decreases s.len() - j,
        {
            j = j + 1;
        }
        assert(is_boundary(s, j as int));
        let group_size = (j - i) as i64;
        match decide_group(i as i64, group_size, rem) {
            GroupStep::Take => {
                let mut k: usize = i;
                while k < j
                    invariant
                        s == items@,
                        i <= k <= j <= s.len(),
                        confirmed@ == values_of(s.take(k as int)),
                    decreases j - k,
                {
                    confirmed.push(items[k].1);
                    k = k + 1;
                    assert(values_of(s.take(k as int)) =~= values_of(s.take(k - 1)).push(s[k - 1].1));
                }
                i = j;
            },
            GroupStep::StopClean => {
                let out = FillOutcome { confirmed, tie: None };
                proof {
                    assert forall|b: int| #[trigger] is_boundary(s, b) && b > i implies b > rem by {
                        if b < j {
                            lemma_no_boundary_inside_group(s, i as int, j as int, b);
                        }
                    }
                    assert(fill_result(s, rem as int, i as int, out));
                    assert(exists|cut: int| fill_result(items@, rem as int, cut, out));
                    assert(remaining->0 == rem);
                    lemma_fill_spec_is(s, rem, i as int, out.confirmed@, out.tie);
                }
                return out;
            },
            GroupStep::StopTie { free } => {
                let out = FillOutcome {
                    confirmed,
                    tie: Some(TieBoundary { rank, free, contenders: group_size }),
                };
                proof {
                    assert forall|b: int| #[trigger] is_boundary(s, b) && b > i implies b > rem by {
                        if b < j {
                            lemma_no_boundary_inside_group(s, i as int, j as int, b);
                        }
                    }
                    assert(fill_result(s, rem as int, i as int, out));
                    assert(exists|cut: int| fill_result(items@, rem as int, cut, out));
                    assert(remaining->0 == rem);
                    lemma_fill_spec_is(s, rem, i as int, out.confirmed@, out.tie);
                }
                return out;
            },
        }
    }
    let out = FillOutcome { confirmed, tie: None };
    proof {
        assert(fill_result(s, rem as int, i as int, out));
        assert(exists|cut: int| fill_result(items@, rem as int, cut, out));
        lemma_fill_spec_is(s, rem, i as int, out.confirmed@, out.tie);
    }
    out
}

proof fn lemma_fill_pair_unique<T>(
    s: Seq<(i64, T)>,
    rem: int,
    cut1: int,
    c1: Seq<T>,
    t1: Option<TieBoundary>,
    cut2: int,
    c2: Seq<T>,
    t2: Option<TieBoundary>,
)
    requires
        fill_pair(s, rem, cut1, c1, t1),
        fill_pair(s, rem, cut2, c2, t2),
    ensures
        cut1 == cut2,
        c1 == c2,
        t1 == t2,
{
    if cut1 > cut2 {
        assert(is_boundary(s, cut1));
    }
    if cut2 > cut1 {
        assert(is_boundary(s, cut2));
    }
    if t1 is Some {
        let n1 = t1->0.contenders as int;
        let n2 = t2->0.contenders as int;
        if n1 < n2 {
            assert(s[cut1 + n1].0 == s[cut1].0);
            assert(s[cut1 + n1 - 1].0 == s[cut1].0);
        }
        if n2 < n1 {
            assert(s[cut1 + n2].0 == s[cut1].0);
            assert(s[cut1 + n2 - 1].0 == s[cut1].0);
        }
    }
}

pub(crate) proof fn lemma_fill_spec_is<T>(s: Seq<(i64, T)>, rem: i64, cut: int, c: Seq<T>, t: Option<TieBoundary>)
    requires
        fill_pair(s, rem as int, cut, c, t),
    ensures
        fill_spec(s, Some(rem)) == (c, t),
{
    assert(fill_pair(s, rem as int, cut, (c, t).0, (c, t).1));
    assert(fill_ok(s, rem as int, (c, t)));
    let p = fill_spec(s, Some(rem));
    let cut2 = choose|cut2: int| fill_pair(s, rem as int, cut2, p.0, p.1);
    lemma_fill_pair_unique(s, rem as int, cut, c, t, cut2, p.0, p.1);
}

/// Law: a finite quota is never exceeded, confirmation never splits a group,
/// and a reported tie always has free seats fewer than its contenders.
pub proof fn law_fill_respects_quota<T>(items: Seq<(i64, T)>, rem: int, cut: int, out: FillOutcome<T>)
    requires
        fill_result(items, rem, cut, out),
    ensures
        out.confirmed@.len() == cut,
        rem >= 0 ==> out.confirmed@.len() <= rem,
        is_boundary(items, out.confirmed@.len() as int),
        out.tie matches Some(t) ==> 0 < t.free < t.contenders,
{
}

/// Law: with candidates in rank order, a tie confirms everyone ranked strictly
/// above the tied rank and nobody at or below it.
pub proof fn law_tie_confirms_strictly_higher<T>(items: Seq<(i64, T)>, rem: int, cut: int, out: FillOutcome<T>)
    requires
        fill_result(items, rem, cut, out),
        forall|a: int, b: int| 0 <= a <= b < items.len() ==> items[a].0 <= items[b].0,
        out.tie is Some,
    ensures
        forall|k: int| 0 <= k < items.len() ==> (k < cut <==> items[k].0 < out.tie->0.rank),
{
    assert forall|k: int| 0 <= k < items.len() implies (k < cut <==> items[k].0 < out.tie->0.rank) by {
        if k < cut {
            assert(items[k].0 <= items[cut - 1].0);
            assert(items[cut - 1].0 != items[cut].0);
        } else {
            assert(items[cut].0 <= items[k].0);
        }
    }
}

/// Law: more remaining quota never confirms fewer candidates — the confirmed
/// list for a smaller quota is a prefix of the list for a larger one. With equal
/// quotas the two results coincide (the filling is deterministic).
pub proof fn law_fill_monotone<T>(
    items: Seq<(i64, T)>,
    rem1: int,
    cut1: int,
    out1: FillOutcome<T>,
    rem2: int,
    cut2: int,
    out2: FillOutcome<T>,
)
    requires
        fill_result(items, rem1, cut1, out1),
        fill_result(items, rem2, cut2, out2),
        rem1 <= rem2,
    ensures
        cut1 <= cut2,
        out1.confirmed@ == out2.confirmed@.take(cut1),
        rem1 == rem2 ==> out1.confirmed@ == out2.confirmed@ && out1.tie == out2.tie,
{
    if cut1 > cut2 {
        assert(is_boundary(items, cut1));
    }
    assert(items.take(cut2).take(cut1) =~= items.take(cut1));
    assert(values_of(items.take(cut2)).take(cut1) =~= values_of(items.take(cut2).take(cut1)));
    if rem1 == rem2 {
        if cut2 > cut1 {
            assert(is_boundary(items, cut2));
        }
        if out1.tie is Some {
            let n1 = out1.tie->0.contenders as int;
            let n2 = out2.tie->0.contenders as int;
            if n1 < n2 {
                assert(items[cut1 + n1].0 == items[cut1].0);
                assert(items[cut1 + n1 - 1].0 == items[cut1].0);
            }
            if n2 < n1 {
                assert(items[cut1 + n2].0 == items[cut1].0);
                assert(items[cut1 + n2 - 1].0 == items[cut1].0);
            }
        }
    }
}

/// The largest group boundary of `s` among `0..=k` that does not exceed `rem` (0 when none does).
pub open spec fn last_fitting_boundary<T>(s: Seq<(i64, T)>, rem: int, k: int) -> int
    decreases k,
{
    if k <= 0 {
        0
    } else if is_boundary(s, k) && k <= rem {
        k
    } else {
        last_fitting_boundary(s, rem, k - 1)
    }
}

/// The first group boundary of `s` from `j` on (`s.len()` at the latest).
pub open spec fn next_boundary<T>(s: Seq<(i64, T)>, j: int) -> int
    decreases s.len() - j,
{
    if j >= s.len() || is_boundary(s, j) {
        j
    } else {
        next_boundary(s, j + 1)
    }
}

proof fn lemma_last_fitting<T>(s: Seq<(i64, T)>, rem: int, k: int)
    requires
        0 <= k <= s.len(),
    ensures
        ({
            let c = last_fitting_boundary(s, rem, k);
            &&& 0 <= c <= k
            &&& is_boundary(s, c)
            &&& (c <= rem || c == 0)
            &&& forall|b: int| c < b <= k && #[trigger] is_boundary(s, b) ==> b > rem
        }),
    decreases k,
{
    if k > 0 && !(is_boundary(s, k) && k <= rem) {
        lemma_last_fitting(s, rem, k - 1);
    }
}

proof fn lemma_next_boundary<T>(s: Seq<(i64, T)>, c: int, j: int)
    requires
        0 <= c < j <= s.len(),
        forall|k: int| c <= k < j ==> #[trigger] s[k].0 == s[c].0,
    ensures
        ({
            let g = next_boundary(s, j);
            &&& j <= g <= s.len()
            &&& is_boundary(s, g)
            &&& forall|k: int| c <= k < g ==> #[trigger] s[k].0 == s[c].0
        }),
    decreases s.len() - j,
{
    if j < s.len() && !is_boundary(s, j) {
        assert(s[j - 1].0 == s[j].0);
        lemma_next_boundary(s, c, j + 1);
    }
}

/// Against a finite quota, the filling confirms a leading part of the candidates, in order.
pub proof fn lemma_fill_spec_prefix<T>(s: Seq<(i64, T)>, rem: i64)
    requires
        s.len() <= i64::MAX,
    ensures
        exists|c: int| 0 <= c <= s.len() && fill_spec(s, Some(rem)).0 == values_of(#[trigger] s.take(c)) && is_boundary(s, c),
{
    let n = s.len() as int;
    lemma_last_fitting(s, rem as int, n);
    let c = last_fitting_boundary(s, rem as int, n);
    let conf = values_of(s.take(c));
    if c < n && c < rem {
        lemma_next_boundary(s, c, c + 1);
        let g = next_boundary(s, c + 1);
        let tie = TieBoundary { rank: s[c].0, free: (rem - c) as i64, contenders: (g - c) as i64 };
        assert(is_group_at(s, c, tie.contenders as int));
        assert(fill_pair(s, rem as int, c, conf, Some(tie)));
        lemma_fill_spec_is(s, rem, c, conf, Some(tie));
    } else {
        assert(fill_pair(s, rem as int, c, conf, None));
        lemma_fill_spec_is(s, rem, c, conf, None);
    }
}

} // verus!
