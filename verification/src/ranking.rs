//! University-wide ranking of the calculated results of a round: standard
//! competition ranking (ties share a rank: 1, 2, 2, 4, ...), with enrolled
//! students first when the university gives them priority.
use vstd::prelude::*;
use crate::score::Score;

verus! {

/// One result to rank.
#[derive(Debug, Clone, Copy, PartialEq, Eq, Structural)]
pub struct RankEntry {
    pub student_id: i64,
    pub track_id: i64,
    pub total_score: Score,
    pub is_enrolled: bool,
}

/// `a` ranks strictly before `b`: an enrolled student before a graduate when
/// enrolled students have priority, otherwise (or between equals) the higher total.
pub open spec fn ranks_before(a: RankEntry, b: RankEntry, prioritize: bool) -> bool {
    if prioritize {
        (a.is_enrolled && !b.is_enrolled) || (a.is_enrolled == b.is_enrolled && a.total_score.0 > b.total_score.0)
    } else {
        a.total_score.0 > b.total_score.0
    }
}

/// The number of entries among `0..n` ranking strictly before `x`.
pub open spec fn count_before(entries: Seq<RankEntry>, x: RankEntry, prioritize: bool, n: int) -> nat
    decreases n,
{
    if n <= 0 {
        0
    } else {
        count_before(entries, x, prioritize, n - 1) + if ranks_before(entries[n - 1], x, prioritize) { 1nat } else { 0nat }
    }
}

/// The competition rank of `x`: one more than the number of entries ranking before it.
pub open spec fn competition_rank(entries: Seq<RankEntry>, x: RankEntry, prioritize: bool) -> int {
    1 + count_before(entries, x, prioritize, entries.len() as int) as int
}

proof fn lemma_count_bound(entries: Seq<RankEntry>, x: RankEntry, prioritize: bool, n: int)
    requires
        0 <= n <= entries.len(),
    ensures
        count_before(entries, x, prioritize, n) <= n,
    decreases n,
{
    if n > 0 {
        lemma_count_bound(entries, x, prioritize, n - 1);
    }
}

/// Ranks the results of one university (the rank of `entries[i]` is `r[i]`).
pub fn competition_ranks(entries: &Vec<RankEntry>, prioritize: bool) -> (r: Vec<i64>)
    requires
        entries@.len() < i64::MAX,
    ensures
        r@.len() == entries@.len(),
        forall|i: int| 0 <= i < entries@.len() ==> r@[i] == competition_rank(entries@, entries@[i], prioritize),
{
    let n = entries.len();
    let mut r: Vec<i64> = Vec::new();
    let mut i: usize = 0;
    while i < n
        invariant
            n == entries@.len(),
            n < i64::MAX,
            i <= n,
            r@.len() == i,
            forall|k: int| 0 <= k < i ==> r@[k] == competition_rank(entries@, entries@[k], prioritize),
        decreases n - i,
    {
        let x = entries[i];
        let mut c: i64 = 0;
        let mut j: usize = 0;
        while j < n
            invariant
                n == entries@.len(),
                n < i64::MAX,
                j <= n,
                x == entries@[i as int],
                c == count_before(entries@, x, prioritize, j as int),
            decreases n - j,
        {
            proof {
                lemma_count_bound(entries@, x, prioritize, j as int);
            }
            let y = entries[j];
            let before = if prioritize {
                (y.is_enrolled && !x.is_enrolled) || (y.is_enrolled == x.is_enrolled && y.total_score.0
                    > x.total_score.0)
            } else {
                y.total_score.0 > x.total_score.0
            };
            if before {
                c = c + 1;
            }
            j = j + 1;
        }
        proof {
            lemma_count_bound(entries@, x, prioritize, n as int);
        }
        r.push(c + 1);
        i = i + 1;
    }
    r
}

proof fn lemma_ranks_before_transitive(a: RankEntry, b: RankEntry, c: RankEntry, prioritize: bool)
    requires
        ranks_before(a, b, prioritize),
        ranks_before(b, c, prioritize),
    ensures
        ranks_before(a, c, prioritize),
{
}

proof fn lemma_count_mono(entries: Seq<RankEntry>, a: RankEntry, b: RankEntry, prioritize: bool, n: int)
    requires
        0 <= n <= entries.len(),
        ranks_before(a, b, prioritize),
    ensures
        count_before(entries, a, prioritize, n) <= count_before(entries, b, prioritize, n),
        (exists|k: int| 0 <= k < n && entries[k] == a) ==> count_before(entries, a, prioritize, n) < count_before(
            entries,
            b,
            prioritize,
            n,
        ),
    decreases n,
{
    if n > 0 {
        lemma_count_mono(entries, a, b, prioritize, n - 1);
        if ranks_before(entries[n - 1], a, prioritize) {
            lemma_ranks_before_transitive(entries[n - 1], a, b, prioritize);
        }
        if exists|k: int| 0 <= k < n && entries[k] == a {
            let k = choose|k: int| 0 <= k < n && entries[k] == a;
            if k < n - 1 {
                assert(exists|k2: int| 0 <= k2 < n - 1 && entries[k2] == a);
            }
        }
    }
}

proof fn lemma_count_equal(entries: Seq<RankEntry>, a: RankEntry, b: RankEntry, prioritize: bool, n: int)
    requires
        0 <= n <= entries.len(),
        !ranks_before(a, b, prioritize),
        !ranks_before(b, a, prioritize),
    ensures
        count_before(entries, a, prioritize, n) == count_before(entries, b, prioritize, n),
    decreases n,
{
    if n > 0 {
        lemma_count_equal(entries, a, b, prioritize, n - 1);
    }
}

/// Law (competition ranking): an entry that ranks before another gets a
/// strictly smaller rank; entries that tie (neither ranks before the other)
/// share a rank; ranks run from 1 to the number of entries.
pub proof fn law_competition_ranking(entries: Seq<RankEntry>, prioritize: bool, i: int, j: int)
    requires
        0 <= i < entries.len(),
        0 <= j < entries.len(),
    ensures
        ranks_before(entries[i], entries[j], prioritize) ==> competition_rank(entries, entries[i], prioritize)
            < competition_rank(entries, entries[j], prioritize),
        !ranks_before(entries[i], entries[j], prioritize) && !ranks_before(entries[j], entries[i], prioritize)
            ==> competition_rank(entries, entries[i], prioritize) == competition_rank(entries, entries[j], prioritize),
        1 <= competition_rank(entries, entries[i], prioritize) <= entries.len(),
{
    let n = entries.len() as int;
    if ranks_before(entries[i], entries[j], prioritize) {
        assert(entries[i] == entries[i]);
        lemma_count_mono(entries, entries[i], entries[j], prioritize, n);
    }
    if !ranks_before(entries[i], entries[j], prioritize) && !ranks_before(entries[j], entries[i], prioritize) {
        lemma_count_equal(entries, entries[i], entries[j], prioritize, n);
    }
    lemma_count_self_excluded(entries, entries[i], prioritize, n, i);
}

proof fn lemma_count_self_excluded(entries: Seq<RankEntry>, x: RankEntry, prioritize: bool, n: int, i: int)
    requires
        0 <= i < n <= entries.len(),
        entries[i] == x,
    ensures
        count_before(entries, x, prioritize, n) <= n - 1,
    decreases n,
{
    if i < n - 1 {
        lemma_count_self_excluded(entries, x, prioritize, n - 1, i);
    } else {
        lemma_count_bound(entries, x, prioritize, n - 1);
    }
}

/// Law (what decides the ranking): between two results of the same
/// enrolment status, the higher total gets the strictly smaller rank and
/// equal totals share a rank, with or without priority; with priority an
/// enrolled student ranks before every graduate; without it, the totals alone
/// decide, whatever the enrolment.
pub proof fn law_ranking_by_status_and_total(entries: Seq<RankEntry>, prioritize: bool, i: int, j: int)
    requires
        0 <= i < entries.len(),
        0 <= j < entries.len(),
    ensures
        entries[i].is_enrolled == entries[j].is_enrolled && entries[i].total_score.0 > entries[j].total_score.0
            ==> competition_rank(entries, entries[i], prioritize) < competition_rank(entries, entries[j], prioritize),
        entries[i].is_enrolled == entries[j].is_enrolled && entries[i].total_score.0 == entries[j].total_score.0
            ==> competition_rank(entries, entries[i], prioritize) == competition_rank(entries, entries[j], prioritize),
        prioritize && entries[i].is_enrolled && !entries[j].is_enrolled ==> competition_rank(entries, entries[i], prioritize)
            < competition_rank(entries, entries[j], prioritize),
        !prioritize && entries[i].total_score.0 > entries[j].total_score.0 ==> competition_rank(entries, entries[i], false)
            < competition_rank(entries, entries[j], false),
        !prioritize && entries[i].total_score.0 == entries[j].total_score.0 ==> competition_rank(entries, entries[i], false)
            == competition_rank(entries, entries[j], false),
{
    law_competition_ranking(entries, prioritize, i, j);
}

} // verus!
