//! Fixed-point scores: every score is stored as an integer scaled by 100 000,
//! so that no floating-point value ever takes part in a computation.
use vstd::prelude::*;

verus! {

/// A score scaled by 100 000 (`1.5` points is `Score(150_000)`).
#[derive(Clone, Copy, Debug, Default, PartialEq, Eq, PartialOrd, Ord, Structural)]
pub struct Score(pub i64);

/// The sum of the raw values of a sequence of scores, as a mathematical integer.
pub open spec fn score_sum(s: Seq<Score>) -> int
    decreases s.len(),
{
    if s.len() == 0 {
        0
    } else {
        score_sum(s.drop_last()) + s.last().0
    }
}

impl Score {
    /// The raw (scaled) integer value.
    pub fn raw(self) -> (r: i64)
        ensures
            r == self.0,
    {
        self.0
    }

    /// Wraps a raw (scaled) integer value.
    pub fn from_raw(v: i64) -> (s: Self)
        ensures
            s.0 == v,
    {
        Score(v)
    }

    /// Adds two scores; the sum must fit in an `i64` (an overflow is a fault).
    pub fn add(self, rhs: Score) -> (s: Score)
        requires
            i64::MIN <= self.0 + rhs.0 <= i64::MAX,
        ensures
            s.0 == self.0 + rhs.0,
    {
        Score(self.0 + rhs.0)
    }

    /// Adds two scores, or `None` when the sum leaves the `i64` range.
    pub fn checked_add(self, rhs: Score) -> (s: Option<Score>)
        ensures
            s matches Some(v) ==> v.0 == self.0 + rhs.0,
            s is None <==> !(i64::MIN <= self.0 + rhs.0 <= i64::MAX),
    {
        match self.0.checked_add(rhs.0) {
            Some(v) => Some(Score(v)),
            None => None,
        }
    }

    /// Sums a list of scores; every partial sum must fit in an `i64`.
    pub fn sum(items: &Vec<Score>) -> (s: Score)
        requires
            forall|k: int|
                0 <= k <= items@.len() ==> i64::MIN <= #[trigger] score_sum(items@.take(k)) <= i64::MAX,
        ensures
            s.0 == score_sum(items@),
    {
        let mut acc: i64 = 0;
        let mut i: usize = 0;
        while i < items.len()
            invariant
                i <= items@.len(),
                acc == score_sum(items@.take(i as int)),
                forall|k: int|
                    0 <= k <= items@.len() ==> i64::MIN <= #[trigger] score_sum(items@.take(k)) <= i64::MAX,
            decreases items@.len() - i,
        {
            assert(items@.take(i + 1).drop_last() =~= items@.take(i as int));
            assert(score_sum(items@.take(i + 1)) == acc + items@[i as int].0);
            acc = acc + items[i].0;
            i = i + 1;
        }
        assert(items@.take(items@.len() as int) =~= items@);
        Score(acc)
    }
}

} // verus!
