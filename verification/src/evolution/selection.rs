//! Finding the two best scores of a generation.
//!
//! The scores are scanned once, slice by slice, keeping a running pair of
//! leaders for each slice; the pairs are then merged. Ties go to the index
//! seen first, so the answer is the same however the scores are sliced.

use crate::fitness::Fitness;
use vstd::prelude::*;

verus! {

/// `best` is the first index in `lo..hi` whose score no other score of the
/// range exceeds.
pub open spec fn leads(scores: Seq<Fitness>, lo: int, hi: int, best: int) -> bool {
    &&& lo <= best < hi
    &&& forall|i: int| lo <= i < hi ==> (#[trigger] scores[i]).rank() <= scores[best].rank()
    &&& forall|i: int| lo <= i < best ==> (#[trigger] scores[i]).rank() < scores[best].rank()
}

/// `second` is the first index in `lo..hi`, `best` left aside, whose score no
/// other score of the range but that of `best` exceeds.
pub open spec fn follows(scores: Seq<Fitness>, lo: int, hi: int, best: int, second: int) -> bool {
    &&& lo <= second < hi
    &&& second != best
    &&& forall|i: int|
        lo <= i < hi && i != best ==> (#[trigger] scores[i]).rank() <= scores[second].rank()
    &&& forall|i: int|
        lo <= i < second && i != best ==> (#[trigger] scores[i]).rank() < scores[second].rank()
}

/// The indices of the best and the second-best score of a range, as far as
/// the range has that many scores.
#[derive(Clone, Copy, Debug, PartialEq, Eq, Structural)]
pub struct Leaders {
    pub best: Option<usize>,
    pub second: Option<usize>,
}

impl Leaders {
    /// These are the leaders of `scores[lo..hi]`: nobody in an empty range, the
    /// only index of a range of one, and otherwise the first index of the
    /// highest score followed by the first index of the highest among the rest.
    pub open spec fn lead(self, scores: Seq<Fitness>, lo: int, hi: int) -> bool {
        if hi <= lo {
            self.best is None && self.second is None
        } else if hi == lo + 1 {
            self.best == Some(lo as usize) && self.second is None
        } else {
            &&& self.best matches Some(best)
            &&& self.second matches Some(second)
            &&& leads(scores, lo, hi, best as int)
            &&& follows(scores, lo, hi, best as int, second as int)
        }
    }

    /// The leaders of an empty range.
    pub fn nobody() -> (leaders: Leaders)
        ensures
            leaders.best is None,
            leaders.second is None,
    {
        Leaders { best: None, second: None }
    }

    /// The leaders of `scores[lo..hi + 1]`, given those of `scores[lo..hi]`: one
    /// step of the single scan.
    pub fn offer(self, scores: &Vec<Fitness>, lo: usize, hi: usize) -> (leaders: Leaders)
        requires
            lo <= hi < scores@.len(),
            self.lead(scores@, lo as int, hi as int),
        ensures
            leaders.lead(scores@, lo as int, hi + 1),
    {
        match self.best {
            None => Leaders { best: Some(hi), second: None },
            Some(best) => {
                if scores[hi].exceeds(&scores[best]) {
                    Leaders { best: Some(hi), second: Some(best) }
                } else {
                    match self.second {
                        None => Leaders { best: Some(best), second: Some(hi) },
                        Some(second) => {
                            if scores[hi].exceeds(&scores[second]) {
                                Leaders { best: Some(best), second: Some(hi) }
                            } else {
                                self
                            }
                        },
                    }
                }
            },
        }
    }

    /// The leaders of `scores[lo..hi]`, found in one pass.
    pub fn scan(scores: &Vec<Fitness>, lo: usize, hi: usize) -> (leaders: Leaders)
        requires
            lo <= hi <= scores@.len(),
        ensures
            leaders.lead(scores@, lo as int, hi as int),
    {
        let mut leaders = Leaders::nobody();
        let mut i: usize = lo;
        while i < hi
            invariant
                lo <= i <= hi <= scores@.len(),
                leaders.lead(scores@, lo as int, i as int),
            decreases hi - i,
        {
            leaders = leaders.offer(scores, lo, i);
            i += 1;
        }
        leaders
    }

    /// The leaders of `scores[lo..hi]`, given those of `scores[lo..mid]` and
    /// those of `scores[mid..hi]`. A tie between the two sides goes to the
    /// left one, whose indices come first.
    pub fn merge(
        self,
        right: Leaders,
        scores: &Vec<Fitness>,
        lo: usize,
        mid: usize,
        hi: usize,
    ) -> (leaders: Leaders)
        requires
            lo <= mid <= hi <= scores@.len(),
            self.lead(scores@, lo as int, mid as int),
            right.lead(scores@, mid as int, hi as int),
        ensures
            leaders.lead(scores@, lo as int, hi as int),
    {
        match (self.best, right.best) {
            (None, _) => right,
            (_, None) => self,
            (Some(left_best), Some(right_best)) => {
                if scores[right_best].exceeds(&scores[left_best]) {
                    let second = match right.second {
                        None => left_best,
                        Some(right_second) => {
                            if scores[right_second].exceeds(&scores[left_best]) {
                                right_second
                            } else {
                                left_best
                            }
                        },
                    };
                    Leaders { best: Some(right_best), second: Some(second) }
                } else {
                    let second = match self.second {
                        None => right_best,
                        Some(left_second) => {
                            if scores[right_best].exceeds(&scores[left_second]) {
                                right_best
                            } else {
                                left_second
                            }
                        },
                    };
                    Leaders { best: Some(left_best), second: Some(second) }
                }
            },
        }
    }
}

/// The number of scans that `threads` threads make: one for each, and one
/// if there is no thread at all.
pub open spec fn scans(threads: int) -> int {
    if threads <= 1 {
        1
    } else {
        threads
    }
}

/// The length of the slices into which `len` scores are cut for `threads`
/// scans: `len` divided by the number of scans and rounded up, and 1 at
/// least.
pub open spec fn slice_span(len: int, threads: int) -> int {
    let whole = len / scans(threads);
    let span = if len % scans(threads) == 0 {
        whole
    } else {
        whole + 1
    };
    if span <= 0 {
        1
    } else {
        span
    }
}

/// The length of the slices into which `len` scores are cut for `threads`
/// scans: `len` divided by `threads` and rounded up, and 1 at least. No
/// threads at all count as one. As many slices of that length as there are
/// scans hold all the scores.
fn slice_length(len: usize, threads: usize) -> (step: usize)
    ensures
        step == slice_span(len as int, threads as int),
        step >= 1,
        step * scans(threads as int) >= len,
{
    let step = if threads <= 1 {
        len
    } else if len % threads == 0 {
        assert((len / threads) * threads == len && (len / threads == 0 ==> len == 0))
            by (nonlinear_arith)
            requires
                threads >= 2,
                len % threads == 0,
        ;
        len / threads
    } else {
        assert(len / threads < len && (len / threads + 1) * threads >= len) by (nonlinear_arith)
            requires
                threads >= 2,
                len % threads != 0,
        ;
        len / threads + 1
    };
    assert(step * scans(threads as int) >= len) by {
        if threads <= 1 {
            assert(step * 1 == step);
        }
    }
    if step == 0 {
        1
    } else {
        step
    }
}

/// The two best of `scores`: the first index of the highest score, and the
/// first index of the highest among the others. The scores are cut into at
/// most `threads` slices, each scanned on its own, and the slices' leaders are
/// merged; the result does not depend on `threads`.
pub fn select_elites(scores: &Vec<Fitness>, threads: usize) -> (leaders: Leaders)
    ensures
        leaders.lead(scores@, 0, scores@.len() as int),
{
    let len = scores.len();
    let step = slice_length(len, threads);
    let mut leaders = Leaders::nobody();
    let mut lo: usize = 0;
    while lo < len
        invariant
            lo <= len == scores@.len(),
            step >= 1,
            leaders.lead(scores@, 0, lo as int),
        decreases len - lo,
    {
        let hi: usize = if len - lo <= step {
            len
        } else {
            lo + step
        };
        let local = Leaders::scan(scores, lo, hi);
        leaders = leaders.merge(local, scores, 0, lo, hi);
        lo = hi;
    }
    leaders
}

/// The two leaders of a generation are two different individuals, and no
/// individual beside them scores higher than either of them.
pub proof fn lemma_leaders_outrank_the_rest(scores: Seq<Fitness>, leaders: Leaders)
    requires
        scores.len() >= 2,
        leaders.lead(scores, 0, scores.len() as int),
    ensures
        leaders.best is Some,
        leaders.second is Some,
        leaders.best->0 < scores.len(),
        leaders.second->0 < scores.len(),
        leaders.best->0 != leaders.second->0,
        scores[leaders.second->0 as int].rank() <= scores[leaders.best->0 as int].rank(),
        forall|i: int|
            0 <= i < scores.len() && i != leaders.best->0 && i != leaders.second->0 ==> (
            #[trigger] scores[i]).rank() <= scores[leaders.second->0 as int].rank(),
{
}

/// A range of scores has one pair of leaders and no other.
pub proof fn lemma_leaders_are_unique(
    scores: Seq<Fitness>,
    lo: int,
    hi: int,
    one: Leaders,
    other: Leaders,
)
    requires
        0 <= lo <= hi <= scores.len(),
        lo <= usize::MAX,
        one.lead(scores, lo, hi),
        other.lead(scores, lo, hi),
    ensures
        one == other,
{
    if hi >= lo + 2 {
        let a = one.best->0 as int;
        let b = other.best->0 as int;
        assert(a == b) by {
            if a < b {
                assert(scores[a].rank() < scores[b].rank());
                assert(scores[b].rank() <= scores[a].rank());
            }
            if b < a {
                assert(scores[b].rank() < scores[a].rank());
                assert(scores[a].rank() <= scores[b].rank());
            }
        }
        let c = one.second->0 as int;
        let d = other.second->0 as int;
        assert(c == d) by {
            if c < d {
                assert(scores[c].rank() < scores[d].rank());
                assert(scores[d].rank() <= scores[c].rank());
            }
            if d < c {
                assert(scores[d].rank() < scores[c].rank());
                assert(scores[c].rank() <= scores[d].rank());
            }
        }
    }
}

} // verus!
