use vstd::prelude::*;

use crate::quality::{FrameQualityAnalyzer, ScoredFrame};
use crate::taskstatus::{set_task_completed, TaskStatusContainer};
use crate::cancel::TaskCompletion;

verus! {

broadcast use vstd::seq_lib::group_to_multiset_ensures;

/// The smallest and largest score of a series. On an empty series these are the
/// sentinels `i64::MAX` and `i64::MIN`.
#[derive(Debug, Clone, Copy, PartialEq, Eq, Structural)]
pub struct AnalysisRange {
    pub min: i64,
    pub max: i64,
}

/// An exact arithmetic mean, kept as the sum of the values and how many there were.
/// A mean over no values has `count == 0`.
#[derive(Debug, Clone, Copy, PartialEq, Eq, Structural)]
pub struct Mean {
    pub sum: i128,
    pub count: usize,
}

/// The quality scores of the frames that survived filtering, in frame order.
#[derive(Debug, Clone, Default)]
pub struct AnalysisSeries {
    pub sigma_list: Vec<i64>,
}

/// Largest first: no element is smaller than one after it.
pub open spec fn non_increasing(s: Seq<i64>) -> bool {
    forall|a: int, b: int| 0 <= a < b < s.len() ==> s[a] >= s[b]
}

/// Sum of a sequence of scores.
pub open spec fn sum_of(s: Seq<i64>) -> int
    decreases s.len(),
{
    if s.len() == 0 {
        0
    } else {
        sum_of(s.drop_last()) + s.last()
    }
}

/// First index of the averaging window at position `i`, for half-width `h`.
pub open spec fn window_start(i: int, h: int) -> int {
    if i <= h {
        0
    } else {
        i - h
    }
}

/// One past the last index of the averaging window at position `i`, clamped to `n`.
pub open spec fn window_end(n: int, i: int, h: int) -> int {
    if i + h > n {
        n
    } else {
        i + h
    }
}

/// The boundary-clamped centred mean at position `i` of `s` for window `window`.
pub open spec fn sma_at(s: Seq<i64>, window: nat, i: int) -> Mean {
    let h = (window / 2) as int;
    let start = window_start(i, h);
    let end = window_end(s.len() as int, i, h);
    if start < end {
        Mean { sum: sum_of(s.subrange(start, end)) as i128, count: (end - start) as usize }
    } else {
        Mean { sum: 0, count: 0 }
    }
}

proof fn lemma_sum_push(s: Seq<i64>, a: int, b: int)
    requires
        0 <= a <= b < s.len(),
    ensures
        sum_of(s.subrange(a, b + 1)) == sum_of(s.subrange(a, b)) + s[b],
{
    assert(s.subrange(a, b + 1).drop_last() =~= s.subrange(a, b));
}

/// Whether `x` lies in the inclusive range `[lo, hi]`; a missing bound does not limit.
pub open spec fn within(x: i64, lo: Option<i64>, hi: Option<i64>) -> bool {
    &&& (lo matches Some(l) ==> l <= x)
    &&& (hi matches Some(h) ==> x <= h)
}

/// The scores of the frames that lie within the bounds, in frame order.
pub open spec fn sigmas_within(frames: Seq<ScoredFrame>, lo: Option<i64>, hi: Option<i64>) -> Seq<i64>
    decreases frames.len(),
{
    if frames.len() == 0 {
        Seq::empty()
    } else {
        let rest = sigmas_within(frames.drop_last(), lo, hi);
        if within(frames.last().sigma, lo, hi) {
            rest.push(frames.last().sigma)
        } else {
            rest
        }
    }
}

impl AnalysisSeries {
    /// The series of the frames whose score lies in `[min_sigma, max_sigma]`
    /// (inclusive; `None` leaves that side open), in frame order.
    pub fn from_scored_frames(
        frames: &Vec<ScoredFrame>,
        min_sigma: Option<i64>,
        max_sigma: Option<i64>,
    ) -> (r: AnalysisSeries)
        ensures
            r.sigma_list@ == sigmas_within(frames@, min_sigma, max_sigma),
    {
        let mut sigma_list: Vec<i64> = Vec::new();
        let mut i: usize = 0;
        while i < frames.len()
            invariant
                i <= frames@.len(),
                sigma_list@ == sigmas_within(frames@.subrange(0, i as int), min_sigma, max_sigma),
            decreases frames.len() - i,
        {
            let s = frames[i].sigma;
            let keep = match min_sigma {
                Some(l) => l <= s,
                None => true,
            } && match max_sigma {
                Some(h) => s <= h,
                None => true,
            };
            proof {
                assert(frames@.subrange(0, i + 1).drop_last() =~= frames@.subrange(0, i as int));
            }
            if keep {
                sigma_list.push(s);
            }
            i = i + 1;
        }
        assert(frames@.subrange(0, frames.len() as int) =~= frames@);
        AnalysisSeries { sigma_list }
    }

    pub fn new(sigma_list: Vec<i64>) -> (r: AnalysisSeries)
        ensures
            r.sigma_list@ == sigma_list@,
    {
        AnalysisSeries { sigma_list }
    }

    /// A copy of the scores sorted from largest to smallest; the series is unchanged.
    pub fn sorted_list(&self) -> (r: Vec<i64>)
        ensures
            r@.to_multiset() == self.sigma_list@.to_multiset(),
            non_increasing(r@),
    {
        let s = &self.sigma_list;
        let mut sorted: Vec<i64> = Vec::new();
        let mut i: usize = 0;
        while i < s.len()
            invariant
                i <= s.len(),
                non_increasing(sorted@),
                sorted@.to_multiset() == s@.subrange(0, i as int).to_multiset(),
            decreases s.len() - i,
        {
            let x = s[i];
            let mut p: usize = 0;
            while p < sorted.len() && sorted[p] >= x
                invariant
                    p <= sorted.len(),
                    forall|k: int| 0 <= k < p ==> sorted@[k] >= x,
                decreases sorted.len() - p,
            {
                p = p + 1;
            }
            proof {
                assert(forall|k: int| p <= k < sorted.len() ==> sorted@[k] < x) by {
                    assert forall|k: int| p <= k < sorted.len() implies sorted@[k] < x by {
                        assert(sorted@[p as int] < x);
                        if p < k {
                            assert(sorted@[p as int] >= sorted@[k]);
                        }
                    }
                }
                vstd::seq_lib::to_multiset_insert(sorted@, p as int, x);
                assert(s@.subrange(0, i + 1) =~= s@.subrange(0, i as int).push(x));
            }
            sorted.insert(p, x);
            i = i + 1;
        }
        assert(s@.subrange(0, s.len() as int) =~= s@);
        sorted
    }

    /// The smallest and largest score, found by one scan. An empty series gives
    /// `i64::MAX` as minimum and `i64::MIN` as maximum.
    pub fn minmax(&self) -> (r: AnalysisRange)
        ensures
            forall|k: int| 0 <= k < self.sigma_list@.len() ==> r.min <= #[trigger] self.sigma_list@[k] <= r.max,
            self.sigma_list@.len() > 0 ==> self.sigma_list@.contains(r.min) && self.sigma_list@.contains(r.max),
            self.sigma_list@.len() == 0 ==> r.min == i64::MAX && r.max == i64::MIN,
    {
        let s = &self.sigma_list;
        let mut mn: i64 = i64::MAX;
        let mut mx: i64 = i64::MIN;
        let mut i: usize = 0;
        while i < s.len()
            invariant
                i <= s.len(),
                forall|k: int| 0 <= k < i ==> mn <= #[trigger] s@[k] <= mx,
                i > 0 ==> s@.subrange(0, i as int).contains(mn) && s@.subrange(0, i as int).contains(mx),
                i == 0 ==> mn == i64::MAX && mx == i64::MIN,
            decreases s.len() - i,
        {
            let v = s[i];
            proof {
                if i > 0 {
                    let w1 = choose|k: int| 0 <= k < i && s@.subrange(0, i as int)[k] == mn;
                    let w2 = choose|k: int| 0 <= k < i && s@.subrange(0, i as int)[k] == mx;
                    assert(s@.subrange(0, i + 1)[w1] == mn);
                    assert(s@.subrange(0, i + 1)[w2] == mx);
                }
                assert(s@.subrange(0, i + 1)[i as int] == v);
            }
            if v < mn {
                mn = v;
            }
            if v > mx {
                mx = v;
            }
            i = i + 1;
        }
        proof {
            if s.len() > 0 {
                assert(s@.subrange(0, s.len() as int) =~= s@);
            }
        }
        AnalysisRange { min: mn, max: mx }
    }

    /// The boundary-clamped centred moving average: position `i` is the mean of the
    /// scores from `i - window / 2` (at least 0) up to, not including, `i + window / 2`
    /// (at most the length). Windows shrink at the ends.
    pub fn sma(&self, window: usize) -> (r: Vec<Mean>)
        ensures
            r@.len() == self.sigma_list@.len(),
            forall|i: int| 0 <= i < r@.len() ==> r@[i] == sma_at(self.sigma_list@, window as nat, i),
    {
        let s = &self.sigma_list;
        let n = s.len();
        let half_win = window / 2;
        let mut out: Vec<Mean> = Vec::new();
        let mut i: usize = 0;
        while i < n
            invariant
                n == s@.len(),
                half_win == window / 2,
                i <= n,
                out@.len() == i,
                forall|k: int| 0 <= k < i ==> out@[k] == sma_at(s@, window as nat, k),
            decreases n - i,
        {
            let start: usize = if i <= half_win { 0 } else { i - half_win };
            let end: usize = if half_win > n - i { n } else { i + half_win };
            let mut sum: i128 = 0;
            let mut j: usize = start;
            while j < end
                invariant
                    n == s@.len(),
                    start <= j <= end <= n,
                    sum == sum_of(s@.subrange(start as int, j as int)),
                    -(j - start) * 0x8000_0000_0000_0000 <= sum <= (j - start) * 0x8000_0000_0000_0000,
                decreases end - j,
            {
                proof {
                    lemma_sum_push(s@, start as int, j as int);
                    assert(n <= usize::MAX);
                }
                sum = sum + s[j] as i128;
                j = j + 1;
            }
            let m = if start < end {
                Mean { sum, count: end - start }
            } else {
                Mean { sum: 0, count: 0 }
            };
            out.push(m);
            i = i + 1;
        }
        out
    }
}

/// Ends a diagnostic scoring pass: the scored frames in input order are filtered by
/// the sigma bounds. A pass that did not receive every frame is an error. Either way
/// the run is over, so the status slot is emptied.
pub fn complete_sigma_analysis(
    analyzer: FrameQualityAnalyzer,
    min_sigma: Option<i64>,
    max_sigma: Option<i64>,
    tasks: &mut TaskStatusContainer,
) -> (r: Result<AnalysisSeries, TaskCompletion>)
    requires
        analyzer.wf(),
    ensures
        (forall|i: int| 0 <= i < analyzer.slots@.len() ==> #[trigger] analyzer.slots@[i] is Some) ==> {
            &&& r matches Ok(series) && series.sigma_list@ == sigmas_within(
                analyzer.slots@.map_values(|s: Option<ScoredFrame>| s->0),
                min_sigma,
                max_sigma,
            )
            &&& final(tasks).status is None
        },
        !(forall|i: int| 0 <= i < analyzer.slots@.len() ==> #[trigger] analyzer.slots@[i] is Some) ==> {
            &&& r matches Err(TaskCompletion::Error(_))
            &&& final(tasks).status is None
        },
{
    let ghost slots = analyzer.slots@;
    match analyzer.finish() {
        Some(frames) => {
            assert(frames@ =~= slots.map_values(|s: Option<ScoredFrame>| s->0));
            let series = AnalysisSeries::from_scored_frames(&frames, min_sigma, max_sigma);
            set_task_completed(tasks);
            Ok(series)
        },
        None => {
            set_task_completed(tasks);
            Err(TaskCompletion::Error("frame quality analysis did not score every frame".to_owned()))
        },
    }
}

} // verus!
