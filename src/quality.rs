use vstd::prelude::*;

use crate::cancel::{check_cancel_status, CancelContainer, CancelStatus, TaskCompletion};
use crate::taskstatus::{StageProgress, TaskStatusContainer};

verus! {

/// The stage label published while frames are scored.
pub const QUALITY_ANALYSIS_LABEL: &'static str = "quality analysis";

/// A center-of-mass displacement from a frame's geometric center, in whole pixels.
#[derive(Debug, Clone, Copy, PartialEq, Eq, Structural)]
pub struct FrameOffset {
    pub h: i64,
    pub v: i64,
}

/// One frame after scoring: its position in the input, its offset, its quality score.
#[derive(Debug, Clone, Copy, PartialEq, Eq, Structural)]
pub struct ScoredFrame {
    pub frame_id: usize,
    pub offset: FrameOffset,
    pub sigma: i64,
}

/// The point at which a frame's quality is estimated: its center moved by its offset,
/// or `None` where that point falls outside the frame.
pub open spec fn sample_point_of(width: int, height: int, offset: FrameOffset) -> Option<(int, int)> {
    let x = width / 2 + offset.h;
    let y = height / 2 + offset.v;
    if 0 <= x < width && 0 <= y < height {
        Some((x, y))
    } else {
        None
    }
}

/// The sample point of a `width` by `height` frame with center-of-mass `offset`.
pub fn sample_point(width: usize, height: usize, offset: FrameOffset) -> (r: Option<(usize, usize)>)
    ensures
        r matches Some(p) ==> sample_point_of(width as int, height as int, offset) == Some(
            (p.0 as int, p.1 as int),
        ),
        r is None ==> sample_point_of(width as int, height as int, offset) is None,
{
    let cx = (width / 2) as i128;
    let cy = (height / 2) as i128;
    let x = cx + offset.h as i128;
    let y = cy + offset.v as i128;
    if 0 <= x && x < width as i128 && 0 <= y && y < height as i128 {
        Some((x as usize, y as usize))
    } else {
        None
    }
}

/// How many slots hold a frame.
pub open spec fn filled_count(slots: Seq<Option<ScoredFrame>>) -> nat
    decreases slots.len(),
{
    if slots.len() == 0 {
        0
    } else {
        filled_count(slots.drop_last()) + if slots.last() is Some {
            1nat
        } else {
            0nat
        }
    }
}

/// The slots after one frame arrives: it fills its own slot, unless its id is out of
/// range or the slot is already filled.
pub open spec fn slots_with(slots: Seq<Option<ScoredFrame>>, f: ScoredFrame) -> Seq<Option<ScoredFrame>> {
    if f.frame_id < slots.len() && slots[f.frame_id as int] is None {
        slots.update(f.frame_id as int, Some(f))
    } else {
        slots
    }
}

/// The slots of an `n`-frame pass after `frames` arrived, in that order.
pub open spec fn slots_after(n: nat, frames: Seq<ScoredFrame>) -> Seq<Option<ScoredFrame>>
    decreases frames.len(),
{
    if frames.len() == 0 {
        Seq::new(n, |i: int| None)
    } else {
        slots_with(slots_after(n, frames.drop_last()), frames.last())
    }
}

/// Each frame names a slot of its own.
pub open spec fn distinct_ids(frames: Seq<ScoredFrame>, n: nat) -> bool {
    &&& forall|k: int| 0 <= k < frames.len() ==> #[trigger] frames[k].frame_id < n
    &&& forall|a: int, b: int|
        0 <= a < b < frames.len() ==> #[trigger] frames[a].frame_id != #[trigger] frames[b].frame_id
}

proof fn lemma_filled_bound(slots: Seq<Option<ScoredFrame>>)
    ensures
        filled_count(slots) <= slots.len(),
        filled_count(slots) == slots.len() ==> forall|i: int| 0 <= i < slots.len() ==> #[trigger] slots[i] is Some,
    decreases slots.len(),
{
    if slots.len() > 0 {
        lemma_filled_bound(slots.drop_last());
        if filled_count(slots) == slots.len() {
            assert forall|i: int| 0 <= i < slots.len() implies #[trigger] slots[i] is Some by {
                if i < slots.len() - 1 {
                    assert(slots.drop_last()[i] == slots[i]);
                }
            }
        }
    }
}

proof fn lemma_filled_update(slots: Seq<Option<ScoredFrame>>, i: int, f: ScoredFrame)
    requires
        0 <= i < slots.len(),
        slots[i] is None,
    ensures
        filled_count(slots.update(i, Some(f))) == filled_count(slots) + 1,
    decreases slots.len(),
{
    let u = slots.update(i, Some(f));
    if i == slots.len() - 1 {
        assert(u.drop_last() =~= slots.drop_last());
    } else {
        lemma_filled_update(slots.drop_last(), i, f);
        assert(u.drop_last() =~= slots.drop_last().update(i, Some(f)));
    }
}

proof fn lemma_slots_after_contents(n: nat, frames: Seq<ScoredFrame>)
    requires
        distinct_ids(frames, n),
    ensures
        slots_after(n, frames).len() == n,
        forall|k: int| 0 <= k < frames.len() ==> slots_after(n, frames)[#[trigger] frames[k].frame_id as int] == Some(frames[k]),
        forall|i: int| 0 <= i < n && (#[trigger] slots_after(n, frames)[i]) is Some ==> {
            &&& frames.contains(slots_after(n, frames)[i]->0)
            &&& slots_after(n, frames)[i]->0.frame_id == i
        },
    decreases frames.len(),
{
    if frames.len() > 0 {
        let rest = frames.drop_last();
        let f = frames.last();
        assert(distinct_ids(rest, n)) by {
            assert forall|a: int, b: int| 0 <= a < b < rest.len() implies #[trigger] rest[a].frame_id
                != #[trigger] rest[b].frame_id by {
                assert(rest[a] == frames[a] && rest[b] == frames[b]);
            }
            assert forall|k: int| 0 <= k < rest.len() implies #[trigger] rest[k].frame_id < n by {
                assert(rest[k] == frames[k]);
            }
        }
        lemma_slots_after_contents(n, rest);
        let s = slots_after(n, rest);
        assert(f == frames[frames.len() - 1]);
        assert(f.frame_id < n);
        if s[f.frame_id as int] is Some {
            let g = s[f.frame_id as int]->0;
            let k = choose|k: int| 0 <= k < rest.len() && rest[k] == g;
            assert(frames[k] == g);
            assert(false);
        }
        assert forall|k: int| 0 <= k < frames.len() implies slots_after(n, frames)[#[trigger] frames[k].frame_id as int] == Some(frames[k]) by {
            if k < frames.len() - 1 {
                assert(rest[k] == frames[k]);
            }
        }
        assert forall|i: int| 0 <= i < n && (#[trigger] slots_after(n, frames)[i]) is Some implies {
            &&& frames.contains(slots_after(n, frames)[i]->0)
            &&& slots_after(n, frames)[i]->0.frame_id == i
        } by {
            if i != f.frame_id {
                let g = s[i]->0;
                let k = choose|k: int| 0 <= k < rest.len() && rest[k] == g;
                assert(frames[k] == g);
            } else {
                assert(frames[frames.len() - 1] == f);
            }
        }
    }
}

/// The outcome of a scoring pass is a function of which frames were scored, not of
/// the order in which workers finished: two completion orders that are permutations
/// of each other leave the same slots. `record` applies `slots_with`, so a pass fed
/// `a` in that order holds `slots_after(n, a)`, and `finish` returns those slots.
/// That each frame's score is itself the same on both runs is the scorer's matter.
pub proof fn lemma_completion_order_irrelevant(n: nat, a: Seq<ScoredFrame>, b: Seq<ScoredFrame>)
    requires
        distinct_ids(a, n),
        a.to_multiset() == b.to_multiset(),
    ensures
        slots_after(n, a) == slots_after(n, b),
{
    broadcast use vstd::seq_lib::group_to_multiset_ensures;

    assert(distinct_ids(b, n)) by {
        assert forall|k: int| 0 <= k < b.len() implies #[trigger] b[k].frame_id < n by {
            assert(b.to_multiset().count(b[k]) > 0);
            assert(a.contains(b[k]));
        }
        assert forall|x: int, y: int| 0 <= x < y < b.len() implies #[trigger] b[x].frame_id
            != #[trigger] b[y].frame_id by {
            if b[x].frame_id == b[y].frame_id {
                assert(b.contains(b[x]));
                assert(b.contains(b[y]));
                assert(b.to_multiset().count(b[x]) > 0);
                assert(b.to_multiset().count(b[y]) > 0);
                assert(a.to_multiset().count(b[x]) > 0);
                assert(a.to_multiset().count(b[y]) > 0);
                assert(a.contains(b[x]) && a.contains(b[y]));
                let ka = choose|k: int| 0 <= k < a.len() && a[k] == b[x];
                let kb = choose|k: int| 0 <= k < a.len() && a[k] == b[y];
                assert(ka == kb);
                assert(b[x] == b[y]);
                // the same frame twice in `b` would occur twice in `a`
                assert(b.to_multiset().count(b[x]) >= 2) by {
                    let bx = b.remove(y);
                    vstd::seq_lib::to_multiset_remove(b, y);
                    assert(bx[x] == b[x]);
                    assert(bx.to_multiset().count(b[x]) > 0);
                }
                assert(a.to_multiset().count(a[ka]) >= 2);
                let ar = a.remove(ka);
                vstd::seq_lib::to_multiset_remove(a, ka);
                assert(ar.to_multiset().count(a[ka]) > 0);
                assert(ar.contains(a[ka]));
                let k2 = choose|k: int| 0 <= k < ar.len() && ar[k] == a[ka];
                if k2 < ka {
                    assert(a[k2] == a[ka]);
                } else {
                    assert(a[k2 + 1] == a[ka]);
                }
            }
        }
    }
    lemma_slots_after_contents(n, a);
    lemma_slots_after_contents(n, b);
    let sa = slots_after(n, a);
    let sb = slots_after(n, b);
    assert forall|i: int| 0 <= i < n implies sa[i] == sb[i] by {
        if sa[i] is Some {
            let g = sa[i]->0;
            assert(a.contains(g));
            assert(a.to_multiset().count(g) > 0);
            assert(b.to_multiset().count(g) > 0);
            assert(b.contains(g));
            let k = choose|k: int| 0 <= k < b.len() && b[k] == g;
            assert(sb[b[k].frame_id as int] == Some(b[k]));
        } else if sb[i] is Some {
            let g = sb[i]->0;
            assert(b.contains(g));
            assert(b.to_multiset().count(g) > 0);
            assert(a.to_multiset().count(g) > 0);
            assert(a.contains(g));
            let k = choose|k: int| 0 <= k < a.len() && a[k] == g;
            assert(sa[a[k].frame_id as int] == Some(a[k]));
        }
    }
    assert(sa =~= sb);
}

/// The frame-scoring pass of one run: one slot per input frame, filled as workers
/// finish in any order, and a progress count published under one stage label.
#[derive(Debug)]
pub struct FrameQualityAnalyzer {
    pub slots: Vec<Option<ScoredFrame>>,
    pub progress: StageProgress,
}

impl FrameQualityAnalyzer {
    pub open spec fn wf(&self) -> bool {
        &&& self.progress.wf()
        &&& self.progress.total == self.slots@.len()
        &&& self.progress.completed == filled_count(self.slots@)
        &&& self.progress.label@ == QUALITY_ANALYSIS_LABEL@
    }

    /// A pass over `frame_count` frames with every slot empty, published at
    /// `(label, n, 0)`. Used inside a run whose sequencer already passed the checkpoint.
    pub fn new(frame_count: usize, tasks: &mut TaskStatusContainer) -> (r: FrameQualityAnalyzer)
        ensures
            r.wf(),
            r.slots@ == Seq::new(frame_count as nat, |i: int| None::<ScoredFrame>),
            final(tasks)@ == Some((QUALITY_ANALYSIS_LABEL@, frame_count as nat, 0nat)),
    {
        let progress = StageProgress::begin(tasks, QUALITY_ANALYSIS_LABEL, frame_count);
        let mut slots: Vec<Option<ScoredFrame>> = Vec::with_capacity(frame_count);
        let mut i: usize = 0;
        while i < frame_count
            invariant
                i <= frame_count,
                slots@ == Seq::new(i as nat, |k: int| None::<ScoredFrame>),
            decreases frame_count - i,
        {
            slots.push(None);
            i = i + 1;
            assert(slots@ =~= Seq::new(i as nat, |k: int| None::<ScoredFrame>));
        }
        proof {
            lemma_none_filled(frame_count as nat);
        }
        FrameQualityAnalyzer { slots, progress }
    }

    /// Begins a pass over `frame_count` frames. A pending cancellation request stops it
    /// before anything is touched; otherwise the stage is published at `(label, n, 0)`.
    pub fn start(
        frame_count: usize,
        cancel: &mut CancelContainer,
        tasks: &mut TaskStatusContainer,
    ) -> (r: Result<FrameQualityAnalyzer, TaskCompletion>)
        ensures
            old(cancel).status == CancelStatus::CancelRequested ==> {
                &&& r == Err::<FrameQualityAnalyzer, TaskCompletion>(TaskCompletion::Cancelled)
                &&& final(cancel).status == CancelStatus::Cancelled
                &&& final(tasks).status is None
            },
            old(cancel).status != CancelStatus::CancelRequested ==> {
                &&& r matches Ok(a) && a.wf() && a.slots@ == Seq::new(
                    frame_count as nat,
                    |i: int| None::<ScoredFrame>,
                )
                &&& *final(cancel) == *old(cancel)
                &&& final(tasks)@ == Some((QUALITY_ANALYSIS_LABEL@, frame_count as nat, 0nat))
            },
    {
        match check_cancel_status(cancel, tasks) {
            Err(e) => Err(e),
            Ok(_) => Ok(FrameQualityAnalyzer::new(frame_count, tasks)),
        }
    }

    /// Takes the result of one frame. It fills the frame's slot and ticks the stage's
    /// count, unless the id is out of range or the frame was already taken; the result
    /// says whether it was taken.
    pub fn record(&mut self, frame: ScoredFrame, tasks: &mut TaskStatusContainer) -> (r: bool)
        requires
            old(self).wf(),
        ensures
            final(self).wf(),
            final(self).slots@ == slots_with(old(self).slots@, frame),
            r == (frame.frame_id < old(self).slots@.len() && old(self).slots@[frame.frame_id as int] is None),
            r ==> final(self).progress.completed == old(self).progress.completed + 1,
            r && old(self).progress.shown_in(old(tasks)) ==> final(tasks)@ == Some(
                (QUALITY_ANALYSIS_LABEL@, old(self).slots@.len(), final(self).progress.completed as nat),
            ),
            !r || !old(self).progress.shown_in(old(tasks)) ==> *final(tasks) == *old(tasks),
    {
        let id = frame.frame_id;
        if id < self.slots.len() && self.slots[id].is_none() {
            proof {
                lemma_filled_update(self.slots@, id as int, frame);
                lemma_filled_bound(self.slots@.update(id as int, Some(frame)));
            }
            self.slots.set(id, Some(frame));
            self.progress.unit_done(tasks);
            true
        } else {
            false
        }
    }

    /// Whether every frame has been taken.
    pub fn is_complete(&self) -> (r: bool)
        requires
            self.wf(),
        ensures
            r == (forall|i: int| 0 <= i < self.slots@.len() ==> #[trigger] self.slots@[i] is Some),
    {
        proof {
            lemma_filled_bound(self.slots@);
        }
        proof {
            if forall|i: int| 0 <= i < self.slots@.len() ==> #[trigger] self.slots@[i] is Some {
                lemma_some_filled(self.slots@);
            }
        }
        self.progress.completed == self.slots.len()
    }

    /// The scored frames in input order, once every frame has been taken: entry `i`
    /// is the frame whose id is `i`, whatever order they arrived in.
    pub fn finish(self) -> (r: Option<Vec<ScoredFrame>>)
        requires
            self.wf(),
        ensures
            r is Some == (forall|i: int| 0 <= i < self.slots@.len() ==> #[trigger] self.slots@[i] is Some),
            r matches Some(v) ==> v@.len() == self.slots@.len() && forall|i: int|
                0 <= i < v@.len() ==> self.slots@[i] == Some(#[trigger] v@[i]),
    {
        if !self.is_complete() {
            return None;
        }
        let mut out: Vec<ScoredFrame> = Vec::with_capacity(self.slots.len());
        let mut i: usize = 0;
        while i < self.slots.len()
            invariant
                i <= self.slots@.len(),
                out@.len() == i,
                forall|k: int| 0 <= k < self.slots@.len() ==> #[trigger] self.slots@[k] is Some,
                forall|k: int| 0 <= k < i ==> self.slots@[k] == Some(#[trigger] out@[k]),
            decreases self.slots@.len() - i,
        {
            match self.slots[i] {
                Some(f) => out.push(f),
                None => {
                    assert(self.slots@[i as int] is Some);
                },
            }
            i = i + 1;
        }
        Some(out)
    }
}

proof fn lemma_none_filled(n: nat)
    ensures
        filled_count(Seq::new(n, |i: int| None::<ScoredFrame>)) == 0,
    decreases n,
{
    if n > 0 {
        lemma_none_filled((n - 1) as nat);
        assert(Seq::new(n, |i: int| None::<ScoredFrame>).drop_last() =~= Seq::new(
            (n - 1) as nat,
            |i: int| None::<ScoredFrame>,
        ));
    }
}

proof fn lemma_some_filled(slots: Seq<Option<ScoredFrame>>)
    requires
        forall|i: int| 0 <= i < slots.len() ==> #[trigger] slots[i] is Some,
    ensures
        filled_count(slots) == slots.len(),
    decreases slots.len(),
{
    if slots.len() > 0 {
        assert forall|i: int| 0 <= i < slots.drop_last().len() implies #[trigger] slots.drop_last()[i] is Some by {
            assert(slots.drop_last()[i] == slots[i]);
        }
        lemma_some_filled(slots.drop_last());
    }
}

} // verus!
