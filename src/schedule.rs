//! Frame sampling: the capture tasks of a session and the ordered stream
//! that their results make.

use vstd::prelude::*;

verus! {

/// Pixels of one capture, four bytes (red, green, blue, alpha) per pixel,
/// row by row.
#[derive(Debug)]
pub struct PixelBuffer {
    pub width: u32,
    pub height: u32,
    pub rgba: Vec<u8>,
}

/// A capture tagged with its place in the animation.
#[derive(Debug)]
pub struct CapturedFrame {
    pub index: u32,
    pub pixels: PixelBuffer,
}

/// One capture to make: frame `index`, `offset_ms` after capture began.
#[derive(Debug, Clone, Copy, PartialEq, Eq, Structural)]
pub struct FrameTask {
    pub index: u32,
    pub offset_ms: u64,
}

/// Why frame sampling produced no stream.
#[derive(Debug, Clone, Copy, PartialEq, Eq, Structural)]
pub enum CaptureError {
    /// The capture of this frame failed.
    FrameCaptureFailed { index: u32 },
    /// The results do not hold each later frame exactly once.
    IncompleteFrames,
}

/// The capture tasks after the first frame: frame `i` for each `i` in
/// `1..frame_count`, each delayed by `i * frame_delay_ms` from the start of
/// capture, so that a late task delays no other.
pub fn plan_frame_captures(frame_count: u32, frame_delay_ms: u64) -> (r: Vec<FrameTask>)
    requires
        frame_count as int * frame_delay_ms as int <= u64::MAX,
    ensures
        frame_count == 0 ==> r@.len() == 0,
        frame_count >= 1 ==> r@.len() == frame_count - 1,
        forall|k: int|
            0 <= k < r@.len() ==> #[trigger] r@[k] == (FrameTask {
                index: (k + 1) as u32,
                offset_ms: ((k + 1) * frame_delay_ms) as u64,
            }),
{
    let mut tasks: Vec<FrameTask> = Vec::new();
    let mut i: u32 = 1;
    while i < frame_count
        invariant
            1 <= i,
            frame_count == 0 ==> i == 1,
            frame_count == 0 || i <= frame_count,
            frame_count as int * frame_delay_ms as int <= u64::MAX,
            tasks@.len() == i - 1,
            forall|k: int|
                0 <= k < tasks@.len() ==> #[trigger] tasks@[k] == (FrameTask {
                    index: (k + 1) as u32,
                    offset_ms: ((k + 1) * frame_delay_ms) as u64,
                }),
        decreases frame_count - i,
    {
        assert(i as int * frame_delay_ms as int <= frame_count as int * frame_delay_ms as int)
            by (nonlinear_arith)
            requires
                i < frame_count,
        ;
        let offset: u64 = i as u64 * frame_delay_ms;
        tasks.push(FrameTask { index: i, offset_ms: offset });
        i = i + 1;
    }
    tasks
}

/// The frame of the first failed result, in the order given.
pub open spec fn first_failure(rs: Seq<(u32, Option<PixelBuffer>)>) -> Option<u32>
    decreases rs.len(),
{
    if rs.len() == 0 {
        None
    } else if rs[0].1 is None {
        Some(rs[0].0)
    } else {
        first_failure(rs.drop_first())
    }
}

/// Whether one of the first `k` results is of frame `x`.
pub open spec fn reported(rs: Seq<(u32, Option<PixelBuffer>)>, x: int, k: int) -> bool {
    exists|j: int| 0 <= j < k && #[trigger] rs[j].0 == x
}

/// Whether results hold each of the frames `1..frame_count` and no other:
/// `frame_count - 1` results, each of a frame in range, every frame present.
pub open spec fn covers_frames(rs: Seq<(u32, Option<PixelBuffer>)>, frame_count: u32) -> bool {
    &&& rs.len() + 1 == frame_count
    &&& forall|j: int| 0 <= j < rs.len() ==> 1 <= #[trigger] rs[j].0 < frame_count
    &&& forall|x: int| 1 <= x < frame_count ==> #[trigger] reported(rs, x, rs.len() as int)
}

/// Whether frames stand in index order, contiguous from zero.
pub open spec fn is_ordered_stream(v: Seq<CapturedFrame>, frame_count: u32) -> bool {
    &&& v.len() == frame_count
    &&& forall|k: int| 0 <= k < v.len() ==> #[trigger] v[k].index == k
}

fn find_failure(rs: &Vec<(u32, Option<PixelBuffer>)>) -> (r: Option<u32>)
    ensures
        r == first_failure(rs@),
{
    let mut i: usize = 0;
    assert(rs@.subrange(0, rs@.len() as int) =~= rs@);
    while i < rs.len()
        invariant
            i <= rs@.len(),
            first_failure(rs@) == first_failure(rs@.subrange(i as int, rs@.len() as int)),
        decreases rs@.len() - i,
    {
        let ghost rest = rs@.subrange(i as int, rs@.len() as int);
        assert(rest[0] == rs@[i as int]);
        if rs[i].1.is_none() {
            return Some(rs[i].0);
        }
        assert(rest.drop_first() =~= rs@.subrange(i + 1, rs@.len() as int));
        i = i + 1;
    }
    None
}

fn check_coverage(rs: &Vec<(u32, Option<PixelBuffer>)>, frame_count: u32) -> (r: bool)
    ensures
        r == covers_frames(rs@, frame_count),
{
    if frame_count == 0 || rs.len() != (frame_count - 1) as usize {
        return false;
    }
    let n = frame_count as usize;
    let mut seen: Vec<bool> = Vec::new();
    while seen.len() < n
        invariant
            seen@.len() <= n,
            forall|x: int| 0 <= x < seen@.len() ==> !seen@[x],
        decreases n - seen@.len(),
    {
        seen.push(false);
    }
    let mut k: usize = 0;
    while k < rs.len()
        invariant
            n == frame_count,
            rs@.len() + 1 == n,
            seen@.len() == n,
            k <= rs@.len(),
            forall|j: int| 0 <= j < k ==> 1 <= #[trigger] rs@[j].0 < frame_count,
            forall|x: int| 0 <= x < n ==> (#[trigger] seen@[x] <==> reported(rs@, x, k as int)),
        decreases rs@.len() - k,
    {
        let idx = rs[k].0;
        if idx == 0 || idx >= frame_count {
            return false;
        }
        seen[idx as usize] = true;
        proof {
            assert forall|x: int| 0 <= x < n implies (#[trigger] seen@[x] <==> reported(
                rs@,
                x,
                k + 1,
            )) by {
                if x == idx {
                    assert(rs@[k as int].0 == x);
                } else if reported(rs@, x, k + 1) {
                    let j = choose|j: int| 0 <= j < k + 1 && #[trigger] rs@[j].0 == x;
                    assert(j < k);
                }
            }
        }
        k = k + 1;
    }
    let mut x: usize = 1;
    while x < n
        invariant
            n == frame_count,
            rs@.len() + 1 == n,
            seen@.len() == n,
            1 <= x <= n || n == 0,
            forall|j: int| 0 <= j < rs@.len() ==> 1 <= #[trigger] rs@[j].0 < frame_count,
            forall|y: int|
                0 <= y < n ==> (#[trigger] seen@[y] <==> reported(rs@, y, rs@.len() as int)),
            forall|y: int| 1 <= y < x ==> #[trigger] seen@[y],
        decreases n - x,
    {
        if !seen[x] {
            return false;
        }
        x = x + 1;
    }
    assert forall|y: int| 1 <= y < frame_count implies #[trigger] reported(
        rs@,
        y,
        rs@.len() as int,
    ) by {
        assert(seen@[y]);
    }
    true
}


/// Whether frame `f` is what some result reported for its index.
pub open spec fn frame_from(rs: Seq<(u32, Option<PixelBuffer>)>, f: CapturedFrame) -> bool {
    exists|j: int| 0 <= j < rs.len() && #[trigger] rs[j] == (f.index, Some(f.pixels))
}

/// Whether one of the results from position `lo` on is of frame `x`.
pub open spec fn reported_from(rs: Seq<(u32, Option<PixelBuffer>)>, x: int, lo: int) -> bool {
    exists|j: int| lo <= j < rs.len() && #[trigger] rs[j].0 == x
}

/// Whether `v` is the ordered stream of the first frame and the results.
pub open spec fn is_collected(
    v: Seq<CapturedFrame>,
    rs: Seq<(u32, Option<PixelBuffer>)>,
    frame_count: u32,
    first: PixelBuffer,
) -> bool {
    &&& is_ordered_stream(v, frame_count)
    &&& v[0].pixels == first
    &&& forall|k: int| 1 <= k < v.len() ==> #[trigger] frame_from(rs, v[k])
}

proof fn lemma_no_failure(rs: Seq<(u32, Option<PixelBuffer>)>)
    requires
        first_failure(rs) is None,
    ensures
        forall|j: int| 0 <= j < rs.len() ==> (#[trigger] rs[j]).1 is Some,
    decreases rs.len(),
{
    if rs.len() > 0 {
        lemma_no_failure(rs.drop_first());
        assert forall|j: int| 0 <= j < rs.len() implies (#[trigger] rs[j]).1 is Some by {
            if j > 0 {
                assert(rs.drop_first()[j - 1] == rs[j]);
            }
        }
    }
}

/// Gathers the first frame and the results of the later capture tasks, in
/// whatever order they came, into the frames in index order. Any failed
/// capture fails the whole stream with the first failure in the order given;
/// else the results must hold each frame `1..frame_count` exactly once.
pub fn collect_frames(frame_count: u32, first: PixelBuffer, results: Vec<(u32, Option<PixelBuffer>)>) -> (r: Result<
    Vec<CapturedFrame>,
    CaptureError,
>)
    ensures
        first_failure(results@) matches Some(i) ==> r == Err::<Vec<CapturedFrame>, CaptureError>(
            CaptureError::FrameCaptureFailed { index: i },
        ),
        first_failure(results@) is None && !covers_frames(results@, frame_count) ==> r == Err::<
            Vec<CapturedFrame>,
            CaptureError,
        >(CaptureError::IncompleteFrames),
        first_failure(results@) is None && covers_frames(results@, frame_count) ==> (r matches Ok(v)
            && is_collected(v@, results@, frame_count, first)),
{
    if let Some(i) = find_failure(&results) {
        return Err(CaptureError::FrameCaptureFailed { index: i });
    }
    if !check_coverage(&results, frame_count) {
        return Err(CaptureError::IncompleteFrames);
    }
    let ghost rs = results@;
    proof {
        lemma_no_failure(rs);
    }
    let m = (frame_count - 1) as usize;
    let mut slots: Vec<Option<PixelBuffer>> = Vec::new();
    while slots.len() < m
        invariant
            slots@.len() <= m,
            forall|x: int| 0 <= x < slots@.len() ==> slots@[x] is None,
        decreases m - slots@.len(),
    {
        slots.push(None);
    }
    let mut results = results;
    while results.len() > 0
        invariant
            m + 1 == frame_count,
            covers_frames(rs, frame_count),
            forall|j: int| 0 <= j < rs.len() ==> (#[trigger] rs[j]).1 is Some,
            results@.len() <= rs.len(),
            results@ == rs.subrange(0, results@.len() as int),
            slots@.len() == m,
            forall|x: int|
                0 <= x < m ==> ((#[trigger] slots@[x]) is Some <==> reported_from(
                    rs,
                    x + 1,
                    results@.len() as int,
                )),
            forall|x: int|
                0 <= x < m ==> ((#[trigger] slots@[x]) matches Some(p) ==> exists|j: int|
                    0 <= j < rs.len() && #[trigger] rs[j] == ((x + 1) as u32, Some(p))),
        decreases results@.len(),
    {
        let ghost lo = results@.len() - 1;
        assert(results@[lo] == rs[lo]);
        let item = results.pop();
        if let Some((idx, px)) = item {
            assert(rs[lo] == (idx, px));
            assert(1 <= rs[lo].0 < frame_count);
            let ghost old_slots = slots@;
            slots[(idx - 1) as usize] = px;
            proof {
                assert forall|x: int|
                    0 <= x < m implies ((#[trigger] slots@[x]) is Some <==> reported_from(
                    rs,
                    x + 1,
                    lo,
                )) by {
                    if x + 1 == idx {
                        assert(rs[lo].0 == x + 1);
                    } else {
                        assert(slots@[x] == old_slots[x]);
                        if reported_from(rs, x + 1, lo) {
                            let j = choose|j: int| lo <= j < rs.len() && #[trigger] rs[j].0 == x + 1;
                            assert(j != lo);
                        }
                    }
                }
                assert forall|x: int|
                    0 <= x < m implies ((#[trigger] slots@[x]) matches Some(p) ==> exists|j: int|
                    0 <= j < rs.len() && #[trigger] rs[j] == ((x + 1) as u32, Some(p))) by {
                    if x + 1 == idx {
                        assert(rs[lo] == ((x + 1) as u32, slots@[x]));
                    } else {
                        assert(slots@[x] == old_slots[x]);
                    }
                }
            }
        }
    }
    proof {
        assert forall|x: int| 0 <= x < m implies (#[trigger] slots@[x]) is Some by {
            assert(reported(rs, x + 1, rs.len() as int));
            let j = choose|j: int| 0 <= j < rs.len() && #[trigger] rs[j].0 == x + 1;
            assert(reported_from(rs, x + 1, 0));
        }
    }
    let mut rev: Vec<CapturedFrame> = Vec::new();
    while slots.len() > 0
        invariant
            m + 1 == frame_count,
            rev@.len() + slots@.len() == m,
            forall|x: int| 0 <= x < slots@.len() ==> (#[trigger] slots@[x]) is Some,
            forall|x: int|
                0 <= x < slots@.len() ==> ((#[trigger] slots@[x]) matches Some(p) ==> exists|j: int|
                    0 <= j < rs.len() && #[trigger] rs[j] == ((x + 1) as u32, Some(p))),
            forall|t: int|
                0 <= t < rev@.len() ==> (#[trigger] rev@[t]).index == m - t && frame_from(
                    rs,
                    rev@[t],
                ),
        decreases slots@.len(),
    {
        let ghost p = slots@.len() - 1;
        let pos = slots.len();
        let slot = slots.pop();
        if let Some(Some(px)) = slot {
            let f = CapturedFrame { index: pos as u32, pixels: px };
            proof {
                let j = choose|j: int| 0 <= j < rs.len() && #[trigger] rs[j] == ((p + 1) as u32, Some(px));
                assert(rs[j] == (f.index, Some(f.pixels)));
            }
            rev.push(f);
        }
    }
    let mut out: Vec<CapturedFrame> = Vec::new();
    out.push(CapturedFrame { index: 0, pixels: first });
    while rev.len() > 0
        invariant
            m + 1 == frame_count,
            out@.len() + rev@.len() == m + 1,
            out@[0].pixels == first,
            out@.len() >= 1,
            forall|k: int| 0 <= k < out@.len() ==> (#[trigger] out@[k]).index == k,
            forall|k: int| 1 <= k < out@.len() ==> #[trigger] frame_from(rs, out@[k]),
            forall|t: int|
                0 <= t < rev@.len() ==> (#[trigger] rev@[t]).index == m - t && frame_from(
                    rs,
                    rev@[t],
                ),
        decreases rev@.len(),
    {
        let ghost t = rev@.len() - 1;
        if let Some(f) = rev.pop() {
            assert(f.index == m - t);
            out.push(f);
        }
    }
    Ok(out)
}

/// When each planned capture task yields its frame and the results are
/// gathered in the order the tasks were planned, no capture failed and the
/// results hold every later frame exactly once.
pub proof fn lemma_complete_run(tasks: Seq<FrameTask>, rs: Seq<(u32, Option<PixelBuffer>)>, frame_count: u32)
    requires
        frame_count >= 1,
        tasks.len() == frame_count - 1,
        forall|k: int| 0 <= k < tasks.len() ==> (#[trigger] tasks[k]).index == k + 1,
        rs.len() == tasks.len(),
        forall|k: int| 0 <= k < rs.len() ==> (#[trigger] rs[k]).0 == tasks[k].index && rs[k].1 is Some,
    ensures
        first_failure(rs) is None,
        covers_frames(rs, frame_count),
{
    lemma_all_succeeded(rs);
    assert forall|x: int| 1 <= x < frame_count implies #[trigger] reported(rs, x, rs.len() as int) by {
        assert(rs[x - 1].0 == tasks[x - 1].index);
    }
}

proof fn lemma_all_succeeded(rs: Seq<(u32, Option<PixelBuffer>)>)
    requires
        forall|k: int| 0 <= k < rs.len() ==> (#[trigger] rs[k]).1 is Some,
    ensures
        first_failure(rs) is None,
    decreases rs.len(),
{
    if rs.len() > 0 {
        assert(rs[0].1 is Some);
        assert forall|k: int| 0 <= k < rs.len() - 1 implies (#[trigger] rs.drop_first()[k]).1 is Some by {
            assert(rs.drop_first()[k] == rs[k + 1]);
        }
        lemma_all_succeeded(rs.drop_first());
    }
}

/// If any capture task failed, frame sampling reports a failed capture.
pub proof fn lemma_any_failure_fails(rs: Seq<(u32, Option<PixelBuffer>)>, j: int)
    requires
        0 <= j < rs.len(),
        rs[j].1 is None,
    ensures
        first_failure(rs) is Some,
    decreases j,
{
    if rs[0].1 is Some {
        assert(rs.drop_first()[j - 1] == rs[j]);
        lemma_any_failure_fails(rs.drop_first(), j - 1);
    }
}

/// An ordered stream holds the indices `0..frame_count` once each, ascending.
pub proof fn lemma_ordered_stream_indices(v: Seq<CapturedFrame>, frame_count: u32)
    requires
        is_ordered_stream(v, frame_count),
    ensures
        v.map_values(|f: CapturedFrame| f.index as int).to_set() == Set::new(|x: int| 0 <= x < frame_count),
        forall|i: int, j: int| 0 <= i < j < v.len() ==> v[i].index < v[j].index,
{
    let s = v.map_values(|f: CapturedFrame| f.index as int);
    assert forall|x: int| s.to_set().contains(x) <==> Set::new(|x: int| 0 <= x < frame_count).contains(x) by {
        if 0 <= x < frame_count {
            assert(s[x] == x);
        }
        if s.to_set().contains(x) {
            let i = choose|i: int| 0 <= i < s.len() && s[i] == x;
            assert(v[i].index == i);
        }
    }
    assert(s.to_set() =~= Set::new(|x: int| 0 <= x < frame_count));
}

} // verus!
