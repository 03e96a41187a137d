//! Native frame sampling: which frame indices are read from a source video,
//! and what is done with each read outcome.
//!
//! A source with `N` frames sampled at interval `k` is read at indices
//! `0, k, 2k, …`, giving exactly `ceil(N / k)` sampling positions.  A failed
//! seek or an empty frame skips that position; a clean end of stream stops
//! sampling for the video; a decoder error fails the directory job.

use vstd::prelude::*;
use vstd::seq_lib::*;
use vstd::set_lib::*;

verus! {

/// `n / k` rounded up.
pub open spec fn ceil_div(n: nat, k: nat) -> nat
    recommends
        k >= 1,
{
    ((n + k - 1) / (k as int)) as nat
}

/// The frame indices NativeSample reads from a video of `total_frames`
/// frames: `0, interval, 2 * interval, …`, all below `total_frames`.  Their
/// number is exactly `ceil(total_frames / interval)`, so the frames sampled
/// from the video — a subset of these positions — never exceed that bound,
/// and reach it when no position is skipped.
pub fn sample_indices(total_frames: usize, interval: usize) -> (r: Vec<usize>)
    requires
        interval >= 1,
    ensures
        r@.len() == ceil_div(total_frames as nat, interval as nat),
        forall|t: int| 0 <= t < r@.len() ==> r@[t] == t * interval,
        forall|t: int| 0 <= t < r@.len() ==> r@[t] < total_frames,
{
    let mut r: Vec<usize> = Vec::new();
    if total_frames == 0 {
        proof {
            assert(ceil_div(0, interval as nat) == 0) by (nonlinear_arith)
                requires interval >= 1;
        }
        return r;
    }
    let count: usize = (total_frames - 1) / interval + 1;
    proof {
        assert(count == ceil_div(total_frames as nat, interval as nat)) by (nonlinear_arith)
            requires
                interval >= 1,
                total_frames >= 1,
                count == (total_frames - 1) / (interval as int) + 1,
        ;
        assert((count - 1) * interval <= total_frames - 1) by (nonlinear_arith)
            requires
                interval >= 1,
                total_frames >= 1,
                count - 1 == (total_frames - 1) / (interval as int),
        ;
    }
    let mut t: usize = 0;
    let mut idx: usize = 0;
    while t < count
        invariant
            interval >= 1,
            total_frames >= 1,
            0 <= t <= count,
            r@.len() == t,
            (count - 1) * interval <= total_frames - 1,
            t < count ==> idx == t * interval,
            forall|s: int| 0 <= s < t ==> r@[s] == s * interval,
        decreases count - t,
    {
        proof {
            assert(t * interval <= (count - 1) * interval) by (nonlinear_arith)
                requires 0 <= t <= count - 1, interval >= 1;
        }
        r.push(idx);
        if t + 1 < count {
            proof {
                assert((t + 1) * interval <= (count - 1) * interval) by (nonlinear_arith)
                    requires 0 <= t + 1 <= count - 1, interval >= 1;
                assert((t + 1) * interval == t * interval + interval) by (nonlinear_arith);
            }
            idx = idx + interval;
        }
        t = t + 1;
    }
    proof {
        assert forall|s: int| 0 <= s < r@.len() implies r@[s] < total_frames by {
            assert(s * interval <= (count - 1) * interval) by (nonlinear_arith)
                requires 0 <= s <= count - 1, interval >= 1;
        }
    }
    r
}

/// However many positions are skipped or stopped at, the frames sampled
/// from one video never exceed `ceil(total / k)`: the indices of the kept
/// frames are distinct multiples of the interval below the total, and
/// there are only that many such positions.
pub proof fn lemma_sampled_frames_bound(total: nat, k: nat, kept: Seq<int>)
    requires
        k >= 1,
        kept.no_duplicates(),
        forall|i: int| 0 <= i < kept.len() ==> 0 <= #[trigger] kept[i] < total,
        forall|i: int| 0 <= i < kept.len() ==> #[trigger] kept[i] % (k as int) == 0,
    ensures
        kept.len() <= ceil_div(total, k),
{
    let ceil = ceil_div(total, k) as int;
    let q = kept.map_values(|x: int| x / (k as int));
    assert(q.no_duplicates()) by {
        assert forall|i: int, j: int| 0 <= i < j < q.len() implies q[i] != q[j] by {
            assert(kept[i] == (kept[i] / (k as int)) * (k as int)) by (nonlinear_arith)
                requires k >= 1, kept[i] % (k as int) == 0;
            assert(kept[j] == (kept[j] / (k as int)) * (k as int)) by (nonlinear_arith)
                requires k >= 1, kept[j] % (k as int) == 0;
        }
    }
    q.unique_seq_to_set();
    assert(q.to_set().subset_of(set_int_range(0, ceil))) by {
        assert forall|y: int| q.to_set().contains(y) implies set_int_range(0, ceil).contains(
            y,
        ) by {
            let i = choose|i: int| 0 <= i < q.len() && q[i] == y;
            assert(y == kept[i] / (k as int));
            assert(0 <= y < ceil) by (nonlinear_arith)
                requires
                    k >= 1,
                    0 <= kept[i] < total,
                    y == kept[i] / (k as int),
                    ceil == ((total + k - 1) / (k as int)) as nat,
            ;
        }
    }
    lemma_int_range(0, ceil);
    lemma_len_subset(q.to_set(), set_int_range(0, ceil));
}

/// What the decoder reported for one sampling position.
pub enum FrameReadEvent {
    /// Seeking to the position failed.
    SeekFailed,
    /// A frame was read but it was empty.
    ReadEmpty,
    /// A frame was read; its width and height are carried along.
    ReadOk(i32, i32),
    /// The stream ended cleanly before this position.
    ReadEnd,
    /// The decoder reported an error.
    ReadError,
}

/// What the sampler does at one position.
#[derive(Debug, PartialEq, Eq, Structural)]
pub enum FrameStep {
    /// Skip this position and go on with the next.
    Skip,
    /// Keep the frame.
    Use,
    /// Stop sampling this video; not an error.
    Stop,
    /// Fail the directory job.
    Fail,
}

/// The per-position sampling policy: a failed seek or an empty frame is
/// skipped, a clean end of stream stops the video, a decoder error fails
/// the job, and anything read cleanly is kept.
pub open spec fn spec_native_frame_step(e: FrameReadEvent) -> FrameStep {
    match e {
        FrameReadEvent::SeekFailed => FrameStep::Skip,
        FrameReadEvent::ReadEmpty => FrameStep::Skip,
        FrameReadEvent::ReadOk(_, _) => FrameStep::Use,
        FrameReadEvent::ReadEnd => FrameStep::Stop,
        FrameReadEvent::ReadError => FrameStep::Fail,
    }
}

/// Decide what to do with one read outcome.
pub fn native_frame_step(e: &FrameReadEvent) -> (r: FrameStep)
    ensures
        r == spec_native_frame_step(*e),
{
    match e {
        FrameReadEvent::SeekFailed => FrameStep::Skip,
        FrameReadEvent::ReadEmpty => FrameStep::Skip,
        FrameReadEvent::ReadOk(_, _) => FrameStep::Use,
        FrameReadEvent::ReadEnd => FrameStep::Stop,
        FrameReadEvent::ReadError => FrameStep::Fail,
    }
}

} // verus!
