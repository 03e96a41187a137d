//! The direct output writer's resolution policy.
//!
//! A direct assembly opens one output writer per directory job, lazily, at
//! the first usable frame size a source yields.  From then on the
//! resolution is locked in for the rest of the job: a frame of any other
//! size is dropped, a frame of exactly that size is accepted, and only
//! accepted frames are ever counted as written.

use vstd::prelude::*;

verus! {

/// Model of a directory job's lazily opened output writer.
pub struct DirectWriter {
    /// Locked-in frame size, once a source yielded a usable one.
    pub resolution: Option<(i32, i32)>,
    /// Frames actually written, all of them at the locked-in size.
    pub frames_written: u64,
    /// Source videos fully processed while the writer was open.
    pub videos_completed: u64,
}

impl DirectWriter {
    /// A writer that has not been opened yet.
    pub fn new() -> (r: DirectWriter)
        ensures
            r.resolution is None,
            r.frames_written == 0,
            r.videos_completed == 0,
    {
        DirectWriter { resolution: None, frames_written: 0, videos_completed: 0 }
    }

    /// The writer accepts exactly the frames of its locked-in size.
    pub open spec fn spec_accepts(self, w: i32, h: i32) -> bool {
        self.resolution == Some((w, h))
    }

    /// Whether the writer still waits for a usable frame size.
    pub fn needs_resolution(&self) -> (r: bool)
        ensures
            r == (self.resolution is None),
    {
        self.resolution.is_none()
    }

    /// Offer a source's probed frame size.  The writer opens at the first
    /// positive size offered while unopened; any later offer leaves the
    /// locked-in resolution untouched.
    pub fn try_open(&mut self, w: i32, h: i32) -> (opened: bool)
        ensures
            opened == (old(self).resolution is None && w > 0 && h > 0),
            opened ==> final(self).resolution == Some((w, h)),
            !opened ==> final(self).resolution == old(self).resolution,
            final(self).frames_written == old(self).frames_written,
            final(self).videos_completed == old(self).videos_completed,
    {
        if self.resolution.is_none() && w > 0 && h > 0 {
            self.resolution = Some((w, h));
            true
        } else {
            false
        }
    }

    /// Decide whether a frame of size `(w, h)` is written or dropped.
    pub fn accepts(&self, w: i32, h: i32) -> (r: bool)
        ensures
            r == self.spec_accepts(w, h),
    {
        match self.resolution {
            Some((w0, h0)) => w0 == w && h0 == h,
            None => false,
        }
    }

    /// Count one accepted frame as written.
    pub fn record_written(&mut self, w: i32, h: i32)
        requires
            old(self).spec_accepts(w, h),
            old(self).frames_written < u64::MAX,
        ensures
            final(self).frames_written == old(self).frames_written + 1,
            final(self).resolution == old(self).resolution,
            final(self).videos_completed == old(self).videos_completed,
    {
        self.frames_written = self.frames_written + 1;
    }

    /// Count one source video as fully processed.
    pub fn record_video_done(&mut self)
        requires
            old(self).videos_completed < u64::MAX,
        ensures
            final(self).videos_completed == old(self).videos_completed + 1,
            final(self).resolution == old(self).resolution,
            final(self).frames_written == old(self).frames_written,
    {
        self.videos_completed = self.videos_completed + 1;
    }

    /// Whether a partial output file must be removed at the end of the job:
    /// the writer was opened but no source was ever fully processed.
    pub fn should_discard_output(&self) -> (r: bool)
        ensures
            r == (self.resolution is Some && self.videos_completed == 0),
    {
        self.resolution.is_some() && self.videos_completed == 0
    }
}

/// Resolution lock-in: a writer opened at `(w0, h0)` accepts a frame size
/// exactly when it is `(w0, h0)` — every matching frame is written, every
/// mismatched frame is dropped and never counted.
pub proof fn lemma_resolution_lock_in(wr: DirectWriter, w: i32, h: i32, w0: i32, h0: i32)
    requires
        wr.resolution == Some((w0, h0)),
    ensures
        wr.spec_accepts(w, h) <==> (w == w0 && h == h0),
{
}

} // verus!
