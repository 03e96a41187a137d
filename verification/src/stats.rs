//! Processing statistics, aggregated over a run and finalized once the
//! scheduler has drained.

use vstd::prelude::*;

verus! {

/// `std::time::Instant`, declared so a clock reading can sit in a field;
/// the value itself stays opaque.
#[verifier::external_type_specification]
#[verifier::external_body]
pub struct ExInstant(std::time::Instant);

/// Relies on `std::time::Instant` being `Copy`: cloning yields the very
/// same reading.
pub assume_specification[ <std::time::Instant as Clone>::clone ](
    i: &std::time::Instant,
) -> (r: std::time::Instant)
    ensures
        r == *i,
;

/// Relies on `std::time::Instant::now`: an opaque reading of the monotonic
/// clock.  Nothing is promised of the value.
#[verifier::external_body]
fn instant_now() -> std::time::Instant {
    std::time::Instant::now()
}

/// Relies on `std::time::Instant::elapsed`, converted to whole
/// milliseconds.  The result depends on the clock, so nothing is promised
/// of the value.
#[verifier::external_body]
fn elapsed_millis(start: &std::time::Instant) -> u64 {
    start.elapsed().as_millis() as u64
}

/// Counters mutated by workers as files succeed or fail, finalized once at
/// the end of the run.
#[derive(Debug, Clone)]
pub struct ProcessingStats {
    pub files_processed: u64,
    pub files_failed: u64,
    pub total_size_processed: u64,
    pub processing_time_ms: u64,
    pub start_time: std::time::Instant,
    pub errors: Vec<String>,
}

impl ProcessingStats {
    /// Fresh counters, started now.
    pub fn new() -> (r: ProcessingStats)
        ensures
            r.files_processed == 0,
            r.files_failed == 0,
            r.total_size_processed == 0,
            r.processing_time_ms == 0,
            r.errors@.len() == 0,
    {
        ProcessingStats {
            files_processed: 0,
            files_failed: 0,
            total_size_processed: 0,
            processing_time_ms: 0,
            start_time: instant_now(),
            errors: Vec::new(),
        }
    }

    /// Count one successfully processed file of the given size.
    pub fn add_processed_file(&mut self, file_size: u64)
        requires
            old(self).files_processed < u64::MAX,
            old(self).total_size_processed + file_size <= u64::MAX,
        ensures
            final(self).files_processed == old(self).files_processed + 1,
            final(self).total_size_processed == old(self).total_size_processed + file_size,
            final(self).files_failed == old(self).files_failed,
            final(self).errors == old(self).errors,
            final(self).processing_time_ms == old(self).processing_time_ms,
    {
        self.files_processed = self.files_processed + 1;
        self.total_size_processed = self.total_size_processed + file_size;
    }

    /// Count one failed file and keep its error message.
    pub fn add_failed_file(&mut self, error: String)
        requires
            old(self).files_failed < u64::MAX,
        ensures
            final(self).files_failed == old(self).files_failed + 1,
            final(self).errors@ == old(self).errors@.push(error),
            final(self).files_processed == old(self).files_processed,
            final(self).total_size_processed == old(self).total_size_processed,
            final(self).processing_time_ms == old(self).processing_time_ms,
    {
        self.files_failed = self.files_failed + 1;
        self.errors.push(error);
    }

    /// Record the elapsed time of the run; the counters are untouched.
    pub fn finalize(&mut self)
        ensures
            final(self).files_processed == old(self).files_processed,
            final(self).files_failed == old(self).files_failed,
            final(self).total_size_processed == old(self).total_size_processed,
            final(self).errors == old(self).errors,
    {
        self.processing_time_ms = elapsed_millis(&self.start_time);
    }
}

} // verus!
