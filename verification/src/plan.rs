//! Job planning: resolving the configured mode strings into strategy
//! variants once, at job construction time, sizing the worker pool, and
//! the per-directory unit of work.

use vstd::prelude::*;
use vstd::string::*;
use crate::config::VideoExtractionConfig;
use crate::text::str_equal;
use crate::types::ProcessError;

verus! {

/// How sampled frames are obtained from one source video.
#[derive(Debug, Clone, Copy, PartialEq, Eq, Structural)]
pub enum ExtractionKind {
    /// Decode natively and sample frames in process.
    NativeSample,
    /// Invoke the external transcoder once per source video.
    ExternalSample,
}

/// Whether the summary video is written directly or assembled from a
/// staging directory.
#[derive(Debug, Clone, Copy, PartialEq, Eq, Structural)]
pub enum CreationKind {
    Direct,
    Staged,
}

/// The assembly strategy a directory job runs.
#[derive(Debug, Clone, Copy, PartialEq, Eq, Structural)]
pub enum AssemblyKind {
    /// Native extraction streamed straight into one output writer.
    DirectNative,
    /// External extraction into a transient staging directory, read back
    /// and written directly.
    DirectExternal,
    /// Extraction into a persistent staging directory, then one external
    /// concatenation.
    StagedConcat,
}

/// How directory jobs are fanned out.
#[derive(Debug, Clone, Copy, PartialEq, Eq, Structural)]
pub enum ScheduleMode {
    Sequential,
    Parallel,
}

/// The extraction kind a mode string selects, if any.
pub open spec fn spec_extraction_of(s: Seq<char>) -> Option<ExtractionKind> {
    if s == "opencv"@ {
        Some(ExtractionKind::NativeSample)
    } else if s == "ffmpeg"@ {
        Some(ExtractionKind::ExternalSample)
    } else {
        None
    }
}

/// The creation kind a mode string selects, if any; an absent string means
/// staged creation.
pub open spec fn spec_creation_of(s: Option<Seq<char>>) -> Option<CreationKind> {
    match s {
        None => Some(CreationKind::Staged),
        Some(m) => if m == "direct"@ {
            Some(CreationKind::Direct)
        } else if m == "temp_frames"@ {
            Some(CreationKind::Staged)
        } else {
            None
        },
    }
}

/// The schedule a mode string selects, if any; an absent string means
/// parallel.
pub open spec fn spec_schedule_of(s: Option<Seq<char>>) -> Option<ScheduleMode> {
    match s {
        None => Some(ScheduleMode::Parallel),
        Some(m) => if m == "sequential"@ {
            Some(ScheduleMode::Sequential)
        } else if m == "parallel"@ {
            Some(ScheduleMode::Parallel)
        } else {
            None
        },
    }
}

/// The assembly strategy selected by the two configuration axes: native
/// extraction with direct creation streams directly, external extraction
/// with direct creation stages transiently, and every other combination
/// uses the persistent staging directory with one final concatenation.
pub open spec fn spec_assembly_of(e: ExtractionKind, c: CreationKind) -> AssemblyKind {
    match (e, c) {
        (ExtractionKind::NativeSample, CreationKind::Direct) => AssemblyKind::DirectNative,
        (ExtractionKind::ExternalSample, CreationKind::Direct) => AssemblyKind::DirectExternal,
        _ => AssemblyKind::StagedConcat,
    }
}

/// Select the assembly strategy for a resolved strategy pair.
pub fn select_assembly(e: ExtractionKind, c: CreationKind) -> (r: AssemblyKind)
    ensures
        r == spec_assembly_of(e, c),
{
    match (e, c) {
        (ExtractionKind::NativeSample, CreationKind::Direct) => AssemblyKind::DirectNative,
        (ExtractionKind::ExternalSample, CreationKind::Direct) => AssemblyKind::DirectExternal,
        _ => AssemblyKind::StagedConcat,
    }
}

/// Relies on `num_cpus::get`: the number of logical cores available to
/// this process; its documentation promises at least 1.
#[verifier::external_body]
fn logical_core_count() -> (n: usize)
    ensures
        n >= 1,
{
    num_cpus::get()
}

/// The worker-pool size: the configured thread count when one is given,
/// the logical core count (at least 1) otherwise.
pub fn worker_count(configured: &Option<usize>) -> (n: usize)
    ensures
        match configured {
            Some(k) => n == k,
            None => n >= 1,
        },
{
    match configured {
        Some(k) => *k,
        None => logical_core_count(),
    }
}

/// The strategy pair and fan-out resolved from one extraction
/// configuration.
#[derive(Debug, Clone, Copy, PartialEq, Eq, Structural)]
pub struct JobSettings {
    pub extraction: ExtractionKind,
    pub creation: CreationKind,
    pub assembly: AssemblyKind,
    pub schedule: ScheduleMode,
}

/// Resolve the configured mode strings into strategy variants, once.  An
/// unknown extraction, creation or schedule string is a configuration
/// error; nothing else is rejected here.
pub fn resolve_settings(cfg: &VideoExtractionConfig) -> (r: Result<JobSettings, ProcessError>)
    ensures
        r is Ok <==> (spec_extraction_of(cfg.extraction_mode@) is Some
            && spec_creation_of(view_of_opt(&cfg.video_creation_mode)) is Some
            && spec_schedule_of(view_of_opt(&cfg.processing_mode)) is Some),
        r matches Ok(s) ==> {
            &&& Some(s.extraction) == spec_extraction_of(cfg.extraction_mode@)
            &&& Some(s.creation) == spec_creation_of(view_of_opt(&cfg.video_creation_mode))
            &&& Some(s.schedule) == spec_schedule_of(view_of_opt(&cfg.processing_mode))
            &&& s.assembly == spec_assembly_of(s.extraction, s.creation)
        },
        r matches Err(e) ==> e is ConfigurationError,
{
    let extraction = if str_equal(cfg.extraction_mode.as_str(), "opencv") {
        ExtractionKind::NativeSample
    } else if str_equal(cfg.extraction_mode.as_str(), "ffmpeg") {
        ExtractionKind::ExternalSample
    } else {
        return Err(ProcessError::ConfigurationError(
            String::from_str("unknown extraction mode"),
        ));
    };
    let creation = match &cfg.video_creation_mode {
        None => CreationKind::Staged,
        Some(m) => {
            if str_equal(m, &String::from_str("direct")) {
                CreationKind::Direct
            } else if str_equal(m, &String::from_str("temp_frames")) {
                CreationKind::Staged
            } else {
                return Err(ProcessError::ConfigurationError(
                    String::from_str("unknown video creation mode"),
                ));
            }
        },
    };
    let schedule = match &cfg.processing_mode {
        None => ScheduleMode::Parallel,
        Some(m) => {
            if str_equal(m, &String::from_str("sequential")) {
                ScheduleMode::Sequential
            } else if str_equal(m, &String::from_str("parallel")) {
                ScheduleMode::Parallel
            } else {
                return Err(ProcessError::ConfigurationError(
                    String::from_str("unknown processing mode"),
                ));
            }
        },
    };
    let assembly = select_assembly(extraction, creation);
    Ok(JobSettings { extraction, creation, assembly, schedule })
}

/// The characters of an optional mode string.
pub open spec fn view_of_opt(s: &Option<String>) -> Option<Seq<char>> {
    match s {
        Some(m) => Some(m@),
        None => None,
    }
}

/// One directory's unit of work: its path, its tag, and its video list in
/// deterministic order.  Built by the driver from `directory_tag`,
/// `build_video_list` and `sort_video_list`; consumed by exactly one
/// worker.
#[derive(Debug, Clone)]
pub struct DirectoryJob {
    pub directory_path: String,
    pub directory_tag: String,
    pub video_list: Vec<String>,
}

} // verus!
