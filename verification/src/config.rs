//! Configuration passed into the pipeline.
//!
//! Configuration files are read and parsed by the surrounding driver; the
//! pipeline receives plain structs.

use vstd::prelude::*;
use crate::types::{FileFormat, ProcessingMode};

verus! {

/// Configuration of one batch video extraction run.
#[derive(Debug, Clone)]
pub struct VideoExtractionConfig {
    pub input_directories: Vec<String>,
    pub output_directory: String,
    pub output_prefix: String,
    pub num_threads: Option<usize>,
    pub output_fps: i32,
    pub frame_interval: usize,
    pub extraction_mode: String,
    pub create_summary_per_thread: Option<bool>,
    pub video_creation_mode: Option<String>,
    pub processing_mode: Option<String>,
}

/// The batch extraction configuration as the standalone extraction tool
/// reads it; the same shape as `VideoExtractionConfig`.
#[derive(Debug)]
pub struct Config {
    pub input_directories: Vec<String>,
    pub output_directory: String,
    pub output_prefix: String,
    pub num_threads: Option<usize>,
    pub output_fps: i32,
    pub frame_interval: usize,
    pub extraction_mode: String,
    pub create_summary_per_thread: Option<bool>,
    pub video_creation_mode: Option<String>,
    pub processing_mode: Option<String>,
}

/// Configuration of the general file processor.
#[derive(Debug, Clone)]
pub struct ProcessConfig {
    pub input_path: String,
    pub output_path: String,
    pub processing_options: ProcessingOptions,
    pub processing_mode: ProcessingMode,
    pub supported_formats: Vec<FileFormat>,
    pub video_config: Option<VideoExtractionConfig>,
}

/// Options of the general file processor.
#[derive(Debug, Clone)]
pub struct ProcessingOptions {
    pub enable_validation: bool,
    pub verbose_logging: bool,
    pub create_output_directory: bool,
    pub overwrite_existing: bool,
    pub max_file_size_mb: Option<u64>,
    pub timeout_seconds: Option<u64>,
    pub parallel_processing: bool,
    pub backup_original: bool,
}

impl Default for ProcessingOptions {
    /// The default options: validation on, a 1 GiB size limit and a
    /// 5 minute timeout, everything else off.
    fn default() -> (r: Self)
        ensures
            r.enable_validation == true,
            r.verbose_logging == false,
            r.create_output_directory == true,
            r.overwrite_existing == false,
            r.max_file_size_mb == Some(1024u64),
            r.timeout_seconds == Some(300u64),
            r.parallel_processing == false,
            r.backup_original == false,
    {
        ProcessingOptions {
            enable_validation: true,
            verbose_logging: false,
            create_output_directory: true,
            overwrite_existing: false,
            max_file_size_mb: Some(1024),
            timeout_seconds: Some(300),
            parallel_processing: false,
            backup_original: false,
        }
    }
}

} // verus!
