//! The general file processor: construction, validation and file-format
//! detection.  Its file copying and directory walking live in the driver;
//! what is decided about paths, modes and formats is here.

use vstd::prelude::*;
use vstd::string::*;
use crate::config::ProcessConfig;
use crate::scanner::ext_of;
use crate::stats::ProcessingStats;
use crate::types::{
    AudioFormat, DocumentFormat, FileFormat, ImageFormat, ProcessError, ProcessingMode,
    VideoFormat,
};

verus! {

/// What a probe of the file system found at a path.
#[derive(Debug, Clone, Copy, PartialEq, Eq, Structural)]
pub enum PathKind {
    Missing,
    File,
    Directory,
}

/// `c` is `l` or its ASCII upper-case form (`l` is lower case).
pub open spec fn ascii_matches_lower(c: char, l: char) -> bool {
    c == l || ('A' <= c && c <= 'Z' && c as int + 32 == l as int)
}

/// `s` equals the lower-case word `lit` up to ASCII case.
pub open spec fn matches_ci(s: Seq<char>, lit: Seq<char>) -> bool {
    s.len() == lit.len() && forall|i: int|
        0 <= i < s.len() ==> ascii_matches_lower(#[trigger] s[i], lit[i])
}

/// Whether `s` equals `lit` (a lower-case word) up to ASCII case.
pub fn str_matches_ci(s: &str, lit: &str) -> (r: bool)
    ensures
        r == matches_ci(s@, lit@),
{
    let ls = s.unicode_len();
    let ll = lit.unicode_len();
    if ls != ll {
        return false;
    }
    let mut i: usize = 0;
    while i < ls
        invariant
            ls == s@.len(),
            ls == lit@.len(),
            0 <= i <= ls,
            forall|j: int| 0 <= j < i ==> ascii_matches_lower(#[trigger] s@[j], lit@[j]),
        decreases ls - i,
    {
        let c = s.get_char(i);
        let l = lit.get_char(i);
        if !(c == l || ('A' <= c && c <= 'Z' && c as u32 + 32 == l as u32)) {
            return false;
        }
        i = i + 1;
    }
    true
}

/// The format a path's extension denotes, compared without regard to ASCII
/// case; `None` when the extension is missing or unknown.
pub open spec fn spec_detect_format(path: Seq<char>) -> Option<FileFormat> {
    match ext_of(path) {
        None => None,
        Some(e) => {
            if matches_ci(e, "mp4"@) { Some(FileFormat::Video(VideoFormat::Mp4)) }
            else if matches_ci(e, "avi"@) { Some(FileFormat::Video(VideoFormat::Avi)) }
            else if matches_ci(e, "mkv"@) { Some(FileFormat::Video(VideoFormat::Mkv)) }
            else if matches_ci(e, "mov"@) { Some(FileFormat::Video(VideoFormat::Mov)) }
            else if matches_ci(e, "webm"@) { Some(FileFormat::Video(VideoFormat::Webm)) }
            else if matches_ci(e, "mp3"@) { Some(FileFormat::Audio(AudioFormat::Mp3)) }
            else if matches_ci(e, "wav"@) { Some(FileFormat::Audio(AudioFormat::Wav)) }
            else if matches_ci(e, "flac"@) { Some(FileFormat::Audio(AudioFormat::Flac)) }
            else if matches_ci(e, "aac"@) { Some(FileFormat::Audio(AudioFormat::Aac)) }
            else if matches_ci(e, "jpg"@) { Some(FileFormat::Image(ImageFormat::Jpg)) }
            else if matches_ci(e, "jpeg"@) { Some(FileFormat::Image(ImageFormat::Jpg)) }
            else if matches_ci(e, "png"@) { Some(FileFormat::Image(ImageFormat::Png)) }
            else if matches_ci(e, "gif"@) { Some(FileFormat::Image(ImageFormat::Gif)) }
            else if matches_ci(e, "bmp"@) { Some(FileFormat::Image(ImageFormat::Bmp)) }
            else if matches_ci(e, "txt"@) { Some(FileFormat::Document(DocumentFormat::Txt)) }
            else if matches_ci(e, "json"@) { Some(FileFormat::Document(DocumentFormat::Json)) }
            else if matches_ci(e, "xml"@) { Some(FileFormat::Document(DocumentFormat::Xml)) }
            else if matches_ci(e, "csv"@) { Some(FileFormat::Document(DocumentFormat::Csv)) }
            else { None }
        },
    }
}

/// The file processor: configuration plus the statistics of the current
/// run.
pub struct Processor {
    config: ProcessConfig,
    stats: ProcessingStats,
}

impl Processor {
    /// The processor's configuration.
    pub closed spec fn spec_config(self) -> ProcessConfig {
        self.config
    }

    /// The processor's statistics.
    pub closed spec fn spec_stats(self) -> ProcessingStats {
        self.stats
    }

    /// Create a processor.  With validation enabled, an empty input or
    /// output path is rejected as invalid input; nothing else is.
    pub fn new(config: ProcessConfig) -> (r: Result<Processor, ProcessError>)
        ensures
            r is Ok <==> (!config.processing_options.enable_validation || (
                config.input_path@.len() > 0 && config.output_path@.len() > 0)),
            r matches Ok(p) ==> p.spec_config() == config,
            r matches Ok(p) ==> p.spec_stats().files_processed == 0
                && p.spec_stats().files_failed == 0
                && p.spec_stats().total_size_processed == 0
                && p.spec_stats().errors@.len() == 0,
            r matches Err(e) ==> e is InvalidInput,
    {
        if config.processing_options.enable_validation {
            if config.input_path.as_str().is_empty() {
                return Err(ProcessError::InvalidInput(
                    String::from_str("Input path cannot be empty"),
                ));
            }
            if config.output_path.as_str().is_empty() {
                return Err(ProcessError::InvalidInput(
                    String::from_str("Output path cannot be empty"),
                ));
            }
        }
        Ok(Processor { config, stats: ProcessingStats::new() })
    }

    /// Detect a file's format from its extension.  An unknown or missing
    /// extension is a processing failure.
    pub fn detect_file_format(&self, file_path: &str) -> (r: Result<FileFormat, ProcessError>)
        ensures
            match spec_detect_format(file_path@) {
                Some(f) => r == Result::<FileFormat, ProcessError>::Ok(f),
                None => r is Err,
            },
            r matches Err(e) ==> e is ProcessingFailed,
    {
        let len = file_path.unicode_len();
        let dot = crate::scanner::last_dot_pos(file_path, len);
        if dot == 0 {
            return Err(ProcessError::ProcessingFailed(
                String::from_str("Unsupported file format"),
            ));
        }
        let e = file_path.substring_char(dot + 1, len);
        proof {
            assert(e@ == file_path@.skip(dot + 1));
        }
        if str_matches_ci(e, "mp4") { Ok(FileFormat::Video(VideoFormat::Mp4)) }
        else if str_matches_ci(e, "avi") { Ok(FileFormat::Video(VideoFormat::Avi)) }
        else if str_matches_ci(e, "mkv") { Ok(FileFormat::Video(VideoFormat::Mkv)) }
        else if str_matches_ci(e, "mov") { Ok(FileFormat::Video(VideoFormat::Mov)) }
        else if str_matches_ci(e, "webm") { Ok(FileFormat::Video(VideoFormat::Webm)) }
        else if str_matches_ci(e, "mp3") { Ok(FileFormat::Audio(AudioFormat::Mp3)) }
        else if str_matches_ci(e, "wav") { Ok(FileFormat::Audio(AudioFormat::Wav)) }
        else if str_matches_ci(e, "flac") { Ok(FileFormat::Audio(AudioFormat::Flac)) }
        else if str_matches_ci(e, "aac") { Ok(FileFormat::Audio(AudioFormat::Aac)) }
        else if str_matches_ci(e, "jpg") { Ok(FileFormat::Image(ImageFormat::Jpg)) }
        else if str_matches_ci(e, "jpeg") { Ok(FileFormat::Image(ImageFormat::Jpg)) }
        else if str_matches_ci(e, "png") { Ok(FileFormat::Image(ImageFormat::Png)) }
        else if str_matches_ci(e, "gif") { Ok(FileFormat::Image(ImageFormat::Gif)) }
        else if str_matches_ci(e, "bmp") { Ok(FileFormat::Image(ImageFormat::Bmp)) }
        else if str_matches_ci(e, "txt") { Ok(FileFormat::Document(DocumentFormat::Txt)) }
        else if str_matches_ci(e, "json") { Ok(FileFormat::Document(DocumentFormat::Json)) }
        else if str_matches_ci(e, "xml") { Ok(FileFormat::Document(DocumentFormat::Xml)) }
        else if str_matches_ci(e, "csv") { Ok(FileFormat::Document(DocumentFormat::Csv)) }
        else {
            Err(ProcessError::ProcessingFailed(String::from_str("Unsupported file format")))
        }
    }

    /// Validate the input path against what the file system holds there:
    /// with validation enabled, an empty or missing input is invalid.
    pub fn validate_input(&self, input_path: &str, input_kind: PathKind) -> (r: Result<
        (),
        ProcessError,
    >)
        ensures
            r is Ok <==> (!self.spec_config().processing_options.enable_validation || (
                input_path@.len() > 0 && input_kind != PathKind::Missing)),
            r matches Err(e) ==> e is InvalidInput,
    {
        if !self.config.processing_options.enable_validation {
            return Ok(());
        }
        if input_path.is_empty() {
            return Err(ProcessError::InvalidInput(String::from_str("Input path is empty")));
        }
        if input_kind == PathKind::Missing {
            return Err(ProcessError::InvalidInput(
                String::from_str("Input path does not exist"),
            ));
        }
        Ok(())
    }

    /// Validate the output path: with validation enabled, it must be
    /// nonempty, its parent must exist unless output directories are
    /// created on demand, and an existing output file is rejected unless
    /// overwriting is allowed.
    pub fn validate_output_path(
        &self,
        output_path: &str,
        parent_exists: bool,
        output_kind: PathKind,
    ) -> (r: Result<(), ProcessError>)
        ensures
            r is Ok <==> (!self.spec_config().processing_options.enable_validation || (
                output_path@.len() > 0 && (parent_exists
                    || self.spec_config().processing_options.create_output_directory) && !(
                output_kind == PathKind::File
                    && !self.spec_config().processing_options.overwrite_existing))),
            r matches Err(e) ==> e is InvalidInput || e is ValidationError,
    {
        if !self.config.processing_options.enable_validation {
            return Ok(());
        }
        if output_path.is_empty() {
            return Err(ProcessError::InvalidInput(String::from_str("Output path is empty")));
        }
        if !parent_exists && !self.config.processing_options.create_output_directory {
            return Err(ProcessError::InvalidInput(
                String::from_str("Output directory does not exist"),
            ));
        }
        if output_kind == PathKind::File && !self.config.processing_options.overwrite_existing {
            return Err(ProcessError::ValidationError(
                String::from_str("Output file already exists"),
            ));
        }
        Ok(())
    }

    /// Get current configuration.
    pub fn get_config(&self) -> (r: &ProcessConfig)
        ensures
            *r == self.spec_config(),
    {
        &self.config
    }

    /// Get processing statistics.
    pub fn get_stats(&self) -> (r: &ProcessingStats)
        ensures
            *r == self.spec_stats(),
    {
        &self.stats
    }

    /// Get supported file formats.
    pub fn get_supported_formats(&self) -> (r: &Vec<FileFormat>)
        ensures
            r@ == self.spec_config().supported_formats@,
    {
        &self.config.supported_formats
    }

    /// Check if a file format is supported.
    pub fn is_format_supported(&self, format: &FileFormat) -> (r: bool)
        ensures
            r == self.spec_config().supported_formats@.contains(*format),
    {
        let mut i: usize = 0;
        while i < self.config.supported_formats.len()
            invariant
                0 <= i <= self.config.supported_formats@.len(),
                forall|t: int|
                    0 <= t < i ==> self.config.supported_formats@[t] != *format,
            decreases self.config.supported_formats@.len() - i,
        {
            if self.config.supported_formats[i] == *format {
                return true;
            }
            i = i + 1;
        }
        false
    }
}

/// Check mode against what the file system holds at the input path:
/// directory processing demands a directory where something exists, single
/// file processing a file; a missing path and the remaining modes pass.
/// With validation disabled everything passes.
pub fn validate_processing_mode(config: &ProcessConfig, input_kind: PathKind) -> (r: Result<
    (),
    ProcessError,
>)
    ensures
        r is Ok <==> (!config.processing_options.enable_validation || match config
            .processing_mode {
            ProcessingMode::DirectoryProcess => input_kind != PathKind::File,
            ProcessingMode::SingleFile => input_kind != PathKind::Directory,
            _ => true,
        }),
        r matches Err(e) ==> e is ConfigurationError,
{
    if !config.processing_options.enable_validation {
        return Ok(());
    }
    match config.processing_mode {
        ProcessingMode::DirectoryProcess => {
            if input_kind == PathKind::File {
                return Err(ProcessError::ConfigurationError(
                    String::from_str(
                        "Directory processing mode requires input path to be a directory",
                    ),
                ));
            }
        },
        ProcessingMode::SingleFile => {
            if input_kind == PathKind::Directory {
                return Err(ProcessError::ConfigurationError(
                    String::from_str("Single file processing mode requires input path to be a file"),
                ));
            }
        },
        _ => {},
    }
    Ok(())
}

} // verus!
