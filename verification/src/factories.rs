//! Convenience constructors for processors with common configurations.

use vstd::prelude::*;
use vstd::string::*;
use crate::config::{ProcessConfig, ProcessingOptions};
use crate::processor::Processor;
use crate::types::{
    get_default_supported_formats, spec_default_supported_formats, FileFormat, ProcessError,
    ProcessingMode, VideoFormat,
};

verus! {

/// Create a processor with default options.  Succeeds exactly when both
/// paths are nonempty.
pub fn create_processor(input_path: String, output_path: String) -> (r: Result<
    Processor,
    ProcessError,
>)
    ensures
        r is Ok <==> (input_path@.len() > 0 && output_path@.len() > 0),
        r matches Ok(p) ==> {
            &&& p.spec_config().input_path == input_path
            &&& p.spec_config().output_path == output_path
            &&& p.spec_config().processing_mode == ProcessingMode::SingleFile
            &&& p.spec_config().processing_options.enable_validation == true
            &&& p.spec_config().supported_formats@ =~= spec_default_supported_formats()
            &&& p.spec_config().video_config is None
        },
        r matches Err(e) ==> e is InvalidInput,
{
    let config = ProcessConfig {
        input_path,
        output_path,
        processing_options: ProcessingOptions::default(),
        processing_mode: ProcessingMode::SingleFile,
        supported_formats: get_default_supported_formats(),
        video_config: None,
    };
    Processor::new(config)
}

/// Create a processor with custom options.  With validation enabled it
/// succeeds exactly when both paths are nonempty; with validation
/// disabled, always.
pub fn create_processor_with_options(
    input_path: String,
    output_path: String,
    options: ProcessingOptions,
) -> (r: Result<Processor, ProcessError>)
    ensures
        r is Ok <==> (!options.enable_validation || (input_path@.len() > 0
            && output_path@.len() > 0)),
        r matches Ok(p) ==> {
            &&& p.spec_config().input_path == input_path
            &&& p.spec_config().output_path == output_path
            &&& p.spec_config().processing_options == options
            &&& p.spec_config().processing_mode == ProcessingMode::SingleFile
            &&& p.spec_config().supported_formats@ =~= spec_default_supported_formats()
            &&& p.spec_config().video_config is None
        },
        r matches Err(e) ==> e is InvalidInput,
{
    let config = ProcessConfig {
        input_path,
        output_path,
        processing_options: options,
        processing_mode: ProcessingMode::SingleFile,
        supported_formats: get_default_supported_formats(),
        video_config: None,
    };
    Processor::new(config)
}

/// Create a processor with a custom processing mode and default options.
pub fn create_processor_with_mode(
    input_path: String,
    output_path: String,
    mode: ProcessingMode,
) -> (r: Result<Processor, ProcessError>)
    ensures
        r is Ok <==> (input_path@.len() > 0 && output_path@.len() > 0),
        r matches Ok(p) ==> {
            &&& p.spec_config().input_path == input_path
            &&& p.spec_config().output_path == output_path
            &&& p.spec_config().processing_mode == mode
            &&& p.spec_config().supported_formats@ =~= spec_default_supported_formats()
            &&& p.spec_config().video_config is None
        },
        r matches Err(e) ==> e is InvalidInput,
{
    let config = ProcessConfig {
        input_path,
        output_path,
        processing_options: ProcessingOptions::default(),
        processing_mode: mode,
        supported_formats: get_default_supported_formats(),
        video_config: None,
    };
    Processor::new(config)
}

/// Create a processor for video extraction: path validation is disabled
/// (the paths come from the extraction configuration), the mode is
/// directory processing, and only video formats are supported.
pub fn create_video_processor() -> (r: Result<Processor, ProcessError>)
    ensures
        r is Ok,
        r matches Ok(p) ==> {
            &&& p.spec_config().input_path@.len() == 0
            &&& p.spec_config().output_path@.len() == 0
            &&& p.spec_config().processing_options.enable_validation == false
            &&& p.spec_config().processing_mode == ProcessingMode::DirectoryProcess
            &&& p.spec_config().supported_formats@ =~= seq![
                FileFormat::Video(VideoFormat::Mp4),
                FileFormat::Video(VideoFormat::Avi),
                FileFormat::Video(VideoFormat::Mkv),
                FileFormat::Video(VideoFormat::Mov),
            ]
            &&& p.spec_config().video_config is None
        },
{
    let mut options = ProcessingOptions::default();
    options.enable_validation = false;
    let mut formats: Vec<FileFormat> = Vec::new();
    formats.push(FileFormat::Video(VideoFormat::Mp4));
    formats.push(FileFormat::Video(VideoFormat::Avi));
    formats.push(FileFormat::Video(VideoFormat::Mkv));
    formats.push(FileFormat::Video(VideoFormat::Mov));
    let config = ProcessConfig {
        input_path: String::new(),
        output_path: String::new(),
        processing_options: options,
        processing_mode: ProcessingMode::DirectoryProcess,
        supported_formats: formats,
        video_config: None,
    };
    Processor::new(config)
}

} // verus!
