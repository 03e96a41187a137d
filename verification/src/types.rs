//! Error taxonomy, processing modes and file format classification.

use vstd::prelude::*;

verus! {

/// Errors reported by the processing pipeline.
#[derive(Debug)]
pub enum ProcessError {
    InvalidInput(String),
    ProcessingFailed(String),
    IoError(String),
    ConfigurationError(String),
    ValidationError(String),
}

/// Top-level processing modes.
#[derive(Debug, Clone, PartialEq, Eq, Structural)]
pub enum ProcessingMode {
    SingleFile,
    BatchFiles,
    DirectoryProcess,
    StreamProcess,
}

/// File format classes recognised by the processor.
#[derive(Debug, Clone, PartialEq, Eq, Structural)]
pub enum FileFormat {
    Video(VideoFormat),
    Audio(AudioFormat),
    Image(ImageFormat),
    Document(DocumentFormat),
}

#[derive(Debug, Clone, PartialEq, Eq, Structural)]
pub enum VideoFormat {
    Mp4,
    Avi,
    Mkv,
    Mov,
    Webm,
}

#[derive(Debug, Clone, PartialEq, Eq, Structural)]
pub enum AudioFormat {
    Mp3,
    Wav,
    Flac,
    Aac,
}

#[derive(Debug, Clone, PartialEq, Eq, Structural)]
pub enum ImageFormat {
    Jpg,
    Png,
    Gif,
    Bmp,
}

#[derive(Debug, Clone, PartialEq, Eq, Structural)]
pub enum DocumentFormat {
    Txt,
    Json,
    Xml,
    Csv,
}

/// The formats the processor accepts when none are configured explicitly.
pub open spec fn spec_default_supported_formats() -> Seq<FileFormat> {
    seq![
        FileFormat::Video(VideoFormat::Mp4),
        FileFormat::Video(VideoFormat::Avi),
        FileFormat::Video(VideoFormat::Mkv),
        FileFormat::Video(VideoFormat::Mov),
        FileFormat::Video(VideoFormat::Webm),
        FileFormat::Audio(AudioFormat::Mp3),
        FileFormat::Audio(AudioFormat::Wav),
        FileFormat::Audio(AudioFormat::Flac),
        FileFormat::Audio(AudioFormat::Aac),
        FileFormat::Image(ImageFormat::Jpg),
        FileFormat::Image(ImageFormat::Png),
        FileFormat::Image(ImageFormat::Gif),
        FileFormat::Image(ImageFormat::Bmp),
        FileFormat::Document(DocumentFormat::Txt),
        FileFormat::Document(DocumentFormat::Json),
        FileFormat::Document(DocumentFormat::Xml),
        FileFormat::Document(DocumentFormat::Csv),
    ]
}

/// Get default supported file formats.
pub fn get_default_supported_formats() -> (r: Vec<FileFormat>)
    ensures
        r@ =~= spec_default_supported_formats(),
{
    let mut v: Vec<FileFormat> = Vec::new();
    v.push(FileFormat::Video(VideoFormat::Mp4));
    v.push(FileFormat::Video(VideoFormat::Avi));
    v.push(FileFormat::Video(VideoFormat::Mkv));
    v.push(FileFormat::Video(VideoFormat::Mov));
    v.push(FileFormat::Video(VideoFormat::Webm));
    v.push(FileFormat::Audio(AudioFormat::Mp3));
    v.push(FileFormat::Audio(AudioFormat::Wav));
    v.push(FileFormat::Audio(AudioFormat::Flac));
    v.push(FileFormat::Audio(AudioFormat::Aac));
    v.push(FileFormat::Image(ImageFormat::Jpg));
    v.push(FileFormat::Image(ImageFormat::Png));
    v.push(FileFormat::Image(ImageFormat::Gif));
    v.push(FileFormat::Image(ImageFormat::Bmp));
    v.push(FileFormat::Document(DocumentFormat::Txt));
    v.push(FileFormat::Document(DocumentFormat::Json));
    v.push(FileFormat::Document(DocumentFormat::Xml));
    v.push(FileFormat::Document(DocumentFormat::Csv));
    v
}

} // verus!
