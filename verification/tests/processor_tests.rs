use media_core::config::{ProcessConfig, ProcessingOptions};
use media_core::factories::{
    create_processor, create_processor_with_mode, create_video_processor,
};
use media_core::processor::{PathKind, Processor};
use media_core::stats::ProcessingStats;
use media_core::types::{
    get_default_supported_formats, DocumentFormat, FileFormat, ImageFormat, ProcessingMode,
    VideoFormat,
};

fn test_config(input: &str, output: &str) -> ProcessConfig {
    ProcessConfig {
        input_path: input.to_string(),
        output_path: output.to_string(),
        processing_options: ProcessingOptions::default(),
        processing_mode: ProcessingMode::SingleFile,
        supported_formats: get_default_supported_formats(),
        video_config: None,
    }
}

#[test]
fn test_processor_creation() {
    let config = test_config("test_input", "test_output");
    let processor = Processor::new(config);
    assert!(processor.is_ok());
}

#[test]
fn test_processor_creation_empty_input() {
    let config = test_config("", "test_output");
    let processor = Processor::new(config);
    assert!(processor.is_err());
}

#[test]
fn test_processor_creation_empty_output() {
    let config = test_config("test_input", "");
    let processor = Processor::new(config);
    assert!(processor.is_err());
}

#[test]
fn test_create_processor_convenience_function() {
    let processor = create_processor("input".to_string(), "output".to_string());
    assert!(processor.is_ok());
}

#[test]
fn test_processing_options_default() {
    let options = ProcessingOptions::default();
    assert!(options.enable_validation);
    assert!(!options.verbose_logging);
    assert!(options.create_output_directory);
    assert!(!options.overwrite_existing);
    assert_eq!(options.max_file_size_mb, Some(1024));
    assert_eq!(options.timeout_seconds, Some(300));
    assert!(!options.parallel_processing);
    assert!(!options.backup_original);
}

#[test]
fn test_processing_stats() {
    let mut stats = ProcessingStats::new();
    assert_eq!(stats.files_processed, 0);
    assert_eq!(stats.files_failed, 0);

    stats.add_processed_file(1024);
    assert_eq!(stats.files_processed, 1);
    assert_eq!(stats.total_size_processed, 1024);

    stats.add_failed_file("Test error".to_string());
    assert_eq!(stats.files_failed, 1);
    assert_eq!(stats.errors.len(), 1);

    stats.finalize();
    assert_eq!(stats.files_processed, 1);
    assert_eq!(stats.files_failed, 1);
}

#[test]
fn test_file_format_detection() {
    let processor = create_processor("input".to_string(), "output".to_string()).unwrap();

    let format = processor.detect_file_format("test.mp4");
    assert!(matches!(format, Ok(FileFormat::Video(VideoFormat::Mp4))));

    let format = processor.detect_file_format("test.jpg");
    assert!(matches!(format, Ok(FileFormat::Image(ImageFormat::Jpg))));

    let format = processor.detect_file_format("test.txt");
    assert!(matches!(format, Ok(FileFormat::Document(DocumentFormat::Txt))));
}

#[test]
fn test_processing_modes() {
    let modes = vec![
        ProcessingMode::SingleFile,
        ProcessingMode::BatchFiles,
        ProcessingMode::DirectoryProcess,
        ProcessingMode::StreamProcess,
    ];

    for mode in modes {
        let processor = create_processor_with_mode(
            "input".to_string(),
            "output".to_string(),
            mode.clone(),
        );
        assert!(processor.is_ok());
        assert_eq!(processor.unwrap().get_config().processing_mode, mode);
    }
}

#[test]
fn test_supported_formats() {
    let formats = get_default_supported_formats();
    assert!(!formats.is_empty());

    let has_video = formats.iter().any(|f| matches!(f, FileFormat::Video(_)));
    let has_audio = formats.iter().any(|f| matches!(f, FileFormat::Audio(_)));
    let has_image = formats.iter().any(|f| matches!(f, FileFormat::Image(_)));
    let has_document = formats.iter().any(|f| matches!(f, FileFormat::Document(_)));

    assert!(has_video);
    assert!(has_audio);
    assert!(has_image);
    assert!(has_document);
}

#[test]
fn test_format_support_check() {
    let processor = create_processor("input".to_string(), "output".to_string()).unwrap();

    let mp4_format = FileFormat::Video(VideoFormat::Mp4);
    assert!(processor.is_format_supported(&mp4_format));

    for format in get_default_supported_formats() {
        assert!(processor.is_format_supported(&format));
    }
}

#[test]
fn test_video_processor_creation() {
    let processor = create_video_processor();
    assert!(processor.is_ok());

    let processor = processor.unwrap();
    assert_eq!(processor.get_config().processing_mode, ProcessingMode::DirectoryProcess);
    assert!(processor.get_config().video_config.is_none());

    let mp4_format = FileFormat::Video(VideoFormat::Mp4);
    assert!(processor.is_format_supported(&mp4_format));
}

#[test]
fn test_detect_format_case_insensitive() {
    let processor = create_processor("input".to_string(), "output".to_string()).unwrap();
    assert!(matches!(
        processor.detect_file_format("clip.MKV"),
        Ok(FileFormat::Video(VideoFormat::Mkv))
    ));
    assert!(matches!(
        processor.detect_file_format("photo.JPEG"),
        Ok(FileFormat::Image(ImageFormat::Jpg))
    ));
    assert!(processor.detect_file_format("noext").is_err());
    assert!(processor.detect_file_format("file.xyz").is_err());
}

#[test]
fn test_validate_processing_mode_against_path_kind() {
    let config = test_config("in", "out");
    let mut dir_config = config.clone();
    dir_config.processing_mode = ProcessingMode::DirectoryProcess;
    assert!(media_core::processor::validate_processing_mode(&dir_config, PathKind::Directory)
        .is_ok());
    assert!(media_core::processor::validate_processing_mode(&dir_config, PathKind::Missing)
        .is_ok());
    assert!(media_core::processor::validate_processing_mode(&dir_config, PathKind::File)
        .is_err());

    assert!(media_core::processor::validate_processing_mode(&config, PathKind::File).is_ok());
    assert!(media_core::processor::validate_processing_mode(&config, PathKind::Directory)
        .is_err());
}

#[test]
fn test_validate_input_and_output() {
    let processor = create_processor("input".to_string(), "output".to_string()).unwrap();
    assert!(processor.validate_input("in", PathKind::File).is_ok());
    assert!(processor.validate_input("", PathKind::File).is_err());
    assert!(processor.validate_input("in", PathKind::Missing).is_err());

    assert!(processor.validate_output_path("out.mp4", true, PathKind::Missing).is_ok());
    assert!(processor.validate_output_path("", true, PathKind::Missing).is_err());
    // An existing output file is rejected while overwriting is off.
    assert!(processor.validate_output_path("out.mp4", true, PathKind::File).is_err());
    // The default options create missing output directories.
    assert!(processor.validate_output_path("out.mp4", false, PathKind::Missing).is_ok());
}
