use media_core::plan::{
    resolve_settings, worker_count, AssemblyKind, CreationKind, ExtractionKind, ScheduleMode,
};
use media_core::config::VideoExtractionConfig;
use media_core::registry::TempRegistry;
use media_core::scanner::{
    build_video_list, directory_tag, is_video_file_name, output_video_path, sort_video_list,
};
use media_core::supervisor::{
    camera_dir_name, segment_file_name, PollOutcome, Supervisor, SupervisorState,
};
use media_core::text::{i64_to_string, parse_dec, u64_to_padded_string, u64_to_string};
use media_core::transcode::{
    concat_args, concat_list_content, concat_list_file_name, direct_external_dir_name,
    external_extract_args, is_jpg_name, select_jpg_frames, staged_dir_name,
};
use media_core::types::ProcessError;
use media_core::orderer::sort_staged_frames;

fn extraction_config(
    extraction: &str,
    creation: Option<&str>,
    schedule: Option<&str>,
) -> VideoExtractionConfig {
    VideoExtractionConfig {
        input_directories: vec!["in".to_string()],
        output_directory: "out".to_string(),
        output_prefix: "summary".to_string(),
        num_threads: None,
        output_fps: 30,
        frame_interval: 10,
        extraction_mode: extraction.to_string(),
        create_summary_per_thread: None,
        video_creation_mode: creation.map(|s| s.to_string()),
        processing_mode: schedule.map(|s| s.to_string()),
    }
}

#[test]
fn test_decimal_rendering() {
    assert_eq!(u64_to_string(0), "0");
    assert_eq!(u64_to_string(7), "7");
    assert_eq!(u64_to_string(12345), "12345");
    assert_eq!(u64_to_padded_string(1, 3), "001");
    assert_eq!(u64_to_padded_string(123, 7), "0000123");
    assert_eq!(u64_to_padded_string(12345678, 7), "12345678");
    assert_eq!(i64_to_string(-5), "-5");
    assert_eq!(i64_to_string(30), "30");
}

#[test]
fn test_decimal_parsing() {
    assert_eq!(parse_dec("0"), Some(0));
    assert_eq!(parse_dec("0001"), Some(1));
    assert_eq!(parse_dec("9999999"), Some(9999999));
    assert_eq!(parse_dec(""), None);
    assert_eq!(parse_dec("12a"), None);
    assert_eq!(parse_dec("99999999999999999999999"), None);
}

#[test]
fn test_video_name_filter() {
    assert!(is_video_file_name("a.mp4"));
    assert!(is_video_file_name("b.mov"));
    assert!(is_video_file_name("c.avi"));
    assert!(is_video_file_name("d.mkv"));
    assert!(!is_video_file_name("e.MP4"));
    assert!(!is_video_file_name("f.txt"));
    assert!(!is_video_file_name("mp4"));
    assert!(!is_video_file_name(".mp4"));
}

#[test]
fn test_build_video_list_filters_and_cleans() {
    let names: Vec<String> = vec![
        "dir/./a.mp4".to_string(),
        "dir/notes.txt".to_string(),
        "dir/sub/../b.mkv".to_string(),
    ];
    let list = build_video_list(&names);
    assert_eq!(list, vec!["dir/a.mp4".to_string(), "dir/b.mkv".to_string()]);
}

#[test]
fn test_video_list_sorted() {
    let v: Vec<String> = vec![
        "dir/b.mp4".to_string(),
        "dir/a.mp4".to_string(),
        "dir/c.mkv".to_string(),
    ];
    let sorted = sort_video_list(&v);
    assert_eq!(
        sorted,
        vec!["dir/a.mp4".to_string(), "dir/b.mp4".to_string(), "dir/c.mkv".to_string()]
    );
}

#[test]
fn test_directory_tags() {
    assert_eq!(directory_tag("/data/videos/cam1"), "cam1");
    assert_eq!(directory_tag("/data/videos/cam1/"), "cam1");
    assert_eq!(directory_tag("relative"), "relative");
    assert_eq!(directory_tag("/"), "default");
    assert_eq!(directory_tag(""), "default");
    assert_eq!(directory_tag("a/.."), "default");
    assert_eq!(directory_tag("a/."), "default");
}

#[test]
fn test_output_path_separator() {
    assert_eq!(output_video_path("out/", "p", "t"), "out/p_t.mp4");
    assert_eq!(output_video_path("", "p", "t"), "p_t.mp4");
}

#[test]
fn test_resolve_settings_strategy_matrix() {
    let s = resolve_settings(&extraction_config("opencv", Some("direct"), None)).unwrap();
    assert_eq!(s.extraction, ExtractionKind::NativeSample);
    assert_eq!(s.creation, CreationKind::Direct);
    assert_eq!(s.assembly, AssemblyKind::DirectNative);
    assert_eq!(s.schedule, ScheduleMode::Parallel);

    let s = resolve_settings(&extraction_config("ffmpeg", Some("direct"), Some("sequential")))
        .unwrap();
    assert_eq!(s.assembly, AssemblyKind::DirectExternal);
    assert_eq!(s.schedule, ScheduleMode::Sequential);

    let s = resolve_settings(&extraction_config("opencv", None, Some("parallel"))).unwrap();
    assert_eq!(s.assembly, AssemblyKind::StagedConcat);

    let s = resolve_settings(&extraction_config("ffmpeg", Some("temp_frames"), None)).unwrap();
    assert_eq!(s.assembly, AssemblyKind::StagedConcat);

    assert!(matches!(
        resolve_settings(&extraction_config("magic", None, None)),
        Err(ProcessError::ConfigurationError(_))
    ));
    assert!(matches!(
        resolve_settings(&extraction_config("opencv", Some("odd"), None)),
        Err(ProcessError::ConfigurationError(_))
    ));
    assert!(matches!(
        resolve_settings(&extraction_config("opencv", None, Some("odd"))),
        Err(ProcessError::ConfigurationError(_))
    ));
}

#[test]
fn test_worker_count() {
    assert_eq!(worker_count(&Some(4)), 4);
    assert!(worker_count(&None) >= 1);
}

// Scenario C: external sampling at interval 0 fails with a validation
// error before any process could be spawned.
#[test]
fn test_external_interval_zero_rejected() {
    let r = external_extract_args("in/a.mp4", 0, "out/stage", 0);
    assert!(matches!(r, Err(ProcessError::ValidationError(_))));
}

#[test]
fn test_external_extract_args() {
    let args = external_extract_args("in/a.mp4", 3, "out/stage", 10).unwrap();
    assert_eq!(
        args,
        vec![
            "-i".to_string(),
            "in/a.mp4".to_string(),
            "-vf".to_string(),
            "select=not(mod(n\\,10))".to_string(),
            "-vsync".to_string(),
            "vfr".to_string(),
            "-q:v".to_string(),
            "2".to_string(),
            "out/stage/video3_frame%06d.jpg".to_string(),
            "-hide_banner".to_string(),
            "-loglevel".to_string(),
            "warning".to_string(),
        ]
    );
}

#[test]
fn test_concat_invocation() {
    let args = concat_args("stage/ffmpeg_list.txt", 30, "out/summary_cam1.mp4");
    assert_eq!(args[0], "-y");
    assert_eq!(args[1], "-f");
    assert_eq!(args[2], "concat");
    assert_eq!(args[6], "stage/ffmpeg_list.txt");
    assert_eq!(args[8], "30");
    assert_eq!(args[10], "libx264");
    assert_eq!(args[12], "yuv420p");
    assert_eq!(args[13], "out/summary_cam1.mp4");
}

#[test]
fn test_concat_list_content() {
    let paths: Vec<String> = vec![
        "/abs/stage/video000_frame0000000.jpg".to_string(),
        "C:\\stage\\video000_frame0000010.jpg".to_string(),
    ];
    let content = concat_list_content(&paths);
    assert_eq!(
        content,
        "file '/abs/stage/video000_frame0000000.jpg'\nfile 'C:/stage/video000_frame0000010.jpg'\n"
    );
}

#[test]
fn test_jpg_selection() {
    assert!(is_jpg_name("a.jpg"));
    assert!(is_jpg_name("a.JPG"));
    assert!(is_jpg_name("a.JpG"));
    assert!(!is_jpg_name("a.jpeg"));
    assert!(!is_jpg_name("ffmpeg_list.txt"));
    let names: Vec<String> = vec![
        "video000_frame0000000.jpg".to_string(),
        "ffmpeg_list.txt".to_string(),
        "video001_frame0000000.JPG".to_string(),
    ];
    let frames = select_jpg_frames(&names);
    assert_eq!(
        frames,
        vec![
            "video000_frame0000000.jpg".to_string(),
            "video001_frame0000000.JPG".to_string(),
        ]
    );
}

#[test]
fn test_staging_directory_names() {
    assert_eq!(staged_dir_name("summary", "cam1"), "summary_cam1_temp");
    assert_eq!(
        direct_external_dir_name("summary", "cam1", "w3"),
        "summary_cam1_ffmpeg_direct_temp_w3"
    );
}

// Scenario D: staged concatenation over three sources uses one persistent
// staging directory, orders its frames, builds the list file, and the
// final sweep removes the directory exactly once.
#[test]
fn test_staged_concat_run() {
    let mut reg = TempRegistry::new();
    let staging = format!("out/{}", staged_dir_name("summary", "cam1"));
    assert!(reg.register(staging.clone()));

    let mut staged: Vec<String> = Vec::new();
    for video in 0..3usize {
        for idx in media_core::sampling::sample_indices(25, 10) {
            staged.push(media_core::orderer::staged_frame_name(video, idx));
        }
    }
    staged.reverse();
    let listing = select_jpg_frames(&staged);
    let ordered = sort_staged_frames(&listing);
    assert_eq!(ordered.len(), 9);
    assert_eq!(ordered[0], "video000_frame0000000.jpg");
    assert_eq!(ordered[8], "video002_frame0000020.jpg");

    let content = concat_list_content(&ordered);
    assert!(content.starts_with("file 'video000_frame0000000.jpg'\n"));
    assert_eq!(content.lines().count(), 9);
    assert_eq!(concat_list_file_name(), "ffmpeg_list.txt");

    let swept = reg.sweep();
    assert_eq!(swept, vec![staging.clone()]);
    assert_eq!(reg.pending_len(), 0);
    assert!(!reg.remove_now(&staging));
}

#[test]
fn test_supervisor_backoff() {
    let mut sup = Supervisor::new();
    assert_eq!(sup.state, SupervisorState::Idle);
    assert_eq!(sup.backoff_secs(), 1);

    for expected in [1u64, 1, 10] {
        sup.begin_start();
        sup.on_start(false);
        assert_eq!(sup.state, SupervisorState::Backoff);
        let _ = expected;
        sup.on_backoff_elapsed();
    }
    assert_eq!(sup.consecutive_failures, 3);
    assert_eq!(sup.backoff_secs(), 10);

    sup.begin_start();
    sup.on_start(true);
    assert_eq!(sup.state, SupervisorState::Running);
    assert_eq!(sup.consecutive_failures, 0);
    assert_eq!(sup.backoff_secs(), 1);

    sup.on_poll(PollOutcome::StillRunning);
    assert_eq!(sup.state, SupervisorState::Running);
    sup.on_poll(PollOutcome::Exited(false));
    assert_eq!(sup.state, SupervisorState::Stopped);
    let wait = sup.begin_backoff();
    assert_eq!(wait, 1);
}

#[test]
fn test_camera_names() {
    assert_eq!(
        camera_dir_name("rtsp://host:554/stream1"),
        "camera_rtsp_host_554_stream1"
    );
    assert_eq!(segment_file_name("20240101_120000"), "segment_20240101_120000.mp4");
}
