use media_core::orderer::{
    parse_frame_filename, sort_staged_frames, staged_frame_key, staged_frame_name,
};
use media_core::registry::TempRegistry;
use media_core::sampling::{native_frame_step, sample_indices, FrameReadEvent, FrameStep};
use media_core::scanner::output_video_path;
use media_core::writer::DirectWriter;

#[test]
fn test_parse_frame_filename() {
    assert_eq!(parse_frame_filename("video001_frame0000123"), Some((1, 123)));
    assert_eq!(parse_frame_filename("video0_frame000456"), Some((0, 456)));
    assert_eq!(parse_frame_filename("video999_frame9999999"), Some((999, 9999999)));

    assert_eq!(parse_frame_filename("invalid_filename"), None);
    assert_eq!(parse_frame_filename("video_frame"), None);
    assert_eq!(parse_frame_filename(""), None);
}

#[test]
fn test_staged_frame_name_round_trip() {
    let name = staged_frame_name(1, 123);
    assert_eq!(name, "video001_frame0000123.jpg");
    assert_eq!(staged_frame_key(&name), Some((1, 123)));

    let name = staged_frame_name(12, 7);
    assert_eq!(name, "video012_frame0000007.jpg");
    assert_eq!(staged_frame_key(&name), Some((12, 7)));

    // Unpadded digit runs parse as well: the writers pad, the parser
    // accepts any width.
    assert_eq!(staged_frame_key("video7_frame42.jpg"), Some((7, 42)));
    assert_eq!(staged_frame_key("notaframe.jpg"), None);
}

// Staged frames, once ordered, stand by ascending (video_index,
// frame_index); unparsable names sort after every parsed one.
#[test]
fn test_frame_ordering() {
    let names: Vec<String> = vec![
        "video001_frame0000200.jpg".to_string(),
        "stray.txt".to_string(),
        "video000_frame0000300.jpg".to_string(),
        "video001_frame0000100.jpg".to_string(),
        "video000_frame0000010.jpg".to_string(),
    ];
    let sorted = sort_staged_frames(&names);
    let expect: Vec<String> = vec![
        "video000_frame0000010.jpg".to_string(),
        "video000_frame0000300.jpg".to_string(),
        "video001_frame0000100.jpg".to_string(),
        "video001_frame0000200.jpg".to_string(),
        "stray.txt".to_string(),
    ];
    assert_eq!(sorted, expect);
}

// NativeSample at interval k reads ceil(N / k) positions.
#[test]
fn test_sample_count() {
    assert_eq!(sample_indices(100, 10).len(), 10);
    assert_eq!(sample_indices(101, 10).len(), 11);
    assert_eq!(sample_indices(9, 10).len(), 1);
    assert_eq!(sample_indices(0, 10).len(), 0);
    assert_eq!(sample_indices(10, 1).len(), 10);
    assert_eq!(sample_indices(30, 10), vec![0, 10, 20]);
}

#[test]
fn test_native_frame_policy() {
    assert_eq!(native_frame_step(&FrameReadEvent::SeekFailed), FrameStep::Skip);
    assert_eq!(native_frame_step(&FrameReadEvent::ReadEmpty), FrameStep::Skip);
    assert_eq!(native_frame_step(&FrameReadEvent::ReadOk(640, 480)), FrameStep::Use);
    assert_eq!(native_frame_step(&FrameReadEvent::ReadEnd), FrameStep::Stop);
    assert_eq!(native_frame_step(&FrameReadEvent::ReadError), FrameStep::Fail);
}

// A handle is never deleted twice, and after the final sweep the registry
// is empty.
#[test]
fn test_registry_single_removal() {
    let mut reg = TempRegistry::new();
    let a = "out/job_a_temp".to_string();
    let b = "out/job_b_temp".to_string();

    assert!(reg.register(a.clone()));
    assert!(reg.register(b.clone()));
    assert!(!reg.register(a.clone()));
    assert_eq!(reg.pending_len(), 2);

    assert!(reg.remove_now(&a));
    assert!(!reg.remove_now(&a));
    assert_eq!(reg.pending_len(), 1);

    let swept = reg.sweep();
    assert_eq!(swept, vec![b.clone()]);
    assert_eq!(reg.pending_len(), 0);
    assert!(!reg.remove_now(&b));
    assert!(!reg.register(a));
}

// A writer opened at (W, H) drops every frame of another size and accepts
// every frame of exactly that size.
#[test]
fn test_resolution_lock_in() {
    let mut w = DirectWriter::new();
    assert!(w.needs_resolution());
    assert!(!w.try_open(0, 480));
    assert!(w.try_open(640, 480));
    assert!(!w.try_open(1920, 1080));

    assert!(w.accepts(640, 480));
    assert!(!w.accepts(1920, 1080));
    assert!(!w.accepts(640, 481));

    w.record_written(640, 480);
    w.record_written(640, 480);
    assert_eq!(w.frames_written, 2);
    w.record_video_done();
    assert!(!w.should_discard_output());
}

// Scenario A: two directories of two videos each, interval 10, direct
// native assembly.  Each job writes sum of ceil(frames / 10) frames in
// source-then-frame order, and the two jobs' output paths differ.
#[test]
fn test_direct_native_two_directories() {
    let frame_counts = [[95usize, 100], [41, 9]];
    let mut written: Vec<u64> = Vec::new();
    for counts in frame_counts.iter() {
        let mut writer = DirectWriter::new();
        let mut order: Vec<(usize, usize)> = Vec::new();
        for (video_index, total) in counts.iter().enumerate() {
            if writer.needs_resolution() {
                writer.try_open(640, 480);
            }
            for idx in sample_indices(*total, 10) {
                if writer.accepts(640, 480) {
                    writer.record_written(640, 480);
                    order.push((video_index, idx));
                }
            }
            writer.record_video_done();
        }
        for pair in order.windows(2) {
            assert!(pair[0] < pair[1]);
        }
        assert!(!writer.should_discard_output());
        written.push(writer.frames_written);
    }
    assert_eq!(written, vec![10 + 10, 5 + 1]);

    let path_a = output_video_path("out", "summary", "dir_a");
    let path_b = output_video_path("out", "summary", "dir_b");
    assert_eq!(path_a, "out/summary_dir_a.mp4");
    assert_eq!(path_b, "out/summary_dir_b.mp4");
    assert_ne!(path_a, path_b);
}

// Scenario B: a corrupt video is skipped with a warning; the valid one
// still produces output.
#[test]
fn test_corrupt_video_skipped() {
    let mut writer = DirectWriter::new();
    // Video 0 cannot be opened: the job skips it and decides nothing.
    // Video 1 opens at 320x240 and yields its sampled frames.
    assert!(writer.try_open(320, 240));
    for _ in sample_indices(20, 10) {
        assert!(writer.accepts(320, 240));
        writer.record_written(320, 240);
    }
    writer.record_video_done();
    assert_eq!(writer.frames_written, 2);
    assert!(!writer.should_discard_output());
}

// A job whose writer opened but which completed no source discards the
// partial output file.
#[test]
fn test_partial_output_discarded() {
    let mut writer = DirectWriter::new();
    assert!(writer.try_open(640, 480));
    assert!(writer.should_discard_output());
}
