use capture_agent::source::CaptureSource;
use capture_agent::runner::extension_of;
use capture_agent::protocol::{CaptureEvent, CaptureSourceInfo, CaptureSourceKind};
use capture_agent::runner::{
    check_resume, even_dimension, job_meta, max_segment_sequence, next_segment_sequence,
    open_events, segment_continues, segment_end, segment_file_name_of, segment_number_of,
    segment_relative_path_of, segment_temporary_name_of, validate_frame, validate_options,
    CaptureOptions, CaptureRun, DimensionError, FrameError, OptionsError, RunError, SegmentEnd,
};
use capture_agent::source::CapturedFrame;
use capture_agent::test_pattern::TestPatternSource;

fn options(job_id: &str, max_segments: Option<u64>) -> CaptureOptions {
    CaptureOptions {
        job_id: job_id.to_string(),
        output_directory: format!("/tmp/{job_id}"),
        segment_duration_ms: 120,
        fps: 20,
        video_bitrate_kbps: 2048,
        max_segments,
    }
}

fn names(list: &[&str]) -> Vec<String> {
    list.iter().map(|name| name.to_string()).collect()
}

#[test]
fn options_are_checked_in_order() {
    assert_eq!(validate_options(&options("job", None)), Ok(()));
    assert_eq!(validate_options(&options("  ", None)), Err(OptionsError::EmptyJobId));
    let mut zero_fps = options("job", None);
    zero_fps.fps = 0;
    zero_fps.video_bitrate_kbps = 0;
    assert_eq!(validate_options(&zero_fps), Err(OptionsError::ZeroFps));
    let mut zero_bitrate = options("job", None);
    zero_bitrate.video_bitrate_kbps = 0;
    assert_eq!(validate_options(&zero_bitrate), Err(OptionsError::ZeroBitrate));
    let mut zero_duration = options("job", None);
    zero_duration.segment_duration_ms = 0;
    assert_eq!(validate_options(&zero_duration), Err(OptionsError::ZeroSegmentDuration));
}

#[test]
fn dimensions_are_rounded_up_to_even() {
    assert_eq!(even_dimension(81), Ok(82));
    assert_eq!(even_dimension(46), Ok(46));
    assert_eq!(even_dimension(0), Err(DimensionError::Zero));
    assert_eq!(even_dimension(u32::MAX), Err(DimensionError::TooLarge));
}

#[test]
fn frames_must_keep_their_size() {
    let frame = CapturedFrame { width: 2, height: 1, rgba: vec![0; 8] };
    assert_eq!(validate_frame(&frame, 2, 1), Ok(()));
    assert_eq!(validate_frame(&frame, 1, 2), Err(FrameError::DimensionsChanged));
    let short = CapturedFrame { width: 2, height: 1, rgba: vec![0; 7] };
    assert_eq!(validate_frame(&short, 2, 1), Err(FrameError::WrongLength));
}

#[test]
fn meta_describes_an_h264_matroska_job() {
    let source = TestPatternSource::new(81, 45).info();
    let meta = job_meta(&options("job-test", Some(2)), &source, 1_000).unwrap();
    assert_eq!(meta.job_id, "job-test");
    assert_eq!(meta.created_at_unix_ms, 1_000);
    assert_eq!(meta.video.codec, "h264");
    assert_eq!(meta.video.container, "matroska");
    assert_eq!(meta.video.file_extension, "mkv");
    assert_eq!(meta.video.encoded_width, 82);
    assert_eq!(meta.video.encoded_height, 46);
    assert_eq!(meta.video.key_frame_interval_frames, 20);
    assert_eq!(meta.video.segment_duration_ms, 120);
    assert_eq!(meta.capture.fps, 20);
    assert_eq!(check_resume(&meta, &meta), Ok(()));
    let other = job_meta(&options("job-other", Some(2)), &source, 1_000).unwrap();
    assert_eq!(check_resume(&meta, &other), Err(RunError::MetaMismatch));
}

#[test]
fn key_frames_follow_whole_segment_seconds() {
    let source = TestPatternSource::new(10, 10).info();
    let mut long = options("job", None);
    long.segment_duration_ms = 5_999;
    assert_eq!(job_meta(&long, &source, 0).unwrap().video.key_frame_interval_frames, 100);
    long.fps = u32::MAX;
    assert_eq!(job_meta(&long, &source, 0).unwrap().video.key_frame_interval_frames, u32::MAX);
}

#[test]
fn meta_refuses_empty_sources() {
    let source = CaptureSourceInfo {
        kind: CaptureSourceKind::X11Window,
        id: "0x1".into(),
        title: "t".into(),
        width: 0,
        height: 10,
        visible: true,
    };
    assert_eq!(job_meta(&options("job", None), &source, 0).err(), Some(DimensionError::Zero));
}

#[test]
fn segment_names_are_zero_padded() {
    assert_eq!(segment_file_name_of(3), "00000003.mkv");
    assert_eq!(segment_temporary_name_of(3), ".00000003.mkv.tmp");
    assert_eq!(segment_relative_path_of(3), "videos/00000003.mkv");
    assert_eq!(segment_file_name_of(123_456_789), "123456789.mkv");
}

#[test]
fn segment_numbers_are_read_from_mkv_names() {
    assert_eq!(segment_number_of("00000007.mkv"), Some(7));
    assert_eq!(segment_number_of(".00000007.mkv.tmp"), None);
    assert_eq!(segment_number_of(".mkv"), None);
    assert_eq!(segment_number_of("notes.txt"), None);
    assert_eq!(segment_number_of("a.b.mkv"), None);
    assert_eq!(segment_number_of("+5.mkv"), Some(5));
    assert_eq!(segment_number_of(".."), None);
}

#[test]
fn next_segment_follows_the_largest() {
    assert_eq!(next_segment_sequence(&names(&[])), 1);
    assert_eq!(
        next_segment_sequence(&names(&["00000001.mkv", "00000002.mkv", ".00000009.mkv.tmp", "x.mkv"])),
        3
    );
    assert_eq!(max_segment_sequence(&names(&["18446744073709551615.mkv"])), u64::MAX);
}

#[test]
fn segment_ends_follow_frames_and_failures() {
    assert_eq!(segment_end(0, false), SegmentEnd::DiscardAndStop);
    assert_eq!(segment_end(0, true), SegmentEnd::DiscardAndFail);
    assert_eq!(segment_end(3, false), SegmentEnd::Commit);
    assert_eq!(segment_end(3, true), SegmentEnd::CommitAndFail);
    assert!(segment_continues(10, 120, false));
    assert!(!segment_continues(120, 120, false));
    assert!(!segment_continues(10, 120, true));
}

#[test]
fn commits_segments_and_resumes_after_them() {
    let events = open_events(None, "job-test").unwrap();
    let mut run = CaptureRun::start(events, false, 1, Some(2), 100, 4242);
    assert!(!run.should_stop(false));
    for segment in 0..2u64 {
        assert_eq!(run.current_sequence(), 1 + segment);
        run.complete_segment(200, 320, 120, 3, 2048);
        assert!(run.should_stop(false) == (segment == 1));
    }
    let summary = run.finish(500, "/tmp/job-test");
    assert_eq!(summary.segments, 2);
    assert_eq!(summary.frames, 6);
    assert_eq!(summary.job_directory, "/tmp/job-test");
    let document = run.events().clone();
    assert_eq!(document.job_id, "job-test");
    assert_eq!(document.events.len(), 4);
    assert_eq!(document.revision, 4);
    assert!(matches!(document.events[0], CaptureEvent::JobStarted { pid: 4242, .. }));
    assert!(matches!(document.events[1], CaptureEvent::VideoSegmentCompleted { sequence: 1, .. }));
    match &document.events[2] {
        CaptureEvent::VideoSegmentCompleted { sequence, path, frame_count, .. } => {
            assert_eq!(*sequence, 2);
            assert_eq!(path, "videos/00000002.mkv");
            assert_eq!(*frame_count, 3);
        }
        _ => panic!("expected a segment"),
    }
    assert!(matches!(document.events[3], CaptureEvent::JobStopped { segments: 2, frames: 6, .. }));

    let existing = names(&["00000001.mkv", "00000002.mkv"]);
    let first = next_segment_sequence(&existing);
    let reopened = open_events(Some(document), "job-test").unwrap();
    let mut resumed = CaptureRun::start(reopened, true, first, Some(1), 600, 4243);
    resumed.complete_segment(600, 720, 120, 2, 1024);
    assert!(resumed.should_stop(false));
    resumed.finish(800, "/tmp/job-test");
    let document = resumed.events();
    assert_eq!(document.events.len(), 7);
    assert!(matches!(document.events[4], CaptureEvent::JobResumed { .. }));
    assert!(matches!(document.events[5], CaptureEvent::VideoSegmentCompleted { sequence: 3, .. }));
    assert!(matches!(document.events[6], CaptureEvent::JobStopped { segments: 1, frames: 2, .. }));
}

#[test]
fn failures_are_recorded_as_gaps() {
    let events = open_events(None, "job-gap").unwrap();
    let mut run = CaptureRun::start(events, false, 1, None, 0, 1);
    run.record_gap("source_closed", 50);
    let document = run.events();
    assert_eq!(document.events.len(), 2);
    match &document.events[1] {
        CaptureEvent::CaptureGap { reason, occurred_at_unix_ms } => {
            assert_eq!(reason, "source_closed");
            assert_eq!(*occurred_at_unix_ms, 50);
        }
        _ => panic!("expected a gap"),
    }
    assert!(run.should_stop(true));
    assert!(!run.should_stop(false));
}

#[test]
fn events_of_another_job_are_refused() {
    let other = open_events(None, "job-a").unwrap();
    assert_eq!(open_events(Some(other), "job-b").err(), Some(RunError::EventsBelongToAnotherJob));
}

#[test]
fn extensions_follow_the_last_dot() {
    assert_eq!(extension_of("00000001.mkv"), Some("mkv".to_string()));
    assert_eq!(extension_of("archive.tar.gz"), Some("gz".to_string()));
    assert_eq!(extension_of(".hidden"), None);
    assert_eq!(extension_of("plain"), None);
    assert_eq!(extension_of(".."), None);
    assert_eq!(extension_of("name."), Some(String::new()));
}
