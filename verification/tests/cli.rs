use capture_agent::cli::{select_source, sibling_candidates, SourceArg, SourceSelection};
use capture_agent::cli::{
    check_run_arguments, default_job_id, delegated_arguments, executable_file_name, exit_code,
    runtime_candidates, runtime_name, segment_limit, snapshot_line, ArgumentError,
};
use capture_agent::platform::Platform;
use capture_agent::protocol::{CaptureSourceInfo, CaptureSourceKind};

#[test]
fn run_arguments_are_checked_in_order() {
    assert_eq!(check_run_arguments(0, true, true), Err(ArgumentError::ZeroSegmentSeconds));
    assert_eq!(check_run_arguments(5, true, true), Err(ArgumentError::SourceAndTargetKind));
    assert_eq!(check_run_arguments(5, true, false), Ok(()));
    assert_eq!(check_run_arguments(5, false, true), Ok(()));
}

#[test]
fn job_id_defaults_to_the_directory_name() {
    assert_eq!(
        default_job_id(Some("given".to_string()), Some("dir".to_string())),
        Some("given".to_string())
    );
    assert_eq!(default_job_id(None, Some("dir".to_string())), Some("dir".to_string()));
    assert_eq!(default_job_id(None, None), None);
}

#[test]
fn zero_segments_means_no_limit() {
    assert_eq!(segment_limit(0), None);
    assert_eq!(segment_limit(3), Some(3));
}

#[test]
fn exit_codes_follow_the_failure() {
    assert_eq!(exit_code(true, "anything"), 20);
    assert_eq!(exit_code(false, "--job-id is required"), 2);
    assert_eq!(exit_code(false, "fps must be greater than zero"), 2);
    assert_eq!(exit_code(false, "invalid window id"), 2);
    assert_eq!(exit_code(false, "disk full"), 70);
}

#[test]
fn snapshot_lines_are_tab_separated() {
    let info = CaptureSourceInfo {
        kind: CaptureSourceKind::X11Window,
        id: "0x2a".to_string(),
        title: "Editor".to_string(),
        width: 640,
        height: 480,
        visible: true,
    };
    assert_eq!(snapshot_line(&info), "0x2a\t640x480\tvisible\tEditor");
    let hidden = CaptureSourceInfo { visible: false, ..info };
    assert_eq!(snapshot_line(&hidden), "0x2a\t640x480\thidden\tEditor");
}

#[test]
fn executables_get_an_exe_suffix_on_windows() {
    assert_eq!(executable_file_name(Platform::Windows, "capture-agent"), "capture-agent.exe");
    assert_eq!(executable_file_name(Platform::Linux, "capture-agent"), "capture-agent");
    assert_eq!(executable_file_name(Platform::Macos, "capture-agent"), "capture-agent");
}

#[test]
fn runtime_library_is_searched_in_three_places() {
    assert_eq!(runtime_name(Platform::Linux), "libcapture_runtime.so");
    assert_eq!(runtime_name(Platform::Macos), "libcapture_runtime.dylib");
    assert_eq!(runtime_name(Platform::Windows), "capture_runtime.dll");
    let candidates = runtime_candidates(Platform::Linux);
    assert_eq!(
        candidates,
        vec![
            vec!["..", "lib", "libcapture_runtime.so"],
            vec!["..", "..", "lib", "libcapture_runtime.so"],
            vec!["libcapture_runtime.so"],
        ]
    );
}

#[test]
fn delegated_arguments_start_with_the_subcommand() {
    let delegated = delegated_arguments(
        "run".to_string(),
        vec!["--job-id".to_string(), "job-1".to_string()],
    );
    assert_eq!(delegated, vec!["run", "--job-id", "job-1"]);
    assert_eq!(delegated_arguments("doctor".to_string(), Vec::new()), vec!["doctor"]);
}

#[test]
fn sources_are_chosen_from_the_arguments() {
    assert_eq!(select_source(Some(SourceArg::TestPattern), None, None), Ok(SourceSelection::TestPattern));
    assert_eq!(
        select_source(Some(SourceArg::X11), None, Some("0x2a".to_string())),
        Ok(SourceSelection::X11 { window_id: "0x2a".to_string() })
    );
    assert_eq!(select_source(Some(SourceArg::X11), None, None), Err(ArgumentError::X11WindowIdRequired));
    assert_eq!(select_source(None, None, Some("1".to_string())), Err(ArgumentError::TargetKindRequired));
    assert_eq!(
        select_source(None, Some("x11-window".to_string()), None),
        Err(ArgumentError::WindowIdRequired)
    );
    assert_eq!(
        select_source(None, Some("x11-window".to_string()), Some("1".to_string())),
        Ok(SourceSelection::Native { target_kind: "x11-window".to_string(), window_id: "1".to_string() })
    );
}

#[test]
fn siblings_are_looked_for_in_bin_first() {
    assert_eq!(
        sibling_candidates(Platform::Windows, "capture-agent"),
        vec![vec!["bin".to_string(), "capture-agent.exe".to_string()], vec!["capture-agent.exe".to_string()]]
    );
    assert_eq!(sibling_candidates(Platform::Linux, "window-enumerator")[1], vec!["window-enumerator"]);
}
