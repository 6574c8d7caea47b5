use capture_agent::launcher::{capture_permission_request, program_candidates, snapshot_arguments, ProgramBase};
use capture_agent::launcher::{
    capture_agent_arguments, capture_job_id, capture_permission_status, check_start_request,
    selectable_candidates, StartCaptureRequest, StartError,
};
use capture_agent::platform::Platform;
use capture_agent::protocol::{AgentLease, AgentState, ApplicationInfo, NativeTarget, WindowCandidate};

fn request(output_root: &str) -> StartCaptureRequest {
    StartCaptureRequest {
        target: NativeTarget { kind: "x11-window".into(), value: "0x2a".into() },
        title: "Editor".into(),
        output_root: output_root.into(),
        fps: 10,
        segment_seconds: 5,
        bitrate_kbps: 2048,
    }
}

fn candidate(value: &str, visible: bool) -> WindowCandidate {
    let target = NativeTarget { kind: "x11-window".into(), value: value.into() };
    WindowCandidate {
        candidate_id: target.key(),
        application: ApplicationInfo { group_id: "g".into(), display_name: "a".into(), process_id: None, icon_path: None },
        title: "t".into(),
        visible,
        capturable: visible,
        unavailable_reason: None,
        thumbnail_path: None,
        width: 1,
        height: 1,
        native_target: target,
    }
}

#[test]
fn permission_is_only_required_on_macos() {
    let linux = capture_permission_status(Platform::Linux, false);
    assert!(!linux.required && linux.granted);
    let macos = capture_permission_status(Platform::Macos, false);
    assert!(macos.required && !macos.granted);
    assert_eq!(macos.settings_label, "隐私与安全性 → 屏幕与系统录音");
    assert_eq!(check_start_request(&macos, &request("/videos")), Err(StartError::PermissionMissing));
    assert_eq!(check_start_request(&linux, &request("  ")), Err(StartError::EmptyOutputRoot));
    assert_eq!(check_start_request(&linux, &request("/videos")), Ok(()));
}

#[test]
fn job_ids_combine_time_and_process() {
    assert_eq!(capture_job_id(0x18F2A3B4C5D, 4242), "18F2A3B4C5D-4242");
}

#[test]
fn agent_is_started_without_segment_limit() {
    let arguments = capture_agent_arguments(&request("/videos"), "/videos/2024-01-01/JOB", "JOB");
    assert_eq!(
        arguments,
        vec![
            "run", "--target-kind", "x11-window", "--window-id", "0x2a", "--output",
            "/videos/2024-01-01/JOB", "--job-id", "JOB", "--fps", "10", "--segment-seconds", "5",
            "--video-bitrate-kbps", "2048", "--segments", "0",
        ]
    );
}

#[test]
fn hidden_windows_are_offered_only_while_captured() {
    let target = NativeTarget { kind: "x11-window".into(), value: "0x2".into() };
    let lease = AgentLease {
        schema_version: 1,
        agent_id: "a".into(),
        job_id: "j".into(),
        pid: 1,
        target_key: target.key(),
        target,
        output_directory: "o".into(),
        state: AgentState::Capturing,
        started_at_unix_ms: 0,
        heartbeat_at_unix_ms: 0,
        segments: 0,
        recorded_duration_ms: 0,
    };
    let kept = selectable_candidates(
        vec![candidate("0x1", true), candidate("0x2", false), candidate("0x3", false)],
        &[lease],
    );
    let ids: Vec<&str> = kept.iter().map(|c| c.native_target.value.as_str()).collect();
    assert_eq!(ids, vec!["0x1", "0x2"]);
}

#[test]
fn capture_programs_are_looked_for_in_three_places() {
    let candidates = program_candidates(Platform::Windows, "capture-agent");
    assert_eq!(candidates.len(), 3);
    assert_eq!(candidates[0], (ProgramBase::Executable, vec!["bin".to_string(), "capture-agent.exe".to_string()]));
    assert_eq!(candidates[1], (ProgramBase::Resources, vec!["bin".to_string(), "capture-agent.exe".to_string()]));
    assert_eq!(
        candidates[2],
        (
            ProgramBase::Development,
            vec!["../../capture-agent/target/debug".to_string(), "capture-agent.exe".to_string()]
        )
    );
    assert_eq!(program_candidates(Platform::Linux, "window-enumerator")[0].1[1], "window-enumerator");
}

#[test]
fn snapshots_are_requested_as_json_with_thumbnails() {
    assert_eq!(
        snapshot_arguments("/run/omni/thumbnails"),
        vec!["snapshot", "--json", "--thumbnail-dir", "/run/omni/thumbnails"]
    );
}

#[test]
fn permission_requests_matter_only_on_macos() {
    assert!(capture_permission_request(Platform::Linux, false));
    assert!(capture_permission_request(Platform::Windows, false));
    assert!(!capture_permission_request(Platform::Macos, false));
    assert!(capture_permission_request(Platform::Macos, true));
}
