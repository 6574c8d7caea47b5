//! Decisions of the desktop launcher that supervises capture agents: the
//! screen-capture permission, which windows are offered, how a capture job
//! is named and how the capture agent is invoked for it.

use vstd::prelude::*;

use crate::cli::{executable_file_name, executable_name};
use crate::platform::Platform;
use crate::protocol::{target_key, AgentLease, NativeTarget, WindowCandidate};
use crate::text::{blank, concat, decimal, digits, format_digits, is_blank, string_of};

verus! {

broadcast use vstd::string::group_string_axioms;

/// A request from the launcher's window to capture one window.
pub struct StartCaptureRequest {
    pub target: NativeTarget,
    pub title: String,
    pub output_root: String,
    pub fps: u32,
    pub segment_seconds: u64,
    pub bitrate_kbps: u32,
}

/// Whether the platform requires, and the user has granted, the permission
/// to record the screen.
pub struct CapturePermissionStatus {
    pub required: bool,
    pub granted: bool,
    pub settings_label: String,
}

/// The settings page where the permission is granted.
pub open spec fn permission_settings_label() -> Seq<char> {
    "隐私与安全性 → 屏幕与系统录音"@
}

/// The permission status on `platform`, where `screen_capture_allowed` is
/// what macOS reports; other platforms need no permission.
pub fn capture_permission_status(platform: Platform, screen_capture_allowed: bool) -> (status: CapturePermissionStatus)
    ensures
        status.required == (platform == Platform::Macos),
        status.granted == (platform != Platform::Macos || screen_capture_allowed),
        status.settings_label@ == permission_settings_label(),
{
    let macos = match platform {
        Platform::Macos => true,
        _ => false,
    };
    CapturePermissionStatus {
        required: macos,
        granted: !macos || screen_capture_allowed,
        settings_label: "隐私与安全性 → 屏幕与系统录音".to_string(),
    }
}

/// The answer to a request for the permission: platforms other than macOS
/// need none, on macOS it is what the system answered (`macos_answer`).
pub fn capture_permission_request(platform: Platform, macos_answer: bool) -> (granted: bool)
    ensures
        granted == (platform != Platform::Macos || macos_answer),
{
    match platform {
        Platform::Macos => macos_answer,
        _ => true,
    }
}

/// Why the launcher refused to start a capture.
#[derive(Debug, Clone, Copy, PartialEq, Eq, Structural)]
pub enum StartError {
    /// The screen-capture permission is missing.
    PermissionMissing,
    /// The output directory is empty.
    EmptyOutputRoot,
}

/// Checks a capture request: the permission first, then the output root.
pub fn check_start_request(status: &CapturePermissionStatus, request: &StartCaptureRequest) -> (result: Result<(), StartError>)
    ensures
        result == if !status.granted {
            Err(StartError::PermissionMissing)
        } else if is_blank(request.output_root@) {
            Err(StartError::EmptyOutputRoot)
        } else {
            Ok(())
        },
{
    if !status.granted {
        return Err(StartError::PermissionMissing);
    }
    if blank(request.output_root.as_str()) {
        return Err(StartError::EmptyOutputRoot);
    }
    Ok(())
}

/// The id of a capture job started at `now_ms` by process `pid`: the time in
/// upper-case hexadecimal, a dash, and the process id in decimal.
pub open spec fn job_id_text(now_ms: u64, pid: u32) -> Seq<char> {
    digits(now_ms as nat, 16, true) + seq!['-'] + digits(pid as nat, 10, false)
}

/// Names a capture job; see [`job_id_text`].
pub fn capture_job_id(now_ms: u64, pid: u32) -> (id: String)
    ensures
        id@ == job_id_text(now_ms, pid),
{
    let time = string_of(format_digits(now_ms, 16, true).as_slice());
    let with_dash = concat(time.as_str(), "-");
    let process = decimal(pid as u64);
    proof {
        reveal_strlit("-");
    }
    concat(with_dash.as_str(), process.as_str())
}

/// The command-line arguments of a capture agent that captures the
/// requested target into `output_directory` as job `job_id`, with no
/// segment limit.
pub open spec fn agent_arguments(request: StartCaptureRequest, output_directory: Seq<char>, job_id: Seq<char>) -> Seq<Seq<char>> {
    seq![
        "run"@,
        "--target-kind"@,
        request.target.kind@,
        "--window-id"@,
        request.target.value@,
        "--output"@,
        output_directory,
        "--job-id"@,
        job_id,
        "--fps"@,
        digits(request.fps as nat, 10, false),
        "--segment-seconds"@,
        digits(request.segment_seconds as nat, 10, false),
        "--video-bitrate-kbps"@,
        digits(request.bitrate_kbps as nat, 10, false),
        "--segments"@,
        "0"@,
    ]
}

/// Builds the capture agent's arguments; see [`agent_arguments`].
pub fn capture_agent_arguments(request: &StartCaptureRequest, output_directory: &str, job_id: &str) -> (arguments: Vec<String>)
    ensures
        arguments@.map_values(|argument: String| argument@) == agent_arguments(
            *request,
            output_directory@,
            job_id@,
        ),
{
    let mut arguments: Vec<String> = Vec::new();
    arguments.push("run".to_string());
    arguments.push("--target-kind".to_string());
    arguments.push(request.target.kind.clone());
    arguments.push("--window-id".to_string());
    arguments.push(request.target.value.clone());
    arguments.push("--output".to_string());
    arguments.push(output_directory.to_string());
    arguments.push("--job-id".to_string());
    arguments.push(job_id.to_string());
    arguments.push("--fps".to_string());
    arguments.push(decimal(request.fps as u64));
    arguments.push("--segment-seconds".to_string());
    arguments.push(decimal(request.segment_seconds));
    arguments.push("--video-bitrate-kbps".to_string());
    arguments.push(decimal(request.bitrate_kbps as u64));
    arguments.push("--segments".to_string());
    arguments.push("0".to_string());
    proof {
        assert(arguments@.map_values(|argument: String| argument@) =~= agent_arguments(
            *request,
            output_directory@,
            job_id@,
        ));
    }
    arguments
}

/// A directory the launcher looks for its capture programs in.
#[derive(Debug, Clone, Copy, PartialEq, Eq, Structural)]
pub enum ProgramBase {
    /// The directory of the launcher's own executable.
    Executable,
    /// The launcher's resource directory.
    Resources,
    /// The crate directory of a development build.
    Development,
}

/// Where the launcher looks for capture program `name`, in this order:
/// `bin` beside its executable, `bin` in its resources, and the debug
/// build of the capture workspace.
pub open spec fn program_locations(platform: Platform, name: Seq<char>) -> Seq<(ProgramBase, Seq<Seq<char>>)> {
    seq![
        (ProgramBase::Executable, seq!["bin"@, executable_name(platform, name)]),
        (ProgramBase::Resources, seq!["bin"@, executable_name(platform, name)]),
        (
            ProgramBase::Development,
            seq!["../../capture-agent/target/debug"@, executable_name(platform, name)],
        ),
    ]
}

/// The places to look for a capture program; see [`program_locations`].
pub fn program_candidates(platform: Platform, name: &str) -> (candidates: Vec<(ProgramBase, Vec<String>)>)
    ensures
        candidates@.len() == 3,
        forall|i: int|
            0 <= i < 3 ==> ((#[trigger] candidates@[i]).0, candidates@[i].1@.map_values(
                |part: String| part@,
            )) == program_locations(platform, name@)[i],
{
    let mut candidates: Vec<(ProgramBase, Vec<String>)> = Vec::new();
    let mut packaged: Vec<String> = Vec::new();
    packaged.push("bin".to_string());
    packaged.push(executable_file_name(platform, name));
    let mut resources: Vec<String> = Vec::new();
    resources.push("bin".to_string());
    resources.push(executable_file_name(platform, name));
    let mut development: Vec<String> = Vec::new();
    development.push("../../capture-agent/target/debug".to_string());
    development.push(executable_file_name(platform, name));
    candidates.push((ProgramBase::Executable, packaged));
    candidates.push((ProgramBase::Resources, resources));
    candidates.push((ProgramBase::Development, development));
    proof {
        let expected = program_locations(platform, name@);
        assert(candidates@[0].1@.map_values(|part: String| part@) =~= expected[0].1);
        assert(candidates@[1].1@.map_values(|part: String| part@) =~= expected[1].1);
        assert(candidates@[2].1@.map_values(|part: String| part@) =~= expected[2].1);
    }
    candidates
}

/// The arguments with which the launcher asks the window enumerator for a
/// JSON snapshot with thumbnails written to `thumbnail_directory`.
pub fn snapshot_arguments(thumbnail_directory: &str) -> (arguments: Vec<String>)
    ensures
        arguments@.map_values(|argument: String| argument@) == seq![
            "snapshot"@,
            "--json"@,
            "--thumbnail-dir"@,
            thumbnail_directory@,
        ],
{
    let mut arguments: Vec<String> = Vec::new();
    arguments.push("snapshot".to_string());
    arguments.push("--json".to_string());
    arguments.push("--thumbnail-dir".to_string());
    arguments.push(thumbnail_directory.to_string());
    proof {
        assert(arguments@.map_values(|argument: String| argument@) =~= seq![
            "snapshot"@,
            "--json"@,
            "--thumbnail-dir"@,
            thumbnail_directory@,
        ]);
    }
    arguments
}

/// Whether some lease captures the target with key `key`.
pub open spec fn captured_by_any(leases: Seq<AgentLease>, key: Seq<char>) -> bool {
    exists|i: int| 0 <= i < leases.len() && #[trigger] leases[i].target_key@ == key
}

/// The candidates the launcher offers, in order: the visible ones, and the
/// hidden ones that an active agent is already capturing.
pub open spec fn offered(candidates: Seq<WindowCandidate>, leases: Seq<AgentLease>) -> Seq<WindowCandidate>
    decreases candidates.len(),
{
    if candidates.len() == 0 {
        Seq::empty()
    } else {
        let earlier = offered(candidates.drop_last(), leases);
        let last = candidates.last();
        if last.visible || captured_by_any(
            leases,
            target_key(last.native_target.kind@, last.native_target.value@),
        ) {
            earlier.push(last)
        } else {
            earlier
        }
    }
}

fn captured(leases: &[AgentLease], key: &String) -> (found: bool)
    ensures
        found == captured_by_any(leases@, key@),
{
    let mut i: usize = 0;
    while i < leases.len()
        invariant
            i <= leases@.len(),
            forall|j: int| 0 <= j < i ==> #[trigger] leases@[j].target_key@ != key@,
        decreases leases@.len() - i,
    {
        if leases[i].target_key == *key {
            return true;
        }
        i = i + 1;
    }
    false
}

/// Keeps the candidates the launcher offers; see [`offered`].
pub fn selectable_candidates(candidates: Vec<WindowCandidate>, active_leases: &[AgentLease]) -> (kept: Vec<WindowCandidate>)
    ensures
        kept@ == offered(candidates@, active_leases@),
{
    let ghost all = candidates@;
    let mut kept: Vec<WindowCandidate> = Vec::new();
    for candidate in it: candidates.into_iter()
        invariant
            it.seq() == all,
            kept@ == offered(all.take(it.index() as int), active_leases@),
    {
        proof {
            let i = it.index() as int;
            assert(all.take(i + 1).drop_last() =~= all.take(i));
            assert(all.take(i + 1).last() == candidate);
        }
        let key = candidate.native_target.key();
        if candidate.visible || captured(active_leases, &key) {
            kept.push(candidate);
        }
    }
    proof {
        assert(all.take(all.len() as int) =~= all);
    }
    kept
}

} // verus!
