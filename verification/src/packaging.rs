//! The build tasks' decisions: which target triple a package is built for,
//! where the portable package is laid out and which programs go where, and
//! the cargo invocations of the build and demo tasks.

use vstd::prelude::*;

use crate::settings::{declares_workspace, is_workspace_manifest};
use crate::text::{chars_of, concat, decimal, digits, find_first, occurs_at};

verus! {

broadcast use vstd::string::group_string_axioms;

/// The target a package is requested for.
#[derive(Debug, Clone, Copy, PartialEq, Eq, Structural)]
pub enum TargetArg {
    /// The host the task runs on.
    Current,
    /// 64-bit Windows.
    WindowsX64,
    /// macOS on Apple silicon.
    MacosArm64,
    /// macOS on Intel.
    MacosX64,
    /// 64-bit Linux.
    LinuxX64,
}

/// The target triple of a request on host `host`.
pub open spec fn target_triple(requested: TargetArg, host: Seq<char>) -> Seq<char> {
    match requested {
        TargetArg::Current => host,
        TargetArg::WindowsX64 => "x86_64-pc-windows-msvc"@,
        TargetArg::MacosArm64 => "aarch64-apple-darwin"@,
        TargetArg::MacosX64 => "x86_64-apple-darwin"@,
        TargetArg::LinuxX64 => "x86_64-unknown-linux-gnu"@,
    }
}

/// The target triple of a request; see [`target_triple`].
pub fn resolve_target(requested: TargetArg, host: &str) -> (target: String)
    ensures
        target@ == target_triple(requested, host@),
{
    match requested {
        TargetArg::Current => host.to_string(),
        TargetArg::WindowsX64 => "x86_64-pc-windows-msvc".to_string(),
        TargetArg::MacosArm64 => "aarch64-apple-darwin".to_string(),
        TargetArg::MacosX64 => "x86_64-apple-darwin".to_string(),
        TargetArg::LinuxX64 => "x86_64-unknown-linux-gnu".to_string(),
    }
}

/// Why a package cannot be built here.
#[derive(Debug, Clone, Copy, PartialEq, Eq, Structural)]
pub enum PackageError {
    /// A full package is built only on its own target.
    ForeignTarget,
}

/// Accepts a package target only when it is the host.
pub fn check_package_target(target: &String, host: &String) -> (result: Result<(), PackageError>)
    ensures
        result is Ok <==> target@ == host@,
        result is Err ==> result == Err::<(), PackageError>(PackageError::ForeignTarget),
{
    if target.eq(host) {
        Ok(())
    } else {
        Err(PackageError::ForeignTarget)
    }
}

/// The suffix of executables built for `target`: `.exe` for a Windows
/// triple.
pub open spec fn executable_suffix(target: Seq<char>) -> Seq<char> {
    if exists|at: int| #[trigger] occurs_at(target, "windows"@, at) {
        ".exe"@
    } else {
        ""@
    }
}

/// The executable suffix of `target`; see [`executable_suffix`].
pub fn binary_suffix(target: &str) -> (suffix: &'static str)
    ensures
        suffix@ == executable_suffix(target@),
{
    let chars = chars_of(target);
    let pattern = chars_of("windows");
    match find_first(chars.as_slice(), pattern.as_slice()) {
        Some(_) => ".exe",
        None => "",
    }
}

/// Where a packaged program goes.
#[derive(Debug, Clone, Copy, PartialEq, Eq, Structural)]
pub enum PackageDestination {
    /// The application directory itself.
    App,
    /// Its `bin` directory.
    Bin,
}

/// The programs of a package for `target`, with their destinations: the
/// entry point in the application directory, the capture agent and the
/// window enumerator in `bin`.
pub open spec fn packaged_programs(target: Seq<char>) -> Seq<(Seq<char>, PackageDestination)> {
    seq![
        ("omni-inlet"@ + executable_suffix(target), PackageDestination::App),
        ("capture-agent"@ + executable_suffix(target), PackageDestination::Bin),
        ("window-enumerator"@ + executable_suffix(target), PackageDestination::Bin),
    ]
}

/// The programs a package holds; see [`packaged_programs`].
pub fn package_binaries(target: &str) -> (programs: Vec<(String, PackageDestination)>)
    ensures
        programs@.map_values(|program: (String, PackageDestination)| (program.0@, program.1))
            == packaged_programs(target@),
{
    let suffix = binary_suffix(target);
    let mut programs: Vec<(String, PackageDestination)> = Vec::new();
    programs.push((concat("omni-inlet", suffix), PackageDestination::App));
    programs.push((concat("capture-agent", suffix), PackageDestination::Bin));
    programs.push((concat("window-enumerator", suffix), PackageDestination::Bin));
    proof {
        assert(programs@.map_values(|program: (String, PackageDestination)| (program.0@, program.1))
            =~= packaged_programs(target@));
    }
    programs
}

/// The directories created in the application directory of a package.
pub fn package_directories() -> (directories: Vec<&'static str>)
    ensures
        directories@.map_values(|directory: &'static str| directory@) == seq![
            "bin"@,
            "lib"@,
            "resources"@,
            "licenses"@,
        ],
{
    let mut directories: Vec<&'static str> = Vec::new();
    directories.push("bin");
    directories.push("lib");
    directories.push("resources");
    directories.push("licenses");
    proof {
        assert(directories@.map_values(|directory: &'static str| directory@) =~= seq![
            "bin"@,
            "lib"@,
            "resources"@,
            "licenses"@,
        ]);
    }
    directories
}

/// The application directory of the package of `version` for `target`,
/// as path components below the workspace root.
pub fn package_location(version: &str, target: &str) -> (components: Vec<String>)
    ensures
        components@.map_values(|component: String| component@) == seq![
            "dist"@,
            version@,
            target@,
            "app"@,
        ],
{
    let mut components: Vec<String> = Vec::new();
    components.push("dist".to_string());
    components.push(version.to_string());
    components.push(target.to_string());
    components.push("app".to_string());
    proof {
        assert(components@.map_values(|component: String| component@) =~= seq![
            "dist"@,
            version@,
            target@,
            "app"@,
        ]);
    }
    components
}

/// Where cargo leaves the release build of program `name` for `target`,
/// as path components below the workspace root.
pub fn release_binary(target: &str, name: &str) -> (components: Vec<String>)
    ensures
        components@.map_values(|component: String| component@) == seq![
            "target"@,
            target@,
            "release"@,
            name@,
        ],
{
    let mut components: Vec<String> = Vec::new();
    components.push("target".to_string());
    components.push(target.to_string());
    components.push("release".to_string());
    components.push(name.to_string());
    proof {
        assert(components@.map_values(|component: String| component@) =~= seq![
            "target"@,
            target@,
            "release"@,
            name@,
        ]);
    }
    components
}

/// The cargo arguments that build the release programs for `target`.
pub open spec fn release_build_args(target: Seq<char>) -> Seq<Seq<char>> {
    seq![
        "build"@,
        "--release"@,
        "-p"@,
        "capture-agent"@,
        "--bins"@,
        "--target"@,
        target,
    ]
}

/// The cargo arguments of a release build; see [`release_build_args`].
pub fn release_build_arguments(target: &str) -> (arguments: Vec<String>)
    ensures
        arguments@.map_values(|argument: String| argument@) == release_build_args(target@),
{
    let mut arguments: Vec<String> = Vec::new();
    arguments.push("build".to_string());
    arguments.push("--release".to_string());
    arguments.push("-p".to_string());
    arguments.push("capture-agent".to_string());
    arguments.push("--bins".to_string());
    arguments.push("--target".to_string());
    arguments.push(target.to_string());
    proof {
        assert(arguments@.map_values(|argument: String| argument@) =~= release_build_args(target@));
    }
    arguments
}

/// The job id of a demo started at `now_ms`.
pub fn demo_job_id(now_ms: u64) -> (id: String)
    ensures
        id@ == "demo-"@ + digits(now_ms as nat, 10, false),
{
    let number = decimal(now_ms);
    concat("demo-", number.as_str())
}

/// The cargo arguments that run the capture agent on the test pattern for
/// `segments` segments of `segment_seconds` seconds, as job `job_id` in
/// `output`.
pub open spec fn demo_args(segments: u64, segment_seconds: u64, job_id: Seq<char>, output: Seq<char>) -> Seq<Seq<char>> {
    seq![
        "run"@,
        "-p"@,
        "capture-agent"@,
        "--bin"@,
        "capture-agent"@,
        "--"@,
        "run"@,
        "--source"@,
        "test-pattern"@,
        "--segments"@,
        digits(segments as nat, 10, false),
        "--segment-seconds"@,
        digits(segment_seconds as nat, 10, false),
        "--job-id"@,
        job_id,
        "--output"@,
        output,
    ]
}

/// The cargo arguments of the demo task; see [`demo_args`].
pub fn demo_arguments(segments: u64, segment_seconds: u64, job_id: &str, output: &str) -> (arguments: Vec<String>)
    ensures
        arguments@.map_values(|argument: String| argument@) == demo_args(
            segments,
            segment_seconds,
            job_id@,
            output@,
        ),
{
    let mut arguments: Vec<String> = Vec::new();
    arguments.push("run".to_string());
    arguments.push("-p".to_string());
    arguments.push("capture-agent".to_string());
    arguments.push("--bin".to_string());
    arguments.push("capture-agent".to_string());
    arguments.push("--".to_string());
    arguments.push("run".to_string());
    arguments.push("--source".to_string());
    arguments.push("test-pattern".to_string());
    arguments.push("--segments".to_string());
    arguments.push(decimal(segments));
    arguments.push("--segment-seconds".to_string());
    arguments.push(decimal(segment_seconds));
    arguments.push("--job-id".to_string());
    arguments.push(job_id.to_string());
    arguments.push("--output".to_string());
    arguments.push(output.to_string());
    proof {
        assert(arguments@.map_values(|argument: String| argument@) =~= demo_args(
            segments,
            segment_seconds,
            job_id@,
            output@,
        ));
    }
    arguments
}

/// Whether a directory, whose `Cargo.toml` holds `manifest` if it is a
/// readable file, is a workspace root.
pub open spec fn is_workspace_root(manifest: Option<String>) -> bool {
    match manifest {
        Some(content) => declares_workspace(content@),
        None => false,
    }
}

/// The workspace root among a directory and its ancestors, nearest first,
/// given the manifest each holds: the index of the first one whose manifest
/// declares a workspace.
pub fn workspace_index(manifests: &Vec<Option<String>>) -> (index: Option<usize>)
    ensures
        match index {
            Some(i) => i < manifests@.len() && is_workspace_root(manifests@[i as int]) && forall|
                j: int,
            | 0 <= j < i ==> !is_workspace_root(#[trigger] manifests@[j]),
            None => forall|j: int|
                0 <= j < manifests@.len() ==> !is_workspace_root(#[trigger] manifests@[j]),
        },
{
    let mut i: usize = 0;
    while i < manifests.len()
        invariant
            i <= manifests@.len(),
            forall|j: int| 0 <= j < i ==> !is_workspace_root(#[trigger] manifests@[j]),
        decreases manifests@.len() - i,
    {
        match &manifests[i] {
            Some(content) => {
                if is_workspace_manifest(content.as_str()) {
                    return Some(i);
                }
            },
            None => {},
        }
        i = i + 1;
    }
    None
}

} // verus!
