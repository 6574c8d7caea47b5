//! Decisions of the command-line programs: the capture agent's run
//! arguments and exit codes, the window enumerator's text listing, and how
//! the portable launcher finds its sibling programs and runtime library.

use vstd::prelude::*;

use crate::platform::Platform;
use crate::protocol::CaptureSourceInfo;
use crate::text::{concat, decimal, digits, find_first, chars_of, occurs_at};

verus! {

broadcast use vstd::string::group_string_axioms;

/// Why the capture agent refused its arguments.
#[derive(Debug, Clone, Copy, PartialEq, Eq, Structural)]
pub enum ArgumentError {
    /// `--segment-seconds` is zero.
    ZeroSegmentSeconds,
    /// `--source` and `--target-kind` were both given.
    SourceAndTargetKind,
    /// `--source x11` was given without `--window-id`.
    X11WindowIdRequired,
    /// Neither `--source` nor `--target-kind` was given.
    TargetKindRequired,
    /// `--target-kind` was given without `--window-id`.
    WindowIdRequired,
}

/// A capture source named on the command line.
#[derive(Debug, Clone, Copy, PartialEq, Eq, Structural)]
pub enum SourceArg {
    /// The deterministic test pattern.
    TestPattern,
    /// An X11 window.
    X11,
}

/// The source a run captures.
#[derive(Debug, Clone, PartialEq, Eq)]
pub enum SourceSelection {
    /// The deterministic test pattern.
    TestPattern,
    /// The X11 window with this id.
    X11 { window_id: String },
    /// The platform's native window of this kind and id.
    Native { target_kind: String, window_id: String },
}

/// The source of a run: `--source` when given (an X11 window needs
/// `--window-id`), else the native target named by `--target-kind` and
/// `--window-id`, both required.
pub open spec fn source_for(
    source: Option<SourceArg>,
    target_kind: Option<String>,
    window_id: Option<String>,
) -> Result<SourceSelection, ArgumentError> {
    match source {
        Some(SourceArg::TestPattern) => Ok(SourceSelection::TestPattern),
        Some(SourceArg::X11) => match window_id {
            Some(id) => Ok(SourceSelection::X11 { window_id: id }),
            None => Err(ArgumentError::X11WindowIdRequired),
        },
        None => match target_kind {
            None => Err(ArgumentError::TargetKindRequired),
            Some(kind) => match window_id {
                None => Err(ArgumentError::WindowIdRequired),
                Some(id) => Ok(SourceSelection::Native { target_kind: kind, window_id: id }),
            },
        },
    }
}

/// Chooses the source of a run; see [`source_for`].
pub fn select_source(
    source: Option<SourceArg>,
    target_kind: Option<String>,
    window_id: Option<String>,
) -> (selection: Result<SourceSelection, ArgumentError>)
    ensures
        selection == source_for(source, target_kind, window_id),
{
    match source {
        Some(SourceArg::TestPattern) => Ok(SourceSelection::TestPattern),
        Some(SourceArg::X11) => match window_id {
            Some(id) => Ok(SourceSelection::X11 { window_id: id }),
            None => Err(ArgumentError::X11WindowIdRequired),
        },
        None => match target_kind {
            None => Err(ArgumentError::TargetKindRequired),
            Some(kind) => match window_id {
                None => Err(ArgumentError::WindowIdRequired),
                Some(id) => Ok(SourceSelection::Native { target_kind: kind, window_id: id }),
            },
        },
    }
}

/// Checks the capture agent's run arguments in order.
pub fn check_run_arguments(segment_seconds: u64, has_source: bool, has_target_kind: bool) -> (result: Result<(), ArgumentError>)
    ensures
        result == if segment_seconds == 0 {
            Err(ArgumentError::ZeroSegmentSeconds)
        } else if has_source && has_target_kind {
            Err(ArgumentError::SourceAndTargetKind)
        } else {
            Ok(())
        },
{
    if segment_seconds == 0 {
        return Err(ArgumentError::ZeroSegmentSeconds);
    }
    if has_source && has_target_kind {
        return Err(ArgumentError::SourceAndTargetKind);
    }
    Ok(())
}

/// The job id of a run: the one given, or else the final component of the
/// output directory.
pub fn default_job_id(job_id: Option<String>, output_file_name: Option<String>) -> (id: Option<String>)
    ensures
        id == match job_id {
            Some(given) => Some(given),
            None => output_file_name,
        },
{
    match job_id {
        Some(given) => Some(given),
        None => output_file_name,
    }
}

/// The segment limit of a run: `segments`, where 0 means no limit.
pub fn segment_limit(segments: u64) -> (limit: Option<u64>)
    ensures
        limit == if segments == 0 { None } else { Some(segments) },
{
    if segments == 0 {
        None
    } else {
        Some(segments)
    }
}

/// Whether `message` mentions `word`.
pub open spec fn mentions(message: Seq<char>, word: Seq<char>) -> bool {
    exists|at: int| #[trigger] occurs_at(message, word, at)
}

/// The capture agent's exit code: 20 when the source was lost, 2 for a
/// usage error (a message mentioning `required`, `must be greater` or
/// `invalid`), 70 otherwise.
pub open spec fn exit_code_for(source_lost: bool, message: Seq<char>) -> i32 {
    if source_lost {
        20
    } else if mentions(message, "required"@) || mentions(message, "must be greater"@) || mentions(
        message,
        "invalid"@,
    ) {
        2
    } else {
        70
    }
}

fn mentions_exec(message: &Vec<char>, word: &str) -> (found: bool)
    ensures
        found == mentions(message@, word@),
{
    let pattern = chars_of(word);
    match find_first(message.as_slice(), pattern.as_slice()) {
        Some(_) => true,
        None => false,
    }
}

/// The capture agent's exit code; see [`exit_code_for`].
pub fn exit_code(source_lost: bool, message: &str) -> (code: i32)
    ensures
        code == exit_code_for(source_lost, message@),
{
    if source_lost {
        return 20;
    }
    let chars = chars_of(message);
    if mentions_exec(&chars, "required") || mentions_exec(&chars, "must be greater")
        || mentions_exec(&chars, "invalid") {
        2
    } else {
        70
    }
}

/// One line of the window enumerator's text listing: id, size, visibility
/// and title, separated by tabs.
pub open spec fn listing_line(info: CaptureSourceInfo) -> Seq<char> {
    info.id@ + "\t"@ + digits(info.width as nat, 10, false) + "x"@ + digits(
        info.height as nat,
        10,
        false,
    ) + "\t"@ + (if info.visible { "visible"@ } else { "hidden"@ }) + "\t"@ + info.title@
}

/// Formats one line of the window enumerator's text listing.
pub fn snapshot_line(info: &CaptureSourceInfo) -> (line: String)
    ensures
        line@ == listing_line(*info),
{
    let line = concat(info.id.as_str(), "\t");
    let line = concat(line.as_str(), decimal(info.width as u64).as_str());
    let line = concat(line.as_str(), "x");
    let line = concat(line.as_str(), decimal(info.height as u64).as_str());
    let line = concat(line.as_str(), "\t");
    let line = concat(line.as_str(), if info.visible { "visible" } else { "hidden" });
    let line = concat(line.as_str(), "\t");
    concat(line.as_str(), info.title.as_str())
}

/// The file name of a packaged program: `.exe` is appended on Windows.
pub open spec fn executable_name(platform: Platform, name: Seq<char>) -> Seq<char> {
    if platform == Platform::Windows {
        name + ".exe"@
    } else {
        name
    }
}

/// The file name of packaged program `name` on `platform`.
pub fn executable_file_name(platform: Platform, name: &str) -> (file_name: String)
    ensures
        file_name@ == executable_name(platform, name@),
{
    match platform {
        Platform::Windows => concat(name, ".exe"),
        _ => name.to_string(),
    }
}

/// The file name of the capture runtime library on `platform`.
pub open spec fn runtime_library(platform: Platform) -> Seq<char> {
    match platform {
        Platform::Windows => "capture_runtime.dll"@,
        Platform::Macos => "libcapture_runtime.dylib"@,
        Platform::Linux => "libcapture_runtime.so"@,
    }
}

/// The file name of the capture runtime library.
pub fn runtime_name(platform: Platform) -> (name: &'static str)
    ensures
        name@ == runtime_library(platform),
{
    match platform {
        Platform::Windows => "capture_runtime.dll",
        Platform::Macos => "libcapture_runtime.dylib",
        Platform::Linux => "libcapture_runtime.so",
    }
}

/// Where the launcher looks for the runtime library, relative to its own
/// directory and in this order: the portable `lib` directory beside `bin`,
/// the `lib` directory of a macOS bundle, and its own directory.
pub open spec fn runtime_locations(platform: Platform) -> Seq<Seq<Seq<char>>> {
    seq![
        seq![".."@, "lib"@, runtime_library(platform)],
        seq![".."@, ".."@, "lib"@, runtime_library(platform)],
        seq![runtime_library(platform)],
    ]
}

/// The places to look for the runtime library, each as path components;
/// see [`runtime_locations`].
pub fn runtime_candidates(platform: Platform) -> (candidates: Vec<Vec<&'static str>>)
    ensures
        candidates@.len() == 3,
        forall|i: int| 0 <= i < 3 ==> (#[trigger] candidates@[i])@.map_values(|part: &'static str| part@)
            == runtime_locations(platform)[i],
{
    let name = runtime_name(platform);
    let mut portable: Vec<&'static str> = Vec::new();
    portable.push("..");
    portable.push("lib");
    portable.push(name);
    let mut bundle: Vec<&'static str> = Vec::new();
    bundle.push("..");
    bundle.push("..");
    bundle.push("lib");
    bundle.push(name);
    let mut development: Vec<&'static str> = Vec::new();
    development.push(name);
    let mut candidates: Vec<Vec<&'static str>> = Vec::new();
    candidates.push(portable);
    candidates.push(bundle);
    candidates.push(development);
    proof {
        let expected = runtime_locations(platform);
        assert(candidates@[0]@.map_values(|part: &'static str| part@) =~= expected[0]);
        assert(candidates@[1]@.map_values(|part: &'static str| part@) =~= expected[1]);
        assert(candidates@[2]@.map_values(|part: &'static str| part@) =~= expected[2]);
    }
    candidates
}

/// Where the portable entry point finds sibling program `name`, relative
/// to its own directory: in `bin`, else beside itself. The first is used
/// when it exists.
pub open spec fn sibling_locations(platform: Platform, name: Seq<char>) -> Seq<Seq<Seq<char>>> {
    seq![seq!["bin"@, executable_name(platform, name)], seq![executable_name(platform, name)]]
}

/// The places to look for a sibling program; see [`sibling_locations`].
pub fn sibling_candidates(platform: Platform, name: &str) -> (candidates: Vec<Vec<String>>)
    ensures
        candidates@.len() == 2,
        forall|i: int|
            0 <= i < 2 ==> (#[trigger] candidates@[i])@.map_values(|part: String| part@)
                == sibling_locations(platform, name@)[i],
{
    let mut packaged: Vec<String> = Vec::new();
    packaged.push("bin".to_string());
    packaged.push(executable_file_name(platform, name));
    let mut development: Vec<String> = Vec::new();
    development.push(executable_file_name(platform, name));
    let mut candidates: Vec<Vec<String>> = Vec::new();
    candidates.push(packaged);
    candidates.push(development);
    proof {
        let expected = sibling_locations(platform, name@);
        assert(candidates@[0]@.map_values(|part: String| part@) =~= expected[0]);
        assert(candidates@[1]@.map_values(|part: String| part@) =~= expected[1]);
    }
    candidates
}

/// The arguments the portable entry point passes to a sibling program:
/// the sibling's subcommand, then the user's arguments.
pub fn delegated_arguments(subcommand: String, arguments: Vec<String>) -> (delegated: Vec<String>)
    ensures
        delegated@ == seq![subcommand] + arguments@,
{
    let mut delegated: Vec<String> = Vec::new();
    delegated.push(subcommand);
    let ghost first = delegated@;
    let ghost all = arguments@;
    for argument in it: arguments.into_iter()
        invariant
            it.seq() == all,
            delegated@ == first + all.take(it.index() as int),
    {
        proof {
            assert(all.take(it.index() + 1) =~= all.take(it.index() as int).push(argument));
        }
        delegated.push(argument);
        proof {
            assert(delegated@ =~= first + all.take(it.index() + 1));
        }
    }
    proof {
        assert(all.take(all.len() as int) =~= all);
    }
    delegated
}

} // verus!
