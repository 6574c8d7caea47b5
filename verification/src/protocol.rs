//! Documents written into a capture job directory and the records shared
//! between the capture agent, the window enumerator and the launcher.

use vstd::prelude::*;
use vstd::std_specs::cmp::PartialEqSpecImpl;

verus! {

broadcast use vstd::string::group_string_axioms;

/// Schema version written into every protocol document.
pub const PROTOCOL_VERSION: u32 = 1;

/// What a capture source captures.
#[derive(Debug, Clone, Copy, PartialEq, Eq, Structural)]
pub enum CaptureSourceKind {
    TestPattern,
    X11Window,
    MacosWindow,
    WindowsWindow,
}

/// Identity and geometry of a capture source.
#[derive(Debug, Clone)]
pub struct CaptureSourceInfo {
    pub kind: CaptureSourceKind,
    pub id: String,
    pub title: String,
    pub width: u32,
    pub height: u32,
    pub visible: bool,
}

impl CaptureSourceInfo {
    /// Two descriptions name the same source with the same geometry.
    pub open spec fn same_as(self, other: Self) -> bool {
        &&& self.kind == other.kind
        &&& self.id@ == other.id@
        &&& self.title@ == other.title@
        &&& self.width == other.width
        &&& self.height == other.height
        &&& self.visible == other.visible
    }

    /// A field-by-field copy.
    pub fn copied(&self) -> (copy: Self)
        ensures
            copy.same_as(*self),
    {
        CaptureSourceInfo {
            kind: self.kind,
            id: self.id.clone(),
            title: self.title.clone(),
            width: self.width,
            height: self.height,
            visible: self.visible,
        }
    }
}

impl PartialEq for CaptureSourceInfo {
    fn eq(&self, other: &Self) -> (equal: bool) {
        self.kind == other.kind && self.id == other.id && self.title == other.title
            && self.width == other.width && self.height == other.height
            && self.visible == other.visible
    }
}

impl PartialEqSpecImpl for CaptureSourceInfo {
    open spec fn obeys_eq_spec() -> bool {
        true
    }

    open spec fn eq_spec(&self, other: &Self) -> bool {
        self.same_as(*other)
    }
}


/// Frame size and rate requested from a capture source.
#[derive(Debug, Clone, Copy, PartialEq, Eq, Structural)]
pub struct CaptureConfiguration {
    pub width: u32,
    pub height: u32,
    pub fps: u32,
}

/// How the captured frames are encoded into video segments.
#[derive(Debug, Clone)]
pub struct VideoEncodingConfiguration {
    pub container: String,
    pub file_extension: String,
    pub codec: String,
    pub framework: String,
    pub encoder: String,
    pub pixel_format: String,
    pub rate_control: String,
    pub bitrate_kbps: u32,
    pub speed_preset: String,
    pub tune: String,
    pub audio: bool,
    pub encoded_width: u32,
    pub encoded_height: u32,
    pub segment_duration_ms: u64,
    pub key_frame_interval_frames: u32,
}

impl VideoEncodingConfiguration {
    /// Two configurations agree field by field.
    pub open spec fn same_as(self, other: Self) -> bool {
        &&& self.container@ == other.container@
        &&& self.file_extension@ == other.file_extension@
        &&& self.codec@ == other.codec@
        &&& self.framework@ == other.framework@
        &&& self.encoder@ == other.encoder@
        &&& self.pixel_format@ == other.pixel_format@
        &&& self.rate_control@ == other.rate_control@
        &&& self.bitrate_kbps == other.bitrate_kbps
        &&& self.speed_preset@ == other.speed_preset@
        &&& self.tune@ == other.tune@
        &&& self.audio == other.audio
        &&& self.encoded_width == other.encoded_width
        &&& self.encoded_height == other.encoded_height
        &&& self.segment_duration_ms == other.segment_duration_ms
        &&& self.key_frame_interval_frames == other.key_frame_interval_frames
    }
}

impl PartialEq for VideoEncodingConfiguration {
    fn eq(&self, other: &Self) -> (equal: bool) {
        self.container == other.container && self.file_extension == other.file_extension
            && self.codec == other.codec && self.framework == other.framework
            && self.encoder == other.encoder && self.pixel_format == other.pixel_format
            && self.rate_control == other.rate_control && self.bitrate_kbps == other.bitrate_kbps
            && self.speed_preset == other.speed_preset && self.tune == other.tune
            && self.audio == other.audio && self.encoded_width == other.encoded_width
            && self.encoded_height == other.encoded_height
            && self.segment_duration_ms == other.segment_duration_ms
            && self.key_frame_interval_frames == other.key_frame_interval_frames
    }
}

impl PartialEqSpecImpl for VideoEncodingConfiguration {
    open spec fn obeys_eq_spec() -> bool {
        true
    }

    open spec fn eq_spec(&self, other: &Self) -> bool {
        self.same_as(*other)
    }
}

/// The metadata document of one capture job.
#[derive(Debug, Clone)]
pub struct CaptureJobMeta {
    pub schema_version: u32,
    pub job_id: String,
    pub created_at_unix_ms: u64,
    pub source: CaptureSourceInfo,
    pub capture: CaptureConfiguration,
    pub video: VideoEncodingConfiguration,
}

/// One entry of a job's events document.
#[derive(Debug, Clone)]
pub enum CaptureEvent {
    JobStarted { occurred_at_unix_ms: u64, pid: u32 },
    JobResumed { occurred_at_unix_ms: u64, pid: u32 },
    VideoSegmentCompleted {
        sequence: u64,
        path: String,
        started_at_unix_ms: u64,
        ended_at_unix_ms: u64,
        duration_ms: u64,
        frame_count: u64,
        bytes: u64,
    },
    CaptureGap { reason: String, occurred_at_unix_ms: u64 },
    JobStopped { occurred_at_unix_ms: u64, segments: u64, frames: u64 },
}

/// The events document of one capture job: an append-only list of events
/// whose revision counts the appends.
#[derive(Debug, Clone)]
pub struct CaptureJobEvents {
    pub schema_version: u32,
    pub job_id: String,
    pub revision: u64,
    pub events: Vec<CaptureEvent>,
}

impl CaptureJobEvents {
    /// An empty events document for `job_id`, at revision 0.
    pub fn new(job_id: &str) -> (document: Self)
        ensures
            document.schema_version == PROTOCOL_VERSION,
            document.job_id@ == job_id@,
            document.revision == 0,
            document.events@ == Seq::<CaptureEvent>::empty(),
    {
        CaptureJobEvents {
            schema_version: PROTOCOL_VERSION,
            job_id: job_id.to_string(),
            revision: 0,
            events: Vec::new(),
        }
    }

    /// Appends `event` and advances the revision by one.
    pub fn push(&mut self, event: CaptureEvent)
        requires
            old(self).revision < u64::MAX,
        ensures
            final(self).events@ == old(self).events@.push(event),
            final(self).revision == old(self).revision + 1,
            final(self).schema_version == old(self).schema_version,
            final(self).job_id == old(self).job_id,
    {
        self.events.push(event);
        self.revision = self.revision + 1;
    }
}

/// The native handle of a capturable window on one platform.
#[derive(Debug, Clone)]
pub struct NativeTarget {
    pub kind: String,
    pub value: String,
}

/// The key of a native target: its kind and its value joined by a colon.
pub open spec fn target_key(kind: Seq<char>, value: Seq<char>) -> Seq<char> {
    kind + seq![':'] + value
}

impl NativeTarget {
    /// The key under which leases and candidates of this target are grouped.
    pub fn key(&self) -> (key: String)
        ensures
            key@ == target_key(self.kind@, self.value@),
    {
        let mut key = self.kind.clone();
        key.append(":");
        key.append(self.value.as_str());
        proof {
            reveal_strlit(":");
        }
        key
    }
}

/// Lifecycle state reported in an agent lease.
#[derive(Debug, Clone, Copy, PartialEq, Eq, Structural)]
pub enum AgentState {
    Starting,
    Capturing,
}

/// The heartbeat record a running capture agent keeps on disk.
#[derive(Debug, Clone)]
pub struct AgentLease {
    pub schema_version: u32,
    pub agent_id: String,
    pub job_id: String,
    pub pid: u32,
    pub target_key: String,
    pub target: NativeTarget,
    pub output_directory: String,
    pub state: AgentState,
    pub started_at_unix_ms: u64,
    pub heartbeat_at_unix_ms: u64,
    pub segments: u64,
    pub recorded_duration_ms: u64,
}

/// The application that owns a window candidate.
#[derive(Debug, Clone)]
pub struct ApplicationInfo {
    pub group_id: String,
    pub display_name: String,
    pub process_id: Option<u32>,
    pub icon_path: Option<String>,
}

/// A window offered to the user for capture.
#[derive(Debug, Clone)]
pub struct WindowCandidate {
    pub candidate_id: String,
    pub application: ApplicationInfo,
    pub title: String,
    pub visible: bool,
    pub capturable: bool,
    pub unavailable_reason: Option<String>,
    pub thumbnail_path: Option<String>,
    pub width: u32,
    pub height: u32,
    pub native_target: NativeTarget,
}

} // verus!
