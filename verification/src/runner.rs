//! The capture job lifecycle: option and frame checks, the job metadata,
//! the naming of video segments, and the events a run appends to the job's
//! events document.

use vstd::prelude::*;

use crate::protocol::{
    CaptureConfiguration, CaptureEvent, CaptureJobEvents, CaptureJobMeta, CaptureSourceInfo,
    VideoEncodingConfiguration, PROTOCOL_VERSION,
};
use crate::source::CapturedFrame;
use crate::text::{
    concat, labeled, replace_first, replaced_first, first_occurrence,
    all_digits, blank, chars_of, digits, format_digits, is_blank, lemma_padded_digits_parse,
    pad_zeros, parse_unsigned, parsed_unsigned, slice_chars, string_of, zero_padded,
};

verus! {

broadcast use vstd::string::group_string_axioms;

/// Name of the metadata document in a job directory.
pub const META_FILE: &'static str = "meta.json";

/// Name of the events document in a job directory.
pub const EVENTS_FILE: &'static str = "events.json";

/// Name of the directory that holds the video segments of a job.
pub const VIDEOS_DIRECTORY: &'static str = "videos";

/// What a capture run is asked to do.
pub struct CaptureOptions {
    pub job_id: String,
    pub output_directory: String,
    pub segment_duration_ms: u64,
    pub fps: u32,
    pub video_bitrate_kbps: u32,
    pub max_segments: Option<u64>,
}

/// What a finished capture run reports.
pub struct CaptureSummary {
    pub job_directory: String,
    pub segments: u64,
    pub frames: u64,
}

/// Why capture options were refused.
#[derive(Debug, Clone, Copy, PartialEq, Eq, Structural)]
pub enum OptionsError {
    /// The job id is empty or only whitespace.
    EmptyJobId,
    /// The frame rate is zero.
    ZeroFps,
    /// The video bitrate is zero.
    ZeroBitrate,
    /// The segment duration is zero.
    ZeroSegmentDuration,
}

/// Checks capture options in order: job id, frame rate, bitrate, segment
/// duration; the first failed check names the error.
pub fn validate_options(options: &CaptureOptions) -> (result: Result<(), OptionsError>)
    ensures
        result == if is_blank(options.job_id@) {
            Err(OptionsError::EmptyJobId)
        } else if options.fps == 0 {
            Err(OptionsError::ZeroFps)
        } else if options.video_bitrate_kbps == 0 {
            Err(OptionsError::ZeroBitrate)
        } else if options.segment_duration_ms == 0 {
            Err(OptionsError::ZeroSegmentDuration)
        } else {
            Ok(())
        },
{
    if blank(options.job_id.as_str()) {
        return Err(OptionsError::EmptyJobId);
    }
    if options.fps == 0 {
        return Err(OptionsError::ZeroFps);
    }
    if options.video_bitrate_kbps == 0 {
        return Err(OptionsError::ZeroBitrate);
    }
    if options.segment_duration_ms == 0 {
        return Err(OptionsError::ZeroSegmentDuration);
    }
    Ok(())
}

/// Why a captured frame was refused.
#[derive(Debug, Clone, Copy, PartialEq, Eq, Structural)]
pub enum FrameError {
    /// The frame's dimensions differ from the source's.
    DimensionsChanged,
    /// The frame holds a number of bytes other than four per pixel.
    WrongLength,
}

/// Checks that a frame has the source's dimensions and four bytes per pixel.
pub fn validate_frame(frame: &CapturedFrame, width: u32, height: u32) -> (result: Result<
    (),
    FrameError,
>)
    requires
        width * height * 4 <= usize::MAX,
    ensures
        result == if frame.width != width || frame.height != height {
            Err(FrameError::DimensionsChanged)
        } else if frame.rgba@.len() != width * height * 4 {
            Err(FrameError::WrongLength)
        } else {
            Ok(())
        },
{
    if frame.width != width || frame.height != height {
        return Err(FrameError::DimensionsChanged);
    }
    assert(width as usize * height as usize * 4 <= usize::MAX) by (nonlinear_arith)
        requires
            width * height * 4 <= usize::MAX,
    ;
    assert(width as usize * height as usize <= usize::MAX) by (nonlinear_arith)
        requires
            width * height * 4 <= usize::MAX,
    ;
    let expected = width as usize * height as usize * 4;
    if frame.rgba.len() != expected {
        return Err(FrameError::WrongLength);
    }
    Ok(())
}

/// Why a frame dimension cannot be encoded.
#[derive(Debug, Clone, Copy, PartialEq, Eq, Structural)]
pub enum DimensionError {
    /// The dimension is zero.
    Zero,
    /// Rounding the dimension up to an even number overflows.
    TooLarge,
}

/// The encoded size of a frame dimension: the dimension rounded up to an
/// even number, refused when zero or when the rounding overflows.
pub open spec fn encoded_size(value: u32) -> Result<u32, DimensionError> {
    if value == 0 {
        Err(DimensionError::Zero)
    } else if value + value % 2 > u32::MAX {
        Err(DimensionError::TooLarge)
    } else {
        Ok((value + value % 2) as u32)
    }
}

/// The encoded size of a frame dimension; see [`encoded_size`].
pub fn even_dimension(value: u32) -> (result: Result<u32, DimensionError>)
    ensures
        result == encoded_size(value),
{
    if value == 0 {
        return Err(DimensionError::Zero);
    }
    match value.checked_add(value % 2) {
        Some(even) => Ok(even),
        None => Err(DimensionError::TooLarge),
    }
}

/// Key frames are forced once per segment: the frame rate times the
/// segment duration in whole seconds (at least one, truncated to 32 bits),
/// saturating at `u32::MAX`.
pub open spec fn key_frame_interval(fps: u32, segment_duration_ms: u64) -> u32 {
    let seconds = segment_duration_ms / 1000;
    let seconds32 = (if seconds >= 1 { seconds } else { 1 }) as u32;
    if fps * seconds32 > u32::MAX {
        u32::MAX
    } else {
        (fps * seconds32) as u32
    }
}

/// The video configuration of a job: H.264 in Matroska, encoded by the
/// GStreamer x264 encoder at a constant bitrate.
pub open spec fn is_video_configuration(
    video: VideoEncodingConfiguration,
    options: CaptureOptions,
    encoded_width: u32,
    encoded_height: u32,
) -> bool {
    &&& video.container@ == "matroska"@
    &&& video.file_extension@ == "mkv"@
    &&& video.codec@ == "h264"@
    &&& video.framework@ == "gstreamer"@
    &&& video.encoder@ == "x264enc"@
    &&& video.pixel_format@ == "yuv420p"@
    &&& video.rate_control@ == "cbr"@
    &&& video.bitrate_kbps == options.video_bitrate_kbps
    &&& video.speed_preset@ == "veryfast"@
    &&& video.tune@ == "zerolatency"@
    &&& !video.audio
    &&& video.encoded_width == encoded_width
    &&& video.encoded_height == encoded_height
    &&& video.segment_duration_ms == options.segment_duration_ms
    &&& video.key_frame_interval_frames == key_frame_interval(
        options.fps,
        options.segment_duration_ms,
    )
}

fn key_frame_interval_exec(fps: u32, segment_duration_ms: u64) -> (interval: u32)
    ensures
        interval == key_frame_interval(fps, segment_duration_ms),
{
    let seconds = segment_duration_ms / 1000;
    let seconds32 = (if seconds >= 1 { seconds } else { 1 }) as u32;
    match fps.checked_mul(seconds32) {
        Some(product) => product,
        None => u32::MAX,
    }
}

/// Whether `meta` is the metadata document of a job capturing `source`
/// with `options`, created at `created_at_unix_ms`, whose frames are
/// encoded at `encoded_width` x `encoded_height`.
pub open spec fn describes_job(
    meta: CaptureJobMeta,
    options: CaptureOptions,
    source: CaptureSourceInfo,
    created_at_unix_ms: u64,
    encoded_width: u32,
    encoded_height: u32,
) -> bool {
    &&& meta.schema_version == PROTOCOL_VERSION
    &&& meta.job_id@ == options.job_id@
    &&& meta.created_at_unix_ms == created_at_unix_ms
    &&& meta.source.same_as(source)
    &&& meta.capture == CaptureConfiguration {
        width: source.width,
        height: source.height,
        fps: options.fps,
    }
    &&& is_video_configuration(meta.video, options, encoded_width, encoded_height)
}

/// The metadata document of a job capturing `source` with `options`,
/// created at `created_at_unix_ms`; fails when a source dimension cannot
/// be encoded (width checked first).
pub fn job_meta(options: &CaptureOptions, source: &CaptureSourceInfo, created_at_unix_ms: u64) -> (meta: Result<CaptureJobMeta, DimensionError>)
    ensures
        encoded_size(source.width) matches Err(error) ==> meta == Err::<CaptureJobMeta, DimensionError>(error),
        encoded_size(source.width) is Ok ==> (encoded_size(source.height) matches Err(error) ==> meta
            == Err::<CaptureJobMeta, DimensionError>(error)),
        encoded_size(source.width) matches Ok(encoded_width) ==> (encoded_size(source.height) matches Ok(
            encoded_height,
        ) ==> meta matches Ok(meta) && describes_job(
            meta,
            *options,
            *source,
            created_at_unix_ms,
            encoded_width,
            encoded_height,
        )),
{
    let encoded_width = match even_dimension(source.width) {
        Ok(value) => value,
        Err(error) => return Err(error),
    };
    let encoded_height = match even_dimension(source.height) {
        Ok(value) => value,
        Err(error) => return Err(error),
    };
    let video = VideoEncodingConfiguration {
        container: "matroska".to_string(),
        file_extension: "mkv".to_string(),
        codec: "h264".to_string(),
        framework: "gstreamer".to_string(),
        encoder: "x264enc".to_string(),
        pixel_format: "yuv420p".to_string(),
        rate_control: "cbr".to_string(),
        bitrate_kbps: options.video_bitrate_kbps,
        speed_preset: "veryfast".to_string(),
        tune: "zerolatency".to_string(),
        audio: false,
        encoded_width,
        encoded_height,
        segment_duration_ms: options.segment_duration_ms,
        key_frame_interval_frames: key_frame_interval_exec(
            options.fps,
            options.segment_duration_ms,
        ),
    };
    Ok(CaptureJobMeta {
        schema_version: PROTOCOL_VERSION,
        job_id: options.job_id.clone(),
        created_at_unix_ms,
        source: source.copied(),
        capture: CaptureConfiguration {
            width: source.width,
            height: source.height,
            fps: options.fps,
        },
        video,
    })
}

/// Whether an existing metadata document describes the same job as `meta`:
/// same job id, source, capture and video configuration.
pub open spec fn same_job(existing: CaptureJobMeta, meta: CaptureJobMeta) -> bool {
    &&& existing.job_id@ == meta.job_id@
    &&& existing.source.same_as(meta.source)
    &&& existing.capture == meta.capture
    &&& existing.video.same_as(meta.video)
}

/// Whether a run may resume the job of an existing metadata document.
pub fn meta_matches(existing: &CaptureJobMeta, meta: &CaptureJobMeta) -> (matches: bool)
    ensures
        matches == same_job(*existing, *meta),
{
    existing.job_id == meta.job_id && existing.source == meta.source && existing.capture
        == meta.capture && existing.video == meta.video
}

/// The digits of a segment number, at least eight, zero padded.
pub open spec fn segment_digits(sequence: u64) -> Seq<char> {
    zero_padded(digits(sequence as nat, 10, false), 8)
}

/// File name of the committed segment `sequence`, as `{sequence:08}.mkv`.
pub open spec fn segment_file_name(sequence: u64) -> Seq<char> {
    segment_digits(sequence) + seq!['.', 'm', 'k', 'v']
}

/// File name a segment is written under before it is committed, as
/// `.{sequence:08}.mkv.tmp`.
pub open spec fn segment_temporary_name(sequence: u64) -> Seq<char> {
    seq!['.'] + segment_digits(sequence) + seq!['.', 'm', 'k', 'v', '.', 't', 'm', 'p']
}

/// Path of a committed segment relative to the job directory, as
/// `videos/{sequence:08}.mkv`.
pub open spec fn segment_relative_path(sequence: u64) -> Seq<char> {
    seq!['v', 'i', 'd', 'e', 'o', 's', '/'] + segment_file_name(sequence)
}

/// Index of the last `.` in `name`, or -1.
pub open spec fn last_dot(name: Seq<char>) -> int
    decreases name.len(),
{
    if name.len() == 0 {
        -1
    } else if name.last() == '.' {
        name.len() - 1
    } else {
        last_dot(name.drop_last())
    }
}

/// The name `..`.
pub open spec fn is_parent_name(name: Seq<char>) -> bool {
    name == seq!['.', '.']
}

/// The stem of a file name, as `Path::file_stem`: everything before the
/// last `.`, unless that dot starts the name.
pub open spec fn file_stem(name: Seq<char>) -> Seq<char> {
    if is_parent_name(name) || last_dot(name) <= 0 {
        name
    } else {
        name.take(last_dot(name))
    }
}

/// The extension of a file name, as `Path::extension`: everything after
/// the last `.`, unless that dot starts the name.
pub open spec fn file_extension(name: Seq<char>) -> Option<Seq<char>> {
    if is_parent_name(name) || last_dot(name) <= 0 {
        None
    } else {
        Some(name.skip(last_dot(name) + 1))
    }
}

/// The segment number a file name carries: a `.mkv` file whose stem is a
/// decimal `u64`.
pub open spec fn segment_number(name: Seq<char>) -> Option<nat> {
    if file_extension(name) == Some(seq!['m', 'k', 'v']) {
        parsed_unsigned(file_stem(name), 10, u64::MAX as nat)
    } else {
        None
    }
}

/// The largest segment number among `names`, or 0.
pub open spec fn max_segment_number(names: Seq<Seq<char>>) -> nat
    decreases names.len(),
{
    if names.len() == 0 {
        0
    } else {
        let rest = max_segment_number(names.drop_last());
        match segment_number(names.last()) {
            Some(number) => if number > rest { number } else { rest },
            None => rest,
        }
    }
}

/// The views of a list of strings.
pub open spec fn name_views(names: Seq<String>) -> Seq<Seq<char>> {
    names.map_values(|name: String| name@)
}

fn last_dot_exec(name: &Vec<char>) -> (dot: Option<usize>)
    ensures
        dot matches Some(d) ==> last_dot(name@) == d && d < name@.len(),
        dot is None ==> last_dot(name@) == -1,
{
    let mut i: usize = name.len();
    assert(name@.take(i as int) =~= name@);
    while i > 0
        invariant
            i <= name@.len(),
            last_dot(name@) == last_dot(name@.take(i as int)),
        decreases i,
    {
        proof {
            assert(name@.take(i as int).drop_last() =~= name@.take(i - 1));
        }
        if name[i - 1] == '.' {
            return Some(i - 1);
        }
        i = i - 1;
    }
    None
}

fn is_mkv(chars: &Vec<char>, from: usize) -> (result: bool)
    requires
        from <= chars@.len(),
    ensures
        result == (chars@.skip(from as int) == seq!['m', 'k', 'v']),
{
    if chars.len() - from != 3 {
        proof {
            assert(chars@.skip(from as int).len() != 3);
        }
        return false;
    }
    let result = chars[from] == 'm' && chars[from + 1] == 'k' && chars[from + 2] == 'v';
    proof {
        if result {
            assert(chars@.skip(from as int) =~= seq!['m', 'k', 'v']);
        } else {
            assert(chars@.skip(from as int) != seq!['m', 'k', 'v'] ) by {
                if chars@.skip(from as int) == seq!['m', 'k', 'v'] {
                    assert(chars@.skip(from as int)[0] == chars@[from as int]);
                    assert(chars@.skip(from as int)[1] == chars@[from + 1]);
                    assert(chars@.skip(from as int)[2] == chars@[from + 2]);
                }
            }
        }
    }
    result
}

/// The extension of a file name; see [`file_extension`].
pub fn extension_of(name: &str) -> (extension: Option<String>)
    ensures
        extension is Some <==> file_extension(name@) is Some,
        extension matches Some(e) ==> file_extension(name@) == Some(e@),
{
    let chars = chars_of(name);
    if chars.len() == 2 && chars[0] == '.' && chars[1] == '.' {
        proof {
            assert(chars@ =~= seq!['.', '.']);
        }
        return None;
    }
    proof {
        if is_parent_name(chars@) {
            assert(chars@[0] == '.' && chars@[1] == '.');
        }
    }
    match last_dot_exec(&chars) {
        None => None,
        Some(dot) => {
            if dot == 0 {
                return None;
            }
            let rest = slice_chars(chars.as_slice(), dot + 1, chars.len());
            assert(rest@ =~= chars@.skip(dot + 1));
            Some(string_of(rest.as_slice()))
        },
    }
}

/// The segment number of one file name; see [`segment_number`].
pub fn segment_number_of(name: &str) -> (number: Option<u64>)
    ensures
        number matches Some(n) ==> segment_number(name@) == Some(n as nat),
        number is None ==> segment_number(name@) is None,
{
    let chars = chars_of(name);
    if chars.len() == 2 && chars[0] == '.' && chars[1] == '.' {
        proof {
            assert(chars@ =~= seq!['.', '.']);
        }
        return None;
    }
    proof {
        if is_parent_name(chars@) {
            assert(chars@[0] == '.' && chars@[1] == '.');
        }
    }
    match last_dot_exec(&chars) {
        None => None,
        Some(dot) => {
            if dot == 0 || !is_mkv(&chars, dot + 1) {
                return None;
            }
            let stem = slice_chars(chars.as_slice(), 0, dot);
            assert(stem@ =~= chars@.take(dot as int));
            parse_unsigned(stem.as_slice(), 10, u64::MAX)
        },
    }
}

/// The largest segment number among the file names `names`, or 0.
pub fn max_segment_sequence(names: &Vec<String>) -> (maximum: u64)
    ensures
        maximum == max_segment_number(name_views(names@)),
{
    let ghost views = name_views(names@);
    let mut maximum: u64 = 0;
    let mut i: usize = 0;
    while i < names.len()
        invariant
            i <= names@.len(),
            views == name_views(names@),
            maximum == max_segment_number(views.take(i as int)),
        decreases names@.len() - i,
    {
        proof {
            assert(views.take(i + 1).drop_last() =~= views.take(i as int));
            assert(views.take(i + 1).last() == names@[i as int]@);
        }
        match segment_number_of(names[i].as_str()) {
            Some(number) => {
                if number > maximum {
                    maximum = number;
                }
            },
            None => {},
        }
        i = i + 1;
    }
    proof {
        assert(views.take(names@.len() as int) =~= views);
    }
    maximum
}

/// The number of the next segment of a job whose video directory holds
/// `names`: one past the largest existing segment number.
pub fn next_segment_sequence(names: &Vec<String>) -> (next: u64)
    requires
        max_segment_number(name_views(names@)) < u64::MAX,
    ensures
        next == max_segment_number(name_views(names@)) + 1,
{
    max_segment_sequence(names) + 1
}

fn segment_digits_exec(sequence: u64) -> (chars: Vec<char>)
    ensures
        chars@ == segment_digits(sequence),
{
    pad_zeros(format_digits(sequence, 10, false), 8)
}

fn push_all(chars: &mut Vec<char>, more: &[char])
    ensures
        final(chars)@ == old(chars)@ + more@,
{
    let mut i: usize = 0;
    while i < more.len()
        invariant
            i <= more@.len(),
            chars@ == old(chars)@ + more@.take(i as int),
        decreases more@.len() - i,
    {
        chars.push(more[i]);
        proof {
            assert(chars@ =~= old(chars)@ + more@.take(i + 1));
        }
        i = i + 1;
    }
    proof {
        assert(more@.take(more@.len() as int) =~= more@);
    }
}

/// The file name of committed segment `sequence`.
pub fn segment_file_name_of(sequence: u64) -> (name: String)
    ensures
        name@ == segment_file_name(sequence),
{
    let mut chars = segment_digits_exec(sequence);
    push_all(&mut chars, &['.', 'm', 'k', 'v']);
    proof {
        assert(chars@ =~= segment_file_name(sequence));
    }
    string_of(chars.as_slice())
}

/// The temporary file name of segment `sequence`.
pub fn segment_temporary_name_of(sequence: u64) -> (name: String)
    ensures
        name@ == segment_temporary_name(sequence),
{
    let mut chars: Vec<char> = Vec::new();
    chars.push('.');
    let digits = segment_digits_exec(sequence);
    push_all(&mut chars, digits.as_slice());
    push_all(&mut chars, &['.', 'm', 'k', 'v', '.', 't', 'm', 'p']);
    proof {
        assert(chars@ =~= segment_temporary_name(sequence));
    }
    string_of(chars.as_slice())
}

/// The path of committed segment `sequence` relative to the job directory.
pub fn segment_relative_path_of(sequence: u64) -> (path: String)
    ensures
        path@ == segment_relative_path(sequence),
{
    let mut chars: Vec<char> = Vec::new();
    push_all(&mut chars, &['v', 'i', 'd', 'e', 'o', 's', '/']);
    let name = segment_digits_exec(sequence);
    push_all(&mut chars, name.as_slice());
    push_all(&mut chars, &['.', 'm', 'k', 'v']);
    proof {
        assert(chars@ =~= segment_relative_path(sequence));
    }
    string_of(chars.as_slice())
}

/// The file name written for segment `sequence` reads back as `sequence`.
pub proof fn lemma_segment_name_read_back(sequence: u64)
    ensures
        segment_number(segment_file_name(sequence)) == Some(sequence as nat),
{
    let d = segment_digits(sequence);
    let name = segment_file_name(sequence);
    assert(d.len() >= 8);
    assert(name.drop_last() =~= d + seq!['.', 'm', 'k']);
    assert((d + seq!['.', 'm', 'k']).drop_last() =~= d + seq!['.', 'm']);
    assert((d + seq!['.', 'm']).drop_last() =~= d + seq!['.']);
    assert(last_dot(d + seq!['.']) == d.len());
    assert((d + seq!['.', 'm']).last() == 'm');
    assert(last_dot(d + seq!['.', 'm']) == d.len());
    assert((d + seq!['.', 'm', 'k']).last() == 'k');
    assert(last_dot(d + seq!['.', 'm', 'k']) == d.len());
    assert(name.last() == 'v');
    assert(last_dot(name) == d.len());
    assert(!is_parent_name(name)) by {
        assert(name.len() != 2);
    }
    assert(file_stem(name) =~= d);
    assert(name.skip(d.len() as int + 1) =~= seq!['m', 'k', 'v']);
    lemma_padded_digits_parse(sequence as nat, 10, false, 8, u64::MAX as nat);
}

/// A resumed job continues after every segment already on disk: the
/// number of each segment file among `names` is at most the largest
/// segment number, so the next segment number exceeds all of them.
pub proof fn lemma_next_segment_is_new(names: Seq<Seq<char>>, i: int)
    requires
        0 <= i < names.len(),
    ensures
        segment_number(names[i]) matches Some(number) ==> number < max_segment_number(names) + 1,
    decreases names.len(),
{
    if i < names.len() - 1 {
        lemma_next_segment_is_new(names.drop_last(), i);
        assert(names.drop_last()[i] == names[i]);
    }
}

/// The number and frame count of every completed segment among `events`,
/// in order.
pub open spec fn completed_segments(events: Seq<CaptureEvent>) -> Seq<(u64, u64)>
    decreases events.len(),
{
    if events.len() == 0 {
        Seq::empty()
    } else {
        let earlier = completed_segments(events.drop_last());
        match events.last() {
            CaptureEvent::VideoSegmentCompleted { sequence, frame_count, .. } => earlier.push(
                (sequence, frame_count),
            ),
            _ => earlier,
        }
    }
}

/// Total frame count of a list of completed segments.
pub open spec fn total_frames(segments: Seq<(u64, u64)>) -> nat
    decreases segments.len(),
{
    if segments.len() == 0 {
        0
    } else {
        total_frames(segments.drop_last()) + segments.last().1 as nat
    }
}

/// The event that opens a run: a fresh job starts, an existing one resumes.
pub open spec fn is_run_opening(event: CaptureEvent) -> bool {
    event is JobStarted || event is JobResumed
}

/// Why a run cannot use an existing job directory.
#[derive(Debug, Clone, Copy, PartialEq, Eq, Structural)]
pub enum RunError {
    /// The existing metadata document describes another capture.
    MetaMismatch,
    /// The existing events document belongs to another job.
    EventsBelongToAnotherJob,
}

/// The events document a run appends to: the existing one when it belongs
/// to `job_id`, a new one when there is none.
pub fn open_events(existing: Option<CaptureJobEvents>, job_id: &str) -> (events: Result<
    CaptureJobEvents,
    RunError,
>)
    ensures
        match existing {
            Some(document) => if document.job_id@ == job_id@ {
                events == Ok::<CaptureJobEvents, RunError>(document)
            } else {
                events == Err::<CaptureJobEvents, RunError>(RunError::EventsBelongToAnotherJob)
            },
            None => events matches Ok(document) && document.job_id@ == job_id@ && document.revision
                == 0 && document.events@.len() == 0 && document.schema_version == PROTOCOL_VERSION,
        },
{
    match existing {
        Some(document) => {
            if document.job_id == job_id.to_string() {
                Ok(document)
            } else {
                Err(RunError::EventsBelongToAnotherJob)
            }
        },
        None => Ok(CaptureJobEvents::new(job_id)),
    }
}

/// Checks that an existing metadata document allows resuming the job that
/// `meta` describes.
pub fn check_resume(existing: &CaptureJobMeta, meta: &CaptureJobMeta) -> (result: Result<
    (),
    RunError,
>)
    ensures
        result == if same_job(*existing, *meta) {
            Ok::<(), RunError>(())
        } else {
            Err(RunError::MetaMismatch)
        },
{
    if meta_matches(existing, meta) {
        Ok(())
    } else {
        Err(RunError::MetaMismatch)
    }
}

/// How a segment ends, decided by the number of frames it received and
/// whether the source failed.
#[derive(Debug, Clone, Copy, PartialEq, Eq, Structural)]
pub enum SegmentEnd {
    /// No frame: discard the segment and stop the run.
    DiscardAndStop,
    /// No frame and the source failed: discard, record a gap, fail.
    DiscardAndFail,
    /// Commit the segment and go on.
    Commit,
    /// Commit the segment, then record a gap and fail.
    CommitAndFail,
}

/// What to do with a segment that received `frames` frames.
pub fn segment_end(frames: u64, source_failed: bool) -> (end: SegmentEnd)
    ensures
        end == if frames == 0 {
            if source_failed { SegmentEnd::DiscardAndFail } else { SegmentEnd::DiscardAndStop }
        } else {
            if source_failed { SegmentEnd::CommitAndFail } else { SegmentEnd::Commit }
        },
{
    if frames == 0 {
        if source_failed { SegmentEnd::DiscardAndFail } else { SegmentEnd::DiscardAndStop }
    } else {
        if source_failed { SegmentEnd::CommitAndFail } else { SegmentEnd::Commit }
    }
}

/// Whether a segment keeps capturing: its duration has not elapsed and no
/// stop was requested.
pub fn segment_continues(elapsed_ms: u64, segment_duration_ms: u64, stop_requested: bool) -> (continues: bool)
    ensures
        continues == (elapsed_ms < segment_duration_ms && !stop_requested),
{
    elapsed_ms < segment_duration_ms && !stop_requested
}

/// One run of a capture job: the events document it appends to and the
/// segments and frames it has committed.
pub struct CaptureRun {
    events: CaptureJobEvents,
    run_start: Ghost<int>,
    first_sequence: u64,
    next_sequence: u64,
    segments_written: u64,
    frames_written: u64,
    max_segments: Option<u64>,
}

impl CaptureRun {
    /// The events document as it stands.
    pub closed spec fn document(&self) -> CaptureJobEvents {
        self.events
    }

    /// The events this run appended, starting with its opening event.
    pub closed spec fn run_events(&self) -> Seq<CaptureEvent> {
        self.events.events@.skip(self.run_start@)
    }

    /// Number of the first segment of this run.
    pub closed spec fn first_sequence(&self) -> u64 {
        self.first_sequence
    }

    /// Number the next committed segment will carry.
    pub closed spec fn next_sequence(&self) -> u64 {
        self.next_sequence
    }

    /// Segments committed by this run.
    pub closed spec fn segments(&self) -> u64 {
        self.segments_written
    }

    /// Frames committed by this run.
    pub closed spec fn frames(&self) -> u64 {
        self.frames_written
    }

    /// The segment limit of this run, if any.
    pub closed spec fn max_segments(&self) -> Option<u64> {
        self.max_segments
    }

    /// The run's counters agree with the events it appended: it opened with
    /// a start or resume event, its committed segments are numbered
    /// consecutively from its first number, each holds at least one frame,
    /// and its counters total them.
    pub closed spec fn wf(&self) -> bool {
        let appended = self.events.events@.skip(self.run_start@ + 1);
        let segments = completed_segments(appended);
        &&& 0 <= self.run_start@ < self.events.events@.len()
        &&& is_run_opening(self.events.events@[self.run_start@])
        &&& segments.len() == self.segments_written
        &&& forall|k: int| 0 <= k < segments.len() ==> #[trigger] segments[k].0 == self.first_sequence + k
        &&& forall|k: int| 0 <= k < segments.len() ==> #[trigger] segments[k].1 >= 1
        &&& self.next_sequence == self.first_sequence + self.segments_written
        &&& total_frames(segments) == self.frames_written
    }

    /// Opens a run on `events`: appends a resume event when the job already
    /// existed and a start event otherwise. The run's first segment is
    /// `first_sequence`.
    pub fn start(
        events: CaptureJobEvents,
        resuming: bool,
        first_sequence: u64,
        max_segments: Option<u64>,
        occurred_at_unix_ms: u64,
        pid: u32,
    ) -> (run: CaptureRun)
        requires
            events.revision < u64::MAX,
        ensures
            run.wf(),
            run.document().events@ == events.events@.push(
                if resuming {
                    CaptureEvent::JobResumed { occurred_at_unix_ms, pid }
                } else {
                    CaptureEvent::JobStarted { occurred_at_unix_ms, pid }
                },
            ),
            run.document().revision == events.revision + 1,
            run.document().job_id == events.job_id,
            run.document().schema_version == events.schema_version,
            run.run_events() == seq![run.document().events@.last()],
            run.first_sequence() == first_sequence,
            run.next_sequence() == first_sequence,
            run.segments() == 0,
            run.frames() == 0,
            run.max_segments() == max_segments,
    {
        let mut events = events;
        let ghost start = events.events@.len() as int;
        let opening = if resuming {
            CaptureEvent::JobResumed { occurred_at_unix_ms, pid }
        } else {
            CaptureEvent::JobStarted { occurred_at_unix_ms, pid }
        };
        events.push(opening);
        let run = CaptureRun {
            events,
            run_start: Ghost(start),
            first_sequence,
            next_sequence: first_sequence,
            segments_written: 0,
            frames_written: 0,
            max_segments,
        };
        proof {
            assert(run.events.events@.skip(start + 1) =~= Seq::<CaptureEvent>::empty());
            assert(run.run_events() =~= seq![run.document().events@.last()]);
        }
        run
    }

    /// Whether the run stops before its next segment: a stop was requested
    /// or the segment limit is reached.
    pub fn should_stop(&self, stop_requested: bool) -> (stop: bool)
        ensures
            stop == (stop_requested || (self.max_segments() matches Some(maximum)
                && self.segments() >= maximum)),
    {
        stop_requested || match self.max_segments {
            Some(maximum) => self.segments_written >= maximum,
            None => false,
        }
    }

    /// The number the next committed segment will carry.
    pub fn current_sequence(&self) -> (sequence: u64)
        ensures
            sequence == self.next_sequence(),
    {
        self.next_sequence
    }

    /// Segments committed by this run.
    pub fn segments_written(&self) -> (segments: u64)
        ensures
            segments == self.segments(),
    {
        self.segments_written
    }

    /// Frames committed by this run.
    pub fn frames_written(&self) -> (frames: u64)
        ensures
            frames == self.frames(),
    {
        self.frames_written
    }

    /// The events document as it stands, to be written to disk.
    pub fn events(&self) -> (events: &CaptureJobEvents)
        ensures
            *events == self.document(),
    {
        &self.events
    }

    /// Whether the counters of the run and the revision of its document can
    /// take one more segment of `frame_count` frames and the closing events.
    pub open spec fn has_room(&self, frame_count: u64) -> bool {
        &&& self.document().revision < u64::MAX
        &&& self.next_sequence() < u64::MAX
        &&& self.segments() < u64::MAX
        &&& self.frames() + frame_count <= u64::MAX
    }

    /// Records the commit of the segment numbered [`Self::next_sequence`]
    /// that received `frame_count` frames and holds `bytes` bytes.
    pub fn complete_segment(
        &mut self,
        started_at_unix_ms: u64,
        ended_at_unix_ms: u64,
        duration_ms: u64,
        frame_count: u64,
        bytes: u64,
    )
        requires
            old(self).wf(),
            old(self).has_room(frame_count),
            frame_count >= 1,
        ensures
            final(self).wf(),
            final(self).document().events@.len() == old(self).document().events@.len() + 1,
            final(self).document().events@.drop_last() == old(self).document().events@,
            final(self).document().events@.last() matches CaptureEvent::VideoSegmentCompleted {
                sequence,
                path,
                started_at_unix_ms: started,
                ended_at_unix_ms: ended,
                duration_ms: duration,
                frame_count: frames,
                bytes: size,
            } && sequence == old(self).next_sequence() && path@ == segment_relative_path(sequence)
                && started == started_at_unix_ms && ended == ended_at_unix_ms && duration
                == duration_ms && frames == frame_count && size == bytes,
            final(self).document().revision == old(self).document().revision + 1,
            final(self).document().job_id == old(self).document().job_id,
            final(self).run_events() == old(self).run_events().push(
                final(self).document().events@.last(),
            ),
            final(self).first_sequence() == old(self).first_sequence(),
            final(self).next_sequence() == old(self).next_sequence() + 1,
            final(self).segments() == old(self).segments() + 1,
            final(self).frames() == old(self).frames() + frame_count,
            final(self).max_segments() == old(self).max_segments(),
    {
        let sequence = self.next_sequence;
        let event = CaptureEvent::VideoSegmentCompleted {
            sequence,
            path: segment_relative_path_of(sequence),
            started_at_unix_ms,
            ended_at_unix_ms,
            duration_ms,
            frame_count,
            bytes,
        };
        let ghost before = self.events.events@;
        let ghost start = self.run_start@;
        self.events.push(event);
        self.next_sequence = sequence + 1;
        self.segments_written = self.segments_written + 1;
        self.frames_written = self.frames_written + frame_count;
        proof {
            let appended = self.events.events@.skip(start + 1);
            assert(appended.drop_last() =~= before.skip(start + 1));
            assert(self.events.events@.drop_last() =~= before);
            assert(self.run_events() =~= before.skip(start).push(event));
            let segments = completed_segments(appended);
            assert(segments.drop_last() =~= completed_segments(before.skip(start + 1)));
        }
    }

    /// Records that the source failed with `reason`.
    pub fn record_gap(&mut self, reason: &str, occurred_at_unix_ms: u64)
        requires
            old(self).wf(),
            old(self).document().revision < u64::MAX,
        ensures
            final(self).wf(),
            final(self).document().events@.drop_last() == old(self).document().events@,
            final(self).document().events@.last() matches CaptureEvent::CaptureGap {
                reason: recorded,
                occurred_at_unix_ms: at,
            } && recorded@ == reason@ && at == occurred_at_unix_ms,
            final(self).document().events@.len() == old(self).document().events@.len() + 1,
            final(self).document().revision == old(self).document().revision + 1,
            final(self).document().job_id == old(self).document().job_id,
            final(self).run_events() == old(self).run_events().push(
                final(self).document().events@.last(),
            ),
            final(self).first_sequence() == old(self).first_sequence(),
            final(self).next_sequence() == old(self).next_sequence(),
            final(self).segments() == old(self).segments(),
            final(self).frames() == old(self).frames(),
            final(self).max_segments() == old(self).max_segments(),
    {
        let event = CaptureEvent::CaptureGap { reason: reason.to_string(), occurred_at_unix_ms };
        let ghost before = self.events.events@;
        let ghost start = self.run_start@;
        self.events.push(event);
        proof {
            let appended = self.events.events@.skip(start + 1);
            assert(appended.drop_last() =~= before.skip(start + 1));
            assert(self.events.events@.drop_last() =~= before);
            assert(self.run_events() =~= before.skip(start).push(event));
        }
    }

    /// Closes the run: appends a stop event that reports the segments and
    /// frames of the run, and returns the same totals.
    pub fn finish(&mut self, occurred_at_unix_ms: u64, job_directory: &str) -> (summary:
        CaptureSummary)
        requires
            old(self).wf(),
            old(self).document().revision < u64::MAX,
        ensures
            final(self).document().events@ == old(self).document().events@.push(
                CaptureEvent::JobStopped {
                    occurred_at_unix_ms,
                    segments: old(self).segments(),
                    frames: old(self).frames(),
                },
            ),
            final(self).document().revision == old(self).document().revision + 1,
            final(self).document().job_id == old(self).document().job_id,
            summary.job_directory@ == job_directory@,
            summary.segments == old(self).segments(),
            summary.frames == old(self).frames(),
            summary.segments == completed_segments(old(self).run_events()).len(),
            summary.frames == total_frames(completed_segments(old(self).run_events())),
    {
        let ghost start = self.run_start@;
        let ghost before = self.events.events@;
        proof {
            lemma_completed_skip_opening(before.skip(start));
            assert(before.skip(start).drop_first() =~= before.skip(start + 1));
        }
        let event = CaptureEvent::JobStopped {
            occurred_at_unix_ms,
            segments: self.segments_written,
            frames: self.frames_written,
        };
        self.events.push(event);
        CaptureSummary {
            job_directory: job_directory.to_string(),
            segments: self.segments_written,
            frames: self.frames_written,
        }
    }
}

/// An opening event is not a completed segment, so it adds nothing to the
/// completed segments of the events that follow it.
proof fn lemma_completed_skip_opening(events: Seq<CaptureEvent>)
    requires
        events.len() > 0,
        is_run_opening(events[0]),
    ensures
        completed_segments(events) == completed_segments(events.drop_first()),
    decreases events.len(),
{
    if events.len() == 1 {
        assert(events.drop_last() =~= Seq::<CaptureEvent>::empty());
        assert(events.drop_first() =~= Seq::<CaptureEvent>::empty());
    } else {
        lemma_completed_skip_opening(events.drop_last());
        assert(events.drop_last().drop_first() =~= events.drop_first().drop_last());
        assert(events.drop_first().last() == events.last());
    }
}

/// A job can be resumed by the same request: two metadata documents built
/// for the same options and source describe the same job, whenever each
/// was created.
pub proof fn lemma_same_request_resumes(
    first: CaptureJobMeta,
    second: CaptureJobMeta,
    options: CaptureOptions,
    source: CaptureSourceInfo,
    first_created: u64,
    second_created: u64,
    encoded_width: u32,
    encoded_height: u32,
)
    requires
        describes_job(first, options, source, first_created, encoded_width, encoded_height),
        describes_job(second, options, source, second_created, encoded_width, encoded_height),
    ensures
        same_job(first, second),
{
}

/// What a run reports agrees with the events it appended: its committed
/// segments are numbered consecutively from its first number, each holds
/// at least one frame, and its segment and frame counters total them.
pub proof fn lemma_run_counts_its_events(run: CaptureRun)
    requires
        run.wf(),
    ensures
        completed_segments(run.run_events()).len() == run.segments(),
        total_frames(completed_segments(run.run_events())) == run.frames(),
        run.next_sequence() == run.first_sequence() + run.segments(),
        forall|k: int|
            0 <= k < run.segments() ==> #[trigger] completed_segments(run.run_events())[k].0
                == run.first_sequence() + k,
        forall|k: int|
            0 <= k < run.segments() ==> #[trigger] completed_segments(run.run_events())[k].1 >= 1,
{
    let events = run.run_events();
    lemma_completed_skip_opening(events);
    assert(events.drop_first() =~= run.document().events@.skip(run.run_start@ + 1));
}

/// Every segment a run commits is new to its job: when the run's first
/// number is [`next_segment_sequence`] of the job's video directory, every
/// committed number exceeds the number of every segment file already there.
pub proof fn lemma_run_never_overwrites(run: CaptureRun, names: Seq<Seq<char>>, i: int, k: int)
    requires
        run.wf(),
        run.first_sequence() == max_segment_number(names) + 1,
        0 <= i < names.len(),
        0 <= k < completed_segments(run.run_events()).len(),
    ensures
        segment_number(names[i]) matches Some(existing) ==> completed_segments(
            run.run_events(),
        )[k].0 > existing,
{
    lemma_next_segment_is_new(names, i);
    let events = run.run_events();
    lemma_completed_skip_opening(events);
    assert(events.drop_first() =~= run.document().events@.skip(run.run_start@ + 1));
}

/// The name of the GStreamer inspector that accompanies the launcher
/// `launch_name`: its first `gst-launch` becomes `gst-inspect`.
pub open spec fn inspect_name(launch_name: Seq<char>) -> Option<Seq<char>> {
    let pattern = "gst-launch"@;
    match first_occurrence(launch_name, pattern) {
        Some(_) => Some(replaced_first(launch_name, pattern, "gst-inspect"@)),
        None => None,
    }
}

/// Derives the GStreamer inspector's file name from the launcher's; none
/// when the launcher's name holds no `gst-launch`.
pub fn inspect_program_name(launch_name: &str) -> (name: Option<String>)
    ensures
        name is Some <==> inspect_name(launch_name@) is Some,
        name matches Some(n) ==> Some(n@) == inspect_name(launch_name@),
{
    let pattern = ['g', 's', 't', '-', 'l', 'a', 'u', 'n', 'c', 'h'];
    let replacement = ['g', 's', 't', '-', 'i', 'n', 's', 'p', 'e', 'c', 't'];
    proof {
        reveal_strlit("gst-launch");
        reveal_strlit("gst-inspect");
        assert(pattern@ =~= "gst-launch"@);
        assert(replacement@ =~= "gst-inspect"@);
    }
    replace_first(launch_name, &pattern, &replacement)
}

/// The GStreamer elements the encoder pipeline needs.
pub fn required_gstreamer_elements() -> (elements: Vec<&'static str>)
    ensures
        elements@.len() == 7,
        elements@[0]@ == "fdsrc"@,
        elements@[1]@ == "rawvideoparse"@,
        elements@[2]@ == "videoconvert"@,
        elements@[3]@ == "videobox"@,
        elements@[4]@ == "x264enc"@,
        elements@[5]@ == "matroskamux"@,
        elements@[6]@ == "filesink"@,
{
    let mut elements: Vec<&'static str> = Vec::new();
    elements.push("fdsrc");
    elements.push("rawvideoparse");
    elements.push("videoconvert");
    elements.push("videobox");
    elements.push("x264enc");
    elements.push("matroskamux");
    elements.push("filesink");
    elements
}

/// `prefix` followed by `value` in decimal.
pub open spec fn decimal_arg(prefix: Seq<char>, value: nat) -> Seq<char> {
    prefix + digits(value, 10, false)
}

/// The arguments of the `gst-launch` pipeline that encodes raw RGBA frames
/// of `width` x `height` pixels read from standard input into an H.264
/// Matroska file at `output`: the frames are padded at the right and bottom
/// to the encoded size.
pub open spec fn gstreamer_args(
    output: Seq<char>,
    width: u32,
    height: u32,
    fps: u32,
    key_frame_interval: u32,
    bitrate_kbps: u32,
    encoded_width: u32,
    encoded_height: u32,
) -> Seq<Seq<char>> {
    seq![
        "-q"@,
        "fdsrc"@,
        "fd=0"@,
        decimal_arg("blocksize="@, width as nat * height as nat * 4),
        "!"@,
        "rawvideoparse"@,
        "format=rgba"@,
        decimal_arg("width="@, width as nat),
        decimal_arg("height="@, height as nat),
        decimal_arg("framerate="@, fps as nat) + "/1"@,
        "!"@,
        "videoconvert"@,
        "!"@,
        "videobox"@,
        decimal_arg("right=-"@, (encoded_width - width) as nat),
        decimal_arg("bottom=-"@, (encoded_height - height) as nat),
        "!"@,
        decimal_arg(decimal_arg("video/x-raw,format=I420,width="@, encoded_width as nat) + ",height="@, encoded_height as nat),
        "!"@,
        "x264enc"@,
        "tune=zerolatency"@,
        "speed-preset=veryfast"@,
        decimal_arg("key-int-max="@, key_frame_interval as nat),
        decimal_arg("bitrate="@, bitrate_kbps as nat),
        "!"@,
        "matroskamux"@,
        "!"@,
        "filesink"@,
        "location="@ + output,
    ]
}

/// The pipeline pads exactly where the frame is odd: `videobox` adds a
/// column on the right only for an odd width and a row at the bottom only
/// for an odd height, so the padded frame has the even size its caps
/// announce, and the raw frames it reads are exactly `width` x `height`
/// RGBA pixels. The frame rate, the key frame interval, the bit rate and
/// the output file are the requested ones.
pub proof fn lemma_pipeline_pads_to_even_size(
    output: Seq<char>,
    width: u32,
    height: u32,
    fps: u32,
    key_frame_interval: u32,
    bitrate_kbps: u32,
)
    requires
        encoded_size(width) is Ok,
        encoded_size(height) is Ok,
    ensures
        ({
            let args = gstreamer_args(
                output,
                width,
                height,
                fps,
                key_frame_interval,
                bitrate_kbps,
                encoded_size(width)->Ok_0,
                encoded_size(height)->Ok_0,
            );
            &&& args.len() == 29
            &&& args[3] == "blocksize="@ + digits((width * height * 4) as nat, 10, false)
            &&& args[9] == "framerate="@ + digits(fps as nat, 10, false) + "/1"@
            &&& args[22] == "key-int-max="@ + digits(key_frame_interval as nat, 10, false)
            &&& args[23] == "bitrate="@ + digits(bitrate_kbps as nat, 10, false)
            &&& args[28] == "location="@ + output
            &&& args[7] == "width="@ + digits(width as nat, 10, false)
            &&& args[8] == "height="@ + digits(height as nat, 10, false)
            &&& args[14] == "right=-"@ + digits((width % 2) as nat, 10, false)
            &&& args[15] == "bottom=-"@ + digits((height % 2) as nat, 10, false)
            &&& args[17] == "video/x-raw,format=I420,width="@ + digits(
                (width + width % 2) as nat,
                10,
                false,
            ) + ",height="@ + digits((height + height % 2) as nat, 10, false)
        }),
        (encoded_size(width)->Ok_0) % 2 == 0,
        (encoded_size(height)->Ok_0) % 2 == 0,
        encoded_size(width)->Ok_0 == width + width % 2,
        encoded_size(height)->Ok_0 == height + height % 2,
{
}

/// The arguments of the segment encoder pipeline writing to `output`; see
/// [`gstreamer_args`]. Fails as [`even_dimension`] does on a dimension that
/// cannot be encoded (width checked first).
pub fn gstreamer_arguments(
    output: &str,
    width: u32,
    height: u32,
    fps: u32,
    key_frame_interval: u32,
    bitrate_kbps: u32,
) -> (arguments: Result<Vec<String>, DimensionError>)
    requires
        width * height * 4 <= u64::MAX,
    ensures
        encoded_size(width) matches Err(error) ==> arguments == Err::<Vec<String>, DimensionError>(error),
        encoded_size(width) is Ok ==> (encoded_size(height) matches Err(error) ==> arguments == Err::<
            Vec<String>,
            DimensionError,
        >(error)),
        encoded_size(width) matches Ok(encoded_width) ==> (encoded_size(height) matches Ok(
            encoded_height,
        ) ==> arguments matches Ok(list) && list@.map_values(|argument: String| argument@)
            == gstreamer_args(
            output@,
            width,
            height,
            fps,
            key_frame_interval,
            bitrate_kbps,
            encoded_width,
            encoded_height,
        )),
{
    let encoded_width = match even_dimension(width) {
        Ok(value) => value,
        Err(error) => return Err(error),
    };
    let encoded_height = match even_dimension(height) {
        Ok(value) => value,
        Err(error) => return Err(error),
    };
    assert((width as u64) * (height as u64) <= u64::MAX) by (nonlinear_arith)
        requires
            width * height * 4 <= u64::MAX,
    ;
    let pixels = (width as u64) * (height as u64) * 4;
    let block_size = labeled("blocksize=", pixels);
    let mut arguments: Vec<String> = Vec::new();
    arguments.push("-q".to_string());
    arguments.push("fdsrc".to_string());
    arguments.push("fd=0".to_string());
    arguments.push(block_size);
    arguments.push("!".to_string());
    arguments.push("rawvideoparse".to_string());
    arguments.push("format=rgba".to_string());
    arguments.push(labeled("width=", width as u64));
    arguments.push(labeled("height=", height as u64));
    let rate = labeled("framerate=", fps as u64);
    arguments.push(concat(rate.as_str(), "/1"));
    arguments.push("!".to_string());
    arguments.push("videoconvert".to_string());
    arguments.push("!".to_string());
    arguments.push("videobox".to_string());
    arguments.push(labeled("right=-", (encoded_width - width) as u64));
    arguments.push(labeled("bottom=-", (encoded_height - height) as u64));
    arguments.push("!".to_string());
    let caps = labeled("video/x-raw,format=I420,width=", encoded_width as u64);
    let caps = concat(caps.as_str(), ",height=");
    arguments.push(labeled(caps.as_str(), encoded_height as u64));
    arguments.push("!".to_string());
    arguments.push("x264enc".to_string());
    arguments.push("tune=zerolatency".to_string());
    arguments.push("speed-preset=veryfast".to_string());
    arguments.push(labeled("key-int-max=", key_frame_interval as u64));
    arguments.push(labeled("bitrate=", bitrate_kbps as u64));
    arguments.push("!".to_string());
    arguments.push("matroskamux".to_string());
    arguments.push("!".to_string());
    arguments.push("filesink".to_string());
    arguments.push(concat("location=", output));
    proof {
        assert(arguments@.map_values(|argument: String| argument@) =~= gstreamer_args(
            output@,
            width,
            height,
            fps,
            key_frame_interval,
            bitrate_kbps,
            encoded_width,
            encoded_height,
        ));
    }
    Ok(arguments)
}

} // verus!
