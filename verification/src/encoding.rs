//! The decisions of the bundled FFmpeg encoder: what a Matroska/H.264
//! encoder is opened with, which RGBA frames it accepts, how the result of
//! receiving a packet is handled, and how a failed FFmpeg call is reported.
//! The FFmpeg calls themselves are made by the native runtime.

use vstd::prelude::*;

use crate::runner::{encoded_size, even_dimension};
use crate::text::{concat, decimal, digits};

verus! {

broadcast use vstd::string::group_string_axioms;

/// FFmpeg's end-of-stream code, `AVERROR_EOF`.
pub const AVERROR_EOF: i32 = -541478725i32;

/// FFmpeg's "try again" code, `AVERROR(EAGAIN)`.
pub const AVERROR_EAGAIN: i32 = -11i32;

/// Why the encoder refused its options.
#[derive(Debug, Clone, Copy, PartialEq, Eq, Structural)]
pub enum EncoderOptionsError {
    /// The width, the height or the frame rate is zero.
    Invalid,
    /// Rounding the width or the height up to an even number overflows.
    TooLarge,
}

/// The settings an H.264 encoder context is opened with.
#[derive(Debug, Clone, Copy, PartialEq, Eq, Structural)]
pub struct EncoderSettings {
    /// Width of the frames handed to the encoder.
    pub source_width: u32,
    /// Height of the frames handed to the encoder.
    pub source_height: u32,
    /// Encoded width: the source width rounded up to an even number.
    pub encoded_width: u32,
    /// Encoded height: the source height rounded up to an even number.
    pub encoded_height: u32,
    /// Frames per second; the time base is one over it.
    pub fps: u32,
    /// Target bit rate in bits per second.
    pub bit_rate: i64,
    /// Distance between key frames, in frames.
    pub gop_size: u32,
}

/// The settings for a frame size, frame rate, key frame interval and bit
/// rate in kbit/s, or why they are refused.
pub open spec fn settings_for(
    width: u32,
    height: u32,
    fps: u32,
    key_frame_interval: u32,
    bitrate_kbps: u32,
) -> Result<EncoderSettings, EncoderOptionsError> {
    if width == 0 || height == 0 || fps == 0 {
        Err(EncoderOptionsError::Invalid)
    } else if encoded_size(width) is Err || encoded_size(height) is Err {
        Err(EncoderOptionsError::TooLarge)
    } else {
        Ok(
            EncoderSettings {
                source_width: width,
                source_height: height,
                encoded_width: encoded_size(width)->Ok_0,
                encoded_height: encoded_size(height)->Ok_0,
                fps,
                bit_rate: (bitrate_kbps * 1000) as i64,
                gop_size: key_frame_interval,
            },
        )
    }
}

/// The encoder runs at the requested frame rate, puts a key frame every
/// `key_frame_interval` frames, targets `bitrate_kbps` thousand bits per
/// second, and encodes the smallest even size that holds the frame: one
/// extra column or row exactly where the source size is odd. Options are
/// refused exactly when a size or the frame rate is zero, or a size is
/// `u32::MAX`.
pub proof fn lemma_encoder_settings_follow_request(
    width: u32,
    height: u32,
    fps: u32,
    key_frame_interval: u32,
    bitrate_kbps: u32,
)
    ensures
        settings_for(width, height, fps, key_frame_interval, bitrate_kbps) is Ok <==> (width > 0
            && height > 0 && fps > 0 && width < u32::MAX && height < u32::MAX),
        settings_for(width, height, fps, key_frame_interval, bitrate_kbps) matches Ok(settings) ==> {
            &&& settings.fps == fps
            &&& settings.gop_size == key_frame_interval
            &&& settings.bit_rate == bitrate_kbps * 1000
            &&& settings.source_width == width
            &&& settings.source_height == height
            &&& settings.encoded_width == width + width % 2
            &&& settings.encoded_height == height + height % 2
            &&& settings.encoded_width % 2 == 0
            &&& settings.encoded_height % 2 == 0
            &&& (settings.encoded_width != width <==> width % 2 == 1)
            &&& (settings.encoded_height != height <==> height % 2 == 1)
        },
{
}

/// The settings the encoder is opened with; see [`settings_for`].
pub fn encoder_settings(
    width: u32,
    height: u32,
    fps: u32,
    key_frame_interval: u32,
    bitrate_kbps: u32,
) -> (settings: Result<EncoderSettings, EncoderOptionsError>)
    ensures
        settings == settings_for(width, height, fps, key_frame_interval, bitrate_kbps),
{
    if width == 0 || height == 0 || fps == 0 {
        return Err(EncoderOptionsError::Invalid);
    }
    let encoded_width = match even_dimension(width) {
        Ok(even) => even,
        Err(_) => return Err(EncoderOptionsError::TooLarge),
    };
    let encoded_height = match even_dimension(height) {
        Ok(even) => even,
        Err(_) => return Err(EncoderOptionsError::TooLarge),
    };
    let kbps: i64 = bitrate_kbps as i64;
    Ok(
        EncoderSettings {
            source_width: width,
            source_height: height,
            encoded_width,
            encoded_height,
            fps,
            bit_rate: kbps * 1000,
            gop_size: key_frame_interval,
        },
    )
}

impl EncoderSettings {
    /// Whether frames are padded before encoding: the source size is odd in
    /// at least one dimension.
    pub open spec fn pads(&self) -> bool {
        self.source_width != self.encoded_width || self.source_height != self.encoded_height
    }

    /// The byte length of an RGBA source frame.
    pub open spec fn frame_length(&self) -> int {
        self.source_width * self.source_height * 4
    }

    /// Whether frames are padded; see [`EncoderSettings::pads`].
    pub fn needs_padding(&self) -> (pads: bool)
        ensures
            pads == self.pads(),
    {
        self.source_width != self.encoded_width || self.source_height != self.encoded_height
    }

    /// Accepts an RGBA frame of `length` bytes when it holds exactly one
    /// source frame; otherwise hands back the length and the expected one.
    pub fn check_frame_length(&self, length: usize) -> (result: Result<(), (usize, usize)>)
        requires
            self.frame_length() <= usize::MAX,
        ensures
            result is Ok <==> length == self.frame_length(),
            result matches Err((actual, expected)) ==> actual == length && expected
                == self.frame_length(),
    {
        let width: usize = self.source_width as usize;
        let height: usize = self.source_height as usize;
        assert(width * height <= width * height * 4) by (nonlinear_arith);
        let expected = width * height * 4;
        if length == expected {
            Ok(())
        } else {
            Err((length, expected))
        }
    }
}

/// What the encoder does after asking for an encoded packet.
#[derive(Debug, Clone, Copy, PartialEq, Eq, Structural)]
pub enum DrainStep {
    /// A packet came back: write it and ask again.
    WritePacket,
    /// No packet is pending: draining is done.
    Done,
    /// The encoder wants more input while it is being flushed.
    FlushIncomplete,
    /// Receiving failed with this FFmpeg code.
    Failed(i32),
}

/// The step after `avcodec_receive_packet` returned `code`.
pub open spec fn drain_step_for(code: i32, flushing: bool) -> DrainStep {
    if code == AVERROR_EOF || code == AVERROR_EAGAIN {
        if flushing && code != AVERROR_EOF {
            DrainStep::FlushIncomplete
        } else {
            DrainStep::Done
        }
    } else if code < 0 {
        DrainStep::Failed(code)
    } else {
        DrainStep::WritePacket
    }
}

/// The step after receiving a packet; see [`drain_step_for`].
pub fn drain_step(code: i32, flushing: bool) -> (step: DrainStep)
    ensures
        step == drain_step_for(code, flushing),
{
    if code == AVERROR_EOF || code == AVERROR_EAGAIN {
        if flushing && code != AVERROR_EOF {
            DrainStep::FlushIncomplete
        } else {
            DrainStep::Done
        }
    } else if code < 0 {
        DrainStep::Failed(code)
    } else {
        DrainStep::WritePacket
    }
}

/// An integer written in decimal, with a minus sign when negative.
pub open spec fn signed_digits(value: int) -> Seq<char> {
    if value < 0 {
        seq!['-'] + digits((-value) as nat, 10, false)
    } else {
        digits(value as nat, 10, false)
    }
}

/// `value` in decimal, as `format!("{value}")`.
pub fn signed_decimal(value: i32) -> (text: String)
    ensures
        text@ == signed_digits(value as int),
{
    if value < 0 {
        let wide: i64 = value as i64;
        let magnitude: u64 = (-wide) as u64;
        let number = decimal(magnitude);
        proof {
            reveal_strlit("-");
        }
        concat("-", number.as_str())
    } else {
        let magnitude: u64 = value as u64;
        decimal(magnitude)
    }
}

/// How a failed FFmpeg call is reported: the operation, FFmpeg's
/// description of the code, and the code in brackets.
pub open spec fn failure_message(operation: Seq<char>, detail: Seq<char>, code: int) -> Seq<char> {
    operation + ": "@ + detail + " ("@ + signed_digits(code) + ")"@
}

/// The report of a failed FFmpeg call; see [`failure_message`].
pub fn ffmpeg_failure(operation: &str, detail: &str, code: i32) -> (message: String)
    ensures
        message@ == failure_message(operation@, detail@, code as int),
{
    let head = concat(operation, ": ");
    let with_detail = concat(head.as_str(), detail);
    let open = concat(with_detail.as_str(), " (");
    let number = signed_decimal(code);
    let with_code = concat(open.as_str(), number.as_str());
    concat(with_code.as_str(), ")")
}

/// The outcome of an FFmpeg call that returned `code`: success for a
/// non-negative code, else the report of the failure, with FFmpeg's
/// description of the code in `detail`.
pub fn ffmpeg_result(code: i32, operation: &str, detail: &str) -> (result: Result<(), String>)
    ensures
        code >= 0 ==> result is Ok,
        code < 0 ==> (result matches Err(message) && message@ == failure_message(
            operation@,
            detail@,
            code as int,
        )),
{
    if code >= 0 {
        Ok(())
    } else {
        Err(ffmpeg_failure(operation, detail, code))
    }
}

} // verus!
