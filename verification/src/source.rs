//! Frames handed from a capture source to the encoder.

use vstd::prelude::*;

use crate::protocol::CaptureSourceInfo;

verus! {

/// One captured frame: `rgba` holds `width * height` pixels, four bytes
/// each, row by row.
pub struct CapturedFrame {
    pub width: u32,
    pub height: u32,
    pub rgba: Vec<u8>,
}

/// Whether a capture source can currently deliver frames.
#[derive(Debug, Clone, Copy, PartialEq, Eq, Structural)]
pub enum SourceState {
    Available,
    Hidden,
    Destroyed,
}

/// Something that delivers frames of one window or surface.
pub trait CaptureSource {
    /// Describes the source.
    fn info(&self) -> CaptureSourceInfo;

    /// Captures one frame, or says why none could be captured.
    fn capture(&mut self) -> Result<CapturedFrame, String>;

    /// Whether the source can deliver frames; by default it always can.
    fn state(&self) -> (state: Result<SourceState, String>)
        default_ensures
            state == Ok::<SourceState, String>(SourceState::Available),
    {
        Ok(SourceState::Available)
    }
}

} // verus!
