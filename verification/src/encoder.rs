//! The video encoder a capture agent writes its segments with: the
//! interface every encoder offers, and the one-time installation of the
//! factory that makes them.

use vstd::prelude::*;

use crate::source::CapturedFrame;

verus! {

/// An encoder that turns captured frames into one video segment.
pub trait VideoEncoder: Sized {
    /// Encodes one frame.
    fn write_frame(&mut self, frame: &CapturedFrame) -> Result<(), String>;

    /// Flushes the encoder and completes the segment.
    fn finish(self) -> Result<(), String>;

    /// Abandons the segment.
    fn abort(self) -> Result<(), String>;
}

/// Why an encoder factory could not be installed or used.
#[derive(Debug, Clone, Copy, PartialEq, Eq, Structural)]
pub enum EncoderError {
    /// A different factory is already installed.
    DifferentFactoryInstalled,
    /// No factory has been installed.
    NotInstalled,
}

/// The encoder factory of a process, installed at most once; factories are
/// told apart by an identity the caller assigns.
pub struct EncoderRegistry {
    installed: Option<u64>,
}

impl EncoderRegistry {
    /// The identity of the installed factory, if any.
    pub closed spec fn installed_factory(&self) -> Option<u64> {
        self.installed
    }

    /// A registry with no factory installed.
    pub fn new() -> (registry: Self)
        ensures
            registry.installed_factory() is None,
    {
        EncoderRegistry { installed: None }
    }

    /// Installs `factory`. Installing the factory that is already installed
    /// succeeds and changes nothing; installing another one fails.
    pub fn install_encoder_factory(&mut self, factory: u64) -> (result: Result<(), EncoderError>)
        ensures
            match old(self).installed_factory() {
                None => result == Ok::<(), EncoderError>(()) && final(self).installed_factory()
                    == Some(factory),
                Some(installed) => final(self).installed_factory() == Some(installed) && result
                    == if installed == factory {
                    Ok::<(), EncoderError>(())
                } else {
                    Err(EncoderError::DifferentFactoryInstalled)
                },
            },
    {
        match self.installed {
            Some(installed) => {
                if installed == factory {
                    Ok(())
                } else {
                    Err(EncoderError::DifferentFactoryInstalled)
                }
            },
            None => {
                self.installed = Some(factory);
                Ok(())
            },
        }
    }

    /// Succeeds when a factory is installed.
    pub fn verify_video_runtime(&self) -> (result: Result<(), EncoderError>)
        ensures
            result == if self.installed_factory() is Some {
                Ok::<(), EncoderError>(())
            } else {
                Err(EncoderError::NotInstalled)
            },
    {
        match self.installed {
            Some(_) => Ok(()),
            None => Err(EncoderError::NotInstalled),
        }
    }
}

} // verus!
