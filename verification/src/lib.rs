//! Verified core of the passive window capture agent: the job protocol,
//! the deterministic test pattern, pixel conversions, segment naming and the
//! capture job lifecycle.

pub mod protocol;
pub mod source;
pub mod test_pattern;
pub mod pixels;
pub mod text;
pub mod runner;
pub mod registry;
pub mod platform;
pub mod ordering;
pub mod window_list;
pub mod thumbnail;
pub mod encoder;
pub mod encoding;
pub mod launcher;
pub mod cli;
pub mod settings;
pub mod packaging;
