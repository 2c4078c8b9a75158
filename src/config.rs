//! Settings read at startup.
use vstd::prelude::*;

verus! {

/// All settings.
#[derive(Debug, Copy, Clone, PartialEq, Eq, Structural)]
pub struct Config {
    pub video: VideoConfig,
}

/// Window settings.
#[derive(Debug, Copy, Clone, PartialEq, Eq, Structural)]
pub struct VideoConfig {
    /// Width of the window, in pixels.
    pub width: u32,
    /// Height of the window, in pixels.
    pub height: u32,
    /// Wait for the display's refresh before presenting a frame.
    pub vsync: bool,
}

} // verus!
