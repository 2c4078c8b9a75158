//! How a camera's view adapts to the window's shape.
use vstd::prelude::*;

verus! {

/// Which side of the window a camera's size spans; the other side follows
/// the window's aspect ratio.
#[derive(Debug, Copy, Clone, PartialEq, Eq, Structural)]
pub enum CameraScaleMode {
    /// The size spans the window's width.
    Width,
    /// The size spans the window's height.
    Height,
    /// The size spans the window's shorter side.
    Min,
}

/// Whether a camera in `mode` spans the width of a window of `window_size`
/// pixels (rather than its height).
pub open spec fn spans_width(mode: CameraScaleMode, window_size: (u32, u32)) -> bool {
    match mode {
        CameraScaleMode::Width => true,
        CameraScaleMode::Height => false,
        CameraScaleMode::Min => window_size.0 < window_size.1,
    }
}

impl CameraScaleMode {
    /// Tells whether the camera's size spans the window's width; when it
    /// does not, it spans the height. A square window is spanned by height.
    pub fn fits_width(self, window_size: (u32, u32)) -> (r: bool)
        ensures
            r == spans_width(self, window_size),
    {
        match self {
            CameraScaleMode::Width => true,
            CameraScaleMode::Height => false,
            CameraScaleMode::Min => window_size.0 < window_size.1,
        }
    }
}

} // verus!
