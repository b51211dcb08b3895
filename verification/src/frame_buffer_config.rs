//! Description of the linear frame buffer handed over by the boot loader.

use vstd::prelude::*;

verus! {

/// Byte order of the colour channels inside one four-byte pixel.
#[derive(Clone, Copy, PartialEq, Eq, Structural, Debug)]
pub enum PixelFormat {
    /// Red, green, blue, reserved.
    Rgb,
    /// Blue, green, red, reserved.
    Bgr,
}

/// Geometry and location of the frame buffer.
#[derive(Clone, Copy, Debug)]
pub struct FrameBufferConfig {
    /// Address of the first pixel.
    pub frame_buffer: usize,
    /// Pixels between the starts of two consecutive rows.
    pub pixels_per_scan_line: usize,
    /// Visible pixels per row.
    pub horizontal_resolution: usize,
    /// Number of rows.
    pub vertical_resolution: usize,
    /// Channel order.
    pub pixel_format: PixelFormat,
}

} // verus!
