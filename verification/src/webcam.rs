//! Webcam capture settings and the decisions of the capture loop: frame-rate
//! pacing and the device fallback. The blocking acquisition itself runs
//! outside this library and feeds rasters to [`crate::ascii::to_ascii_frame`].

use vstd::prelude::*;
use vstd::string::StringExecFns;

verus! {

/// Configuration for webcam capture.
pub struct WebcamConfig {
    /// Device name, such as `/dev/video0` on Linux or `0` on macOS.
    pub device: String,
    /// Target width in cells.
    pub width: u16,
    /// Target height in cells.
    pub height: u16,
    /// Frame-rate cap in frames per second; 0 means uncapped.
    pub fps_cap: u32,
    /// Monochrome mode.
    pub mono: bool,
}

impl Default for WebcamConfig {
    /// The default capture: device `0`, an 80 by 24 cell grid, 30 frames
    /// per second, in color.
    fn default() -> (c: WebcamConfig)
        ensures
            c.device@ == "0"@,
            c.width == 80,
            c.height == 24,
            c.fps_cap == 30,
            c.mono == false,
    {
        WebcamConfig {
            device: String::from_str("0"),
            width: 80,
            height: 24,
            fps_cap: 30,
            mono: false,
        }
    }
}

/// Commands to control the capture loop.
pub enum WebcamCommand {
    Stop,
}

/// How long the producer still has to wait after a decoded frame: the
/// remainder of one frame interval (`1000 / fps_cap` milliseconds), measured
/// from the end of the previous emission. An uncapped producer never waits.
pub open spec fn spec_frame_wait(fps_cap: u32, elapsed_ms: u64) -> int {
    if fps_cap == 0 {
        0
    } else {
        let interval = 1000 as int / fps_cap as int;
        if elapsed_ms < interval {
            interval - elapsed_ms
        } else {
            0
        }
    }
}

/// The pacing decision of the capture loop: how many milliseconds to sleep
/// before producing the next frame.
pub fn frame_wait_ms(fps_cap: u32, elapsed_ms: u64) -> (wait: u64)
    ensures
        wait == spec_frame_wait(fps_cap, elapsed_ms),
{
    if fps_cap == 0 {
        0
    } else {
        let interval: u64 = 1000 / (fps_cap as u64);
        if elapsed_ms < interval {
            interval - elapsed_ms
        } else {
            0
        }
    }
}

/// The device list offered to the user, given the device names a probe
/// found: what was found, or the standard default device when the probe
/// came up empty.
pub fn detect_devices(found: Vec<String>) -> (r: Vec<String>)
    ensures
        found@.len() > 0 ==> r == found,
        found@.len() == 0 ==> r@.len() == 1 && r@[0]@ == "/dev/video0"@,
{
    if found.is_empty() {
        let mut r: Vec<String> = Vec::new();
        r.push(String::from_str("/dev/video0"));
        r
    } else {
        found
    }
}

} // verus!
