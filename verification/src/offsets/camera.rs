//! `TwoPlayGame.Cameras.Camera`, which maps the world to the screen.
use vstd::prelude::*;

verus! {

/// `m_Zoom` (f32).
pub const ZOOM: usize = 0x20;

/// `ViewportWidth` (i32).
pub const VIEWPORT_WIDTH: usize = 0x28;

/// `ViewportHeight` (i32).
pub const VIEWPORT_HEIGHT: usize = 0x2C;

/// `m_Transform` (16 x f32, by rows), the matrix the game draws the frame with.
pub const TRANSFORM: usize = 0xF0;

/// `m_CameraPosition` (2 x f32).
pub const CAMERA_POSITION: usize = 0x1D8;

/// `RealPosition` (2 x f32).
pub const REAL_POSITION: usize = 0x1E0;

/// How much of the camera has to be readable before any field is touched.
pub const PROBE_SIZE: usize = REAL_POSITION + 2 * 4;

} // verus!
