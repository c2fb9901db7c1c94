//! `Bloody_Trapland.WorldObjects.Trap` and its descendants.
//!
//! Everything below 0x90 belongs to the common ancestor of all level objects.
//! At 0xA4 and 0xAC a plain `Trap` keeps a second collision rectangle, while a
//! `BoomTrap` keeps its speed and its trigger flag there. Those two fields are
//! therefore only for classes that the user has marked.
use vstd::prelude::*;

verus! {

/// `Name`, a pointer to a `System.String`.
pub const NAME: usize = 0x20;

/// `PositionX` and `PositionY` (2 x f32), the upper left corner in the world.
pub const POSITION_X: usize = 0x24;

/// `Used` (u8).
pub const USED: usize = 0x44;

/// `Updateable` (u8).
pub const UPDATEABLE: usize = 0x45;

/// `GoreStick` (u8).
pub const GORE_STICK: usize = 0x46;

/// `m_Bounding` (4 x i32), the collision rectangle in world coordinates.
/// Some objects leave it empty.
pub const BOUNDING: usize = 0x50;

/// `m_Rectangle` (4 x i32), a frame of the texture atlas. Only its size says
/// something about the world.
pub const SOURCE_RECT: usize = 0x70;

/// `Position` (2 x f32), a second position.
pub const POSITION: usize = 0x88;

/// `Speed` (f32) of a `BoomTrap`.
pub const BOOM_SPEED: usize = 0xA4;

/// `m_CanTrigger` (u8) of a `BoomTrap`.
pub const BOOM_CAN_TRIGGER: usize = 0xAC;

/// Enough for the fields that all traps share.
pub const PROBE_SIZE: usize = POSITION + 2 * 4;

/// Enough for the fields of a `BoomTrap`.
pub const BOOM_PROBE_SIZE: usize = BOOM_CAN_TRIGGER + 1;

} // verus!
