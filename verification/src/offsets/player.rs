//! `Bloody_Trapland.GameObjects.Player`.
use vstd::prelude::*;

verus! {

/// `m_UniqueID` (i32), stable for a session. User settings are keyed by it and
/// not by the address, which changes with every compacting collection.
pub const UNIQUE_ID: usize = 0x04;

/// `m_Position` (2 x f32). Writing here teleports the character.
pub const POSITION: usize = 0x0C;

/// `m_Color` (u32), a packed XNA colour, red in the low byte.
pub const COLOR: usize = 0x38;

/// `m_BoundingRect` (4 x i32).
pub const BOUNDING_RECT: usize = 0x3C;

/// `m_Name`, a pointer to a `System.String`.
pub const NAME: usize = 0x54;

/// `RemotePlayer` (u8): whether the player is controlled over the network.
pub const REMOTE_PLAYER: usize = 0x6D;

/// `GameplayScreen`, a pointer to the screen that owns the object lists.
pub const GAMEPLAY_SCREEN: usize = 0xAC;

/// `DeltaSpeed` (f32), shown as the speed of the player.
pub const DELTA_SPEED: usize = 0xE0;

/// `InitialJumpHeight` (f32).
pub const INITIAL_JUMP_HEIGHT: usize = 0xEC;

/// `GravityAmountDefault` (f32).
pub const GRAVITY_DEFAULT: usize = 0x10C;

/// `gravityAmount` (f32).
pub const GRAVITY: usize = 0x110;

/// `Alive` (u8). Clearing it makes the game respawn the player.
pub const ALIVE: usize = 0x142;

/// `JumpBeenReleased` (u8).
pub const JUMP_BEEN_RELEASED: usize = 0x143;

/// `CanJump` (u8).
pub const CAN_JUMP: usize = 0x144;

/// `canDie` (u8).
pub const CAN_DIE: usize = 0x150;

/// `isLocal` (u8).
pub const IS_LOCAL: usize = 0x152;

/// How much of the object has to be readable before any field is touched.
pub const PROBE_SIZE: usize = IS_LOCAL + 1;

} // verus!
