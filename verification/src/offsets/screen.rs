//! `Bloody_Trapland.Screens.GameplayScreen`, the base class of a level screen.
//!
//! The screen of an online session is of a derived class. Every offset here
//! belongs to the base class, so it holds in both modes.
use vstd::prelude::*;

verus! {

/// `TrapList`, a `List<Trap>`.
pub const TRAP_LIST: usize = 0x34;

/// `PlayerList`, a `List<Player>` with the local players.
pub const PLAYER_LIST: usize = 0x3C;

/// `RemotePlayerList`, a `List<Player>` with the network players.
pub const REMOTE_PLAYER_LIST: usize = 0x40;

/// `MergedPlayerList`, a `List<Player>` with both.
pub const MERGED_PLAYER_LIST: usize = 0x44;

/// `camera`, a pointer to the camera object.
pub const CAMERA: usize = 0x4C;

/// `m_Online` (u8): whether the session is a network session.
pub const IS_ONLINE: usize = 0xD1;

} // verus!
