//! Field offsets of the game objects, named after the fields of the game.
//!
//! The game is a 32-bit process, so a pointer and an element of a managed array
//! of references both take four bytes.
use vstd::prelude::*;

pub mod camera;
pub mod list;
pub mod player;
pub mod screen;
pub mod string;
pub mod trap;

verus! {

/// Size of a pointer in the address space of the game.
pub const PTR_SIZE: usize = 4;

/// No object lives below this address: Windows never hands out the first 64 KiB.
pub const MIN_VALID_ADDRESS: usize = 0x1_0000;

/// The method table pointer of a managed object. All instances of one class
/// share its value, so it identifies the class.
pub const METHOD_TABLE: usize = 0x00;

} // verus!
