//! `System.String` of the 32-bit .NET Framework.
use vstd::prelude::*;

verus! {

/// `m_stringLength` (i32), counted in UTF-16 units.
pub const LENGTH: usize = 0x04;

/// `m_firstChar`, where the UTF-16 units begin.
pub const FIRST_CHAR: usize = 0x08;

/// Longest plausible name. Anything longer is not a string.
pub const MAX_CHARS: i32 = 256;

} // verus!
