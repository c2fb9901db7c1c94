//! `System.Collections.Generic.List<T>` of the 32-bit .NET Framework.
use vstd::prelude::*;

verus! {

/// `_items`, a pointer to the managed array.
pub const ITEMS: usize = 0x04;

/// `_size` (i32), the number of elements in use.
pub const SIZE: usize = 0x0C;

/// Offset of the first element inside the managed array.
pub const ARRAY_DATA: usize = 0x08;

} // verus!
