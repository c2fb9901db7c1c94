//! The part of the Win32 memory interface that the region checks speak of.
use vstd::prelude::*;

verus! {

/// State of a region whose pages are committed.
pub const MEM_COMMIT: u32 = 0x1000;

/// Type of a region that no image or file is mapped into.
pub const MEM_PRIVATE: u32 = 0x2_0000;

/// Read only pages.
pub const PAGE_READONLY: u32 = 0x02;

/// Readable and writable pages.
pub const PAGE_READWRITE: u32 = 0x04;

/// Pages that are copied on the first write.
pub const PAGE_WRITECOPY: u32 = 0x08;

/// Executable and readable pages.
pub const PAGE_EXECUTE_READ: u32 = 0x20;

/// Executable, readable and writable pages.
pub const PAGE_EXECUTE_READWRITE: u32 = 0x40;

/// Executable pages that are copied on the first write.
pub const PAGE_EXECUTE_WRITECOPY: u32 = 0x80;

/// Modifier of guard pages, whose first access raises an exception.
pub const PAGE_GUARD: u32 = 0x100;

/// The protection constants are values of the low byte and not single bits.
pub const PROTECTION_MASK: u32 = 0xFF;

/// What `VirtualQuery` says of one region.
#[derive(Clone, Copy, Debug, PartialEq, Eq, Structural)]
pub struct RegionInfo {
    /// First address of the region.
    pub base: usize,
    /// Size of the region in bytes.
    pub size: usize,
    /// `State`, such as [`MEM_COMMIT`].
    pub state: u32,
    /// `Protect`, such as [`PAGE_READWRITE`].
    pub protect: u32,
    /// `Type`, such as [`MEM_PRIVATE`].
    pub kind: u32,
}

} // verus!
