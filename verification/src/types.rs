//! Addresses and pages.

use vstd::prelude::*;

verus! {

/// A virtual address.
pub type VirtAddr = usize;

/// A guest physical address.
pub type PhysAddr = usize;

/// Size of a page in bytes.
pub const PAGE_SIZE: usize = 4096;

} // verus!
