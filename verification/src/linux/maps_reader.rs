//! One normalized memory mapping of the target process: the merged range used
//! for module identification, and the kernel's literal ("system") range used
//! by the pointer sanitizer.

use vstd::prelude::*;

verus! {

/// Read, write, and execute permission bits of a mapping.
#[derive(Clone, Copy, Debug, PartialEq, Eq, Structural)]
pub struct Permissions {
    pub read: bool,
    pub write: bool,
    pub execute: bool,
}

/// The kernel's literal range for a mapping, before adjacent regions of one
/// file were coalesced.
#[derive(Clone, Copy, Debug, PartialEq, Eq, Structural)]
pub struct SystemMappingInfo {
    pub start_address: usize,
    pub end_address: usize,
}

/// One memory mapping of the target, read-only once constructed.
#[derive(Clone, Debug)]
pub struct MappingInfo {
    /// First address of the merged range.
    pub start_address: usize,
    /// Length of the merged range.
    pub size: usize,
    /// File offset the mapping starts at.
    pub offset: usize,
    /// Permission bits.
    pub permissions: Permissions,
    /// Backing file path, when the mapping has one.
    pub name: Option<String>,
    /// The kernel's literal range.
    pub system_mapping_info: SystemMappingInfo,
}

impl MappingInfo {
    /// Whether `address` lies in the merged range.
    pub open spec fn spec_contains_address(&self, address: usize) -> bool {
        self.start_address <= address && address < self.start_address + self.size
    }

    /// Whether `address` lies in the kernel's literal range.
    pub open spec fn spec_system_contains(&self, address: usize) -> bool {
        self.system_mapping_info.start_address <= address && address
            < self.system_mapping_info.end_address
    }

    /// Whether the 64-bit value lies in the merged range.
    pub open spec fn spec_contains_u64(&self, address: u64) -> bool {
        self.start_address <= address && address < self.start_address + self.size
    }

    /// Whether the 64-bit value lies in the kernel's literal range.
    pub open spec fn spec_system_contains_u64(&self, address: u64) -> bool {
        self.system_mapping_info.start_address <= address && address
            < self.system_mapping_info.end_address
    }

    /// Whether the mapping is executable.
    pub open spec fn spec_is_executable(&self) -> bool {
        self.permissions.execute
    }

    /// Returns whether `address` lies in the merged range.
    pub fn contains_address(&self, address: usize) -> (r: bool)
        ensures
            r == self.spec_contains_address(address),
    {
        self.start_address <= address && address - self.start_address < self.size
    }

    /// Returns whether the mapping is executable.
    pub fn is_executable(&self) -> (r: bool)
        ensures
            r == self.spec_is_executable(),
    {
        self.permissions.execute
    }

    /// Returns whether the mapping is readable.
    pub fn is_readable(&self) -> (r: bool)
        ensures
            r == self.permissions.read,
    {
        self.permissions.read
    }

    /// Returns whether the mapping is writable.
    pub fn is_writable(&self) -> (r: bool)
        ensures
            r == self.permissions.write,
    {
        self.permissions.write
    }
}

/// The kernel's literal ranges never overlap: at most one mapping contains a
/// given address in its system range.
pub open spec fn system_ranges_disjoint(mappings: Seq<MappingInfo>) -> bool {
    forall|i: int, j: int, a: u64|
        0 <= i < mappings.len() && 0 <= j < mappings.len()
            && #[trigger] mappings[i].spec_system_contains_u64(a)
            && #[trigger] mappings[j].spec_system_contains_u64(a) ==> i == j
}

} // verus!
