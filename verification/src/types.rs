//! Facts about the dumped task: its loaded images and virtual-memory regions,
//! as plain values the writer's logic can reason about.

use vstd::prelude::*;

verus! {

/// The user tag a kernel gives regions that back thread stacks.
pub const VM_MEMORY_STACK: u32 = 30;

/// Protection bit: the region is readable.
pub const VM_PROT_READ: i32 = 1;

/// Protection bit: the region is writable.
pub const VM_PROT_WRITE: i32 = 2;

/// Protection bit: the region is executable.
pub const VM_PROT_EXECUTE: i32 = 4;

/// The head of the loader's image list, as read from the task.
///
/// Only the leading fields are meaningful to the writer; the rest are carried
/// through untouched.
#[derive(Clone, Copy, Debug, PartialEq, Eq, Structural)]
pub struct AllImagesInfo {
    /// Version of the image-list structure.
    pub version: u32,
    /// The number of [`ImageInfo`] records at the following address.
    pub info_array_count: u32,
    /// The address in the task where the array of [`ImageInfo`] records is.
    pub info_array_addr: u64,
    /// A function pointer, unused.
    pub _notification: u64,
    /// Unused.
    pub _process_detached_from_shared_region: bool,
    /// Whether the system library finished initializing.
    pub lib_system_initialized: bool,
    /// Where the loader itself is loaded.
    pub dyld_image_load_address: u64,
}

/// One loaded image of the task. Images compare and order by their load
/// address alone: the loader may report one image twice.
#[derive(Clone, Copy, Debug)]
pub struct ImageInfo {
    /// The address in the task where the image is loaded.
    pub load_address: u64,
    /// The address in the task where the image's file path can be read.
    pub file_path: u64,
    /// Timestamp for when the image's file was last modified.
    pub file_mod_date: u64,
}

impl PartialEq for ImageInfo {
    fn eq(&self, o: &ImageInfo) -> (r: bool) {
        self.load_address == o.load_address
    }
}

impl vstd::std_specs::cmp::PartialEqSpecImpl for ImageInfo {
    open spec fn obeys_eq_spec() -> bool {
        true
    }

    open spec fn eq_spec(&self, o: &ImageInfo) -> bool {
        self.load_address == o.load_address
    }
}

impl Eq for ImageInfo {

}

impl PartialOrd for ImageInfo {
    fn partial_cmp(&self, o: &ImageInfo) -> (r: Option<core::cmp::Ordering>) {
        if self.load_address < o.load_address {
            Some(core::cmp::Ordering::Less)
        } else if self.load_address == o.load_address {
            Some(core::cmp::Ordering::Equal)
        } else {
            Some(core::cmp::Ordering::Greater)
        }
    }
}

impl vstd::std_specs::cmp::PartialOrdSpecImpl for ImageInfo {
    open spec fn obeys_partial_cmp_spec() -> bool {
        true
    }

    open spec fn partial_cmp_spec(&self, o: &ImageInfo) -> Option<core::cmp::Ordering> {
        if self.load_address < o.load_address {
            Some(core::cmp::Ordering::Less)
        } else if self.load_address == o.load_address {
            Some(core::cmp::Ordering::Equal)
        } else {
            Some(core::cmp::Ordering::Greater)
        }
    }
}

/// One region of the task's virtual memory, with the submap fields the writer
/// reads: its span, its user tag, and its protection bits.
#[derive(Clone, Copy, Debug, PartialEq, Eq, Structural)]
pub struct VMRegionInfo {
    /// First address of the region.
    pub start: u64,
    /// One past the last address of the region.
    pub end: u64,
    /// The kernel's user tag for the region, eg stack memory.
    pub user_tag: u32,
    /// The region's protection bits.
    pub protection: i32,
}

impl VMRegionInfo {
    /// A region is sane when its span does not run backwards.
    pub open spec fn wf(&self) -> bool {
        self.start <= self.end
    }

    /// Whether `addr` lies inside the region.
    pub open spec fn spec_contains(&self, addr: u64) -> bool {
        self.start <= addr < self.end
    }

    /// Whether the region is readable.
    pub open spec fn spec_is_readable(&self) -> bool {
        self.protection & VM_PROT_READ != 0
    }

    /// Whether the region is tagged as stack memory.
    pub open spec fn spec_is_stack(&self) -> bool {
        self.user_tag == VM_MEMORY_STACK
    }

    /// Returns whether `addr` lies inside the region.
    pub fn contains(&self, addr: u64) -> (r: bool)
        ensures
            r == self.spec_contains(addr),
    {
        self.start <= addr && addr < self.end
    }

    /// Returns whether the region is readable.
    pub fn is_readable(&self) -> (r: bool)
        ensures
            r == self.spec_is_readable(),
    {
        self.protection & VM_PROT_READ != 0
    }

    /// Returns whether the region is tagged as stack memory.
    pub fn is_stack(&self) -> (r: bool)
        ensures
            r == self.spec_is_stack(),
    {
        self.user_tag == VM_MEMORY_STACK
    }
}

} // verus!
