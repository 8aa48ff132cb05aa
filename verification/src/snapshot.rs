//! The facts a platform dumper extracts from the target task, as plain values.
//!
//! Extraction is syscall work done at the edge; everything the writer decides
//! and serializes from these facts is verified here.

use vstd::prelude::*;

use crate::crash_context::ThreadState;
use crate::types::{ImageInfo, VMRegionInfo};

verus! {

/// One thread of the task as captured while it was inspectable.
#[derive(Clone, Debug)]
pub struct ThreadCapture {
    /// Thread id.
    pub tid: u32,
    /// How many times the thread was suspended.
    pub suspend_count: u32,
    /// The scheduling-policy value reported for the thread, recorded as its
    /// priority.
    pub priority: u32,
    /// The thread's register state, or nothing when reading it failed; such a
    /// thread is listed with an empty context and stack.
    pub state: Option<ThreadState>,
    /// The bytes of the thread's stack, read from the stack pointer upward
    /// over the range the stack analyzer computed. `None` when the read
    /// failed or was never attempted.
    pub stack_read: Option<Vec<u8>>,
}

/// One loaded image and the load-command facts read from its header.
#[derive(Clone, Debug)]
pub struct ImageCapture {
    /// The loader's record of the image.
    pub info: ImageInfo,
    /// The image's load commands, already parsed to the fields the resolver
    /// reads.
    pub load_commands: Vec<LoadCommandFact>,
    /// The image's file path, when the loader knows it.
    pub file_path: Option<String>,
}

/// The load-command fields the module resolver reads.
#[derive(Clone, Debug)]
pub enum LoadCommandFact {
    /// A segment: its name, preferred address, and size.
    Segment { segment_name: Vec<u8>, vm_addr: u64, vm_size: u64 },
    /// A dylib identification with its version.
    Dylib { current_version: u32 },
    /// The image's unique identifier.
    Uuid { uuid: Vec<u8> },
    /// A load command the resolver does not read.
    Other,
}

/// Operating-system and processor facts for the system-info stream.
#[derive(Clone, Debug)]
pub struct SystemInfoFacts {
    /// The OS product version, eg `"17.4.1"`.
    pub os_version: String,
    /// The OS build string.
    pub build: String,
    /// Number of processors.
    pub number_of_processors: u8,
    /// The processor family code; its high half is recorded as the processor
    /// level, its low half as the revision.
    pub cpu_family: u32,
    /// Whether the task runs under the Intel simulator rather than on an ARM
    /// device.
    pub is_x86_simulator: bool,
}

/// Process identity and timing facts for the misc-info stream.
#[derive(Clone, Copy, Debug, PartialEq, Eq, Structural)]
pub struct MiscInfoFacts {
    /// Process id of the task.
    pub process_id: u32,
    /// When the process started, seconds since the epoch.
    pub process_create_time: u32,
    /// Seconds the process spent in user mode.
    pub process_user_time: u32,
    /// Seconds the process spent in kernel mode.
    pub process_kernel_time: u32,
}

/// Memory read around the faulting instruction pointer, when an exception
/// with a valid program counter was present and its region was readable.
#[derive(Clone, Debug)]
pub struct IpMemoryCapture {
    /// First address of the captured range.
    pub base: u64,
    /// The captured bytes.
    pub bytes: Vec<u8>,
}

/// Everything the platform dumper extracted from the task.
#[derive(Clone, Debug)]
pub struct TaskSnapshot {
    /// The task's threads, in the order they were enumerated. Threads that
    /// vanished or could not be suspended were dropped during extraction and
    /// do not appear.
    pub threads: Vec<ThreadCapture>,
    /// The task's virtual-memory regions, used to bound stack captures.
    pub regions: Vec<VMRegionInfo>,
    /// The task's loaded images.
    pub images: Vec<ImageCapture>,
    /// System facts for the system-info stream.
    pub system: SystemInfoFacts,
    /// Process facts for the misc-info stream.
    pub misc: MiscInfoFacts,
    /// Memory around the faulting instruction pointer, best-effort.
    pub ip_memory: Option<IpMemoryCapture>,
    /// Seconds since the epoch, recorded in the header.
    pub time_date_stamp: u32,
}

} // verus!
