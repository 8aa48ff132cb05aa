//! The per-task orchestrator: holds cross-stream state while the ordered
//! stream writers run, then drives the top-level `dump`.

use vstd::prelude::*;

use crate::crash_context::IosCrashContext;
use crate::mem_writer::DumpBuf;
pub use crate::mem_writer::{buf_extended, lemma_buf_extended_subrange, lemma_buf_extended_trans};
use crate::minidump_format::{MDLocationDescriptor, MDMemoryDescriptor};

verus! {

/// Every captured memory block names a range inside the buffer.
pub open spec fn blocks_within(blocks: Seq<MDMemoryDescriptor>, bytes: Seq<u8>) -> bool {
    forall|i: int|
        0 <= i < blocks.len() ==> (#[trigger] blocks[i]).memory.rva + blocks[i].memory.data_size
            <= bytes.len()
}

/// Blocks that lay inside the buffer still do after it is extended.
pub proof fn lemma_blocks_within_extend(blocks: Seq<MDMemoryDescriptor>, b1: Seq<u8>, b2: Seq<u8>)
    requires
        blocks_within(blocks, b1),
        b2.len() >= b1.len(),
    ensures
        blocks_within(blocks, b2),
{
}

/// The writer: the crash context it was created with, and the state the
/// stream writers accumulate while they run.
pub struct MinidumpWriter {
    /// The crash context as captured by an exception handler.
    pub crash_context: Option<IosCrashContext>,
    /// Raw blocks of memory written into the stream so far; the memory-list
    /// stream enumerates them. Blocks are only ever appended.
    pub memory_blocks: Vec<MDMemoryDescriptor>,
    /// The task being dumped.
    pub task: u32,
    /// The handler thread, so it can be ignored or deprioritized.
    pub handler_thread: Option<u32>,
    /// Location of the crashing thread's context, for the exception stream.
    pub crashing_thread_context: Option<MDLocationDescriptor>,
}

impl MinidumpWriter {
    /// A writer for a dump without a crash context.
    pub fn new() -> (w: Self)
        ensures
            w.crash_context is None,
            w.memory_blocks@ == Seq::<MDMemoryDescriptor>::empty(),
            w.handler_thread is None,
            w.crashing_thread_context is None,
    {
        MinidumpWriter {
            crash_context: None,
            memory_blocks: Vec::new(),
            task: 0,
            handler_thread: None,
            crashing_thread_context: None,
        }
    }

    /// A writer for a dump of the crash described by `crash_context`.
    pub fn with_crash_context(crash_context: IosCrashContext) -> (w: Self)
        ensures
            w.crash_context == Some(crash_context),
            w.memory_blocks@ == Seq::<MDMemoryDescriptor>::empty(),
            w.handler_thread == Some(crash_context.handler_thread),
            w.crashing_thread_context is None,
    {
        let task = crash_context.task;
        let handler_thread = crash_context.handler_thread;
        MinidumpWriter {
            crash_context: Some(crash_context),
            memory_blocks: Vec::new(),
            task,
            handler_thread: Some(handler_thread),
            crashing_thread_context: None,
        }
    }
}

impl Default for MinidumpWriter {
    /// Same as [`MinidumpWriter::new`].
    fn default() -> (w: Self)
        ensures
            w.crash_context is None,
            w.memory_blocks@ == Seq::<MDMemoryDescriptor>::empty(),
            w.handler_thread is None,
            w.crashing_thread_context is None,
    {
        MinidumpWriter::new()
    }
}

} // verus!
