//! The thread-list stream: one record per retained thread, each with its CPU
//! context and a capture of its stack — or a sentinel when no stack could be
//! captured — plus the stack-range analyzer that bounds the capture.

use vstd::prelude::*;

use crate::crash_context::IosCrashContext;
use crate::errors::StreamError;
use crate::mem_writer::DumpBuf;
use crate::minidump_format::{
    le32, lemma_records_bytes_len, lemma_records_bytes_push, records_bytes, MDLocationDescriptor,
    MDMemoryDescriptor, MDRawDirectory, MDRawThread, MDStreamType, MdRecord, MD_THREAD_SIZE,
};
use crate::minidump_format::{push_u32_le, push_u64_le};
use crate::minidump_writer::{
    blocks_within, buf_extended, lemma_blocks_within_extend, lemma_buf_extended_trans,
    MinidumpWriter,
};
use crate::snapshot::{TaskSnapshot, ThreadCapture};
use crate::types::VMRegionInfo;

verus! {

/// Sentinel `start_of_memory_range`: the thread's stack pointer was null.
pub const STACK_POINTER_NULL: u64 = 0xdeadbeef;

/// Sentinel `start_of_memory_range`: the thread's stack could not be read.
pub const STACK_READ_FAILED: u64 = 0xdeaddead;

/// Byte size of the fixed payload written under either stack sentinel.
pub const STACK_SENTINEL_SIZE: u32 = 16;

// ---------------------------------------------------------------------------
// Stack-range analysis
// ---------------------------------------------------------------------------

/// Index of the first region whose end lies above `addr` — the region the
/// kernel's region query would report for `addr`: the one containing it, or
/// the nearest one above it.
pub open spec fn spec_find_region_idx(regions: Seq<VMRegionInfo>, addr: u64) -> Option<int>
    decreases regions.len(),
{
    if regions.len() == 0 {
        None
    } else if regions[0].end > addr {
        Some(0int)
    } else {
        match spec_find_region_idx(regions.drop_first(), addr) {
            Some(i) => Some(i + 1),
            None => None,
        }
    }
}

/// What [`spec_find_region_idx`] finds is the first region whose end lies
/// above the address.
pub proof fn lemma_find_region_idx(regions: Seq<VMRegionInfo>, addr: u64)
    ensures
        match spec_find_region_idx(regions, addr) {
            Some(i) => {
                &&& 0 <= i < regions.len()
                &&& regions[i].end > addr
                &&& forall|j: int| 0 <= j < i ==> (#[trigger] regions[j]).end <= addr
            },
            None => forall|j: int| 0 <= j < regions.len() ==> (#[trigger] regions[j]).end <= addr,
        },
    decreases regions.len(),
{
    if regions.len() > 0 && regions[0].end <= addr {
        lemma_find_region_idx(regions.drop_first(), addr);
        let rest = regions.drop_first();
        match spec_find_region_idx(rest, addr) {
            Some(i) => {
                assert forall|j: int| 0 <= j < i + 1 implies (#[trigger] regions[j]).end
                    <= addr by {
                    if j > 0 {
                        assert(regions[j] == rest[j - 1]);
                    }
                }
            },
            None => {
                assert forall|j: int| 0 <= j < regions.len() implies (#[trigger] regions[j]).end
                    <= addr by {
                    if j > 0 {
                        assert(regions[j] == rest[j - 1]);
                    }
                }
            },
        }
    }
}

/// The upper end of the stack after coalescing: starting from `cur_end`, each
/// following region that is contiguous, stack-tagged, and readable extends the
/// end; regions at or below the current end are passed over, and the first
/// region above it that does not qualify stops the walk.
pub open spec fn spec_extended_end(regions: Seq<VMRegionInfo>, cur_end: u64) -> u64
    decreases regions.len(),
{
    if regions.len() == 0 {
        cur_end
    } else if regions[0].end <= cur_end {
        spec_extended_end(regions.drop_first(), cur_end)
    } else if regions[0].start == cur_end && regions[0].spec_is_stack()
        && regions[0].spec_is_readable() {
        spec_extended_end(regions.drop_first(), regions[0].end)
    } else {
        cur_end
    }
}

/// The coalesced end never moves down.
pub proof fn lemma_extended_end_monotonic(regions: Seq<VMRegionInfo>, cur_end: u64)
    ensures
        spec_extended_end(regions, cur_end) >= cur_end,
    decreases regions.len(),
{
    if regions.len() > 0 {
        if regions[0].end <= cur_end {
            lemma_extended_end_monotonic(regions.drop_first(), cur_end);
        } else if regions[0].start == cur_end && regions[0].spec_is_stack()
            && regions[0].spec_is_readable() {
            lemma_extended_end_monotonic(regions.drop_first(), regions[0].end);
        }
    }
}

/// The byte count of stack that is safe to copy from `addr`:
/// zero for a null pointer, zero when no region lies at or above it, zero when
/// it lies below the region found (corruption); otherwise the distance from
/// `addr` to the region's end, extended across contiguous readable stack
/// regions when the found region is itself stack-tagged.
pub open spec fn spec_stack_size(addr: u64, regions: Seq<VMRegionInfo>) -> int {
    if addr == 0 {
        0
    } else {
        match spec_find_region_idx(regions, addr) {
            None => 0,
            Some(i) => {
                let r = regions[i];
                if addr < r.start {
                    0
                } else {
                    let stack_end = if r.spec_is_stack() {
                        spec_extended_end(regions.skip(i + 1), r.end)
                    } else {
                        r.end
                    };
                    stack_end - addr
                }
            },
        }
    }
}

/// Returns the index of the first region whose end lies above `addr`.
fn find_region_index(regions: &Vec<VMRegionInfo>, addr: u64) -> (r: Option<usize>)
    ensures
        match r {
            Some(i) => i < regions@.len() && spec_find_region_idx(regions@, addr) == Some(i as int),
            None => spec_find_region_idx(regions@, addr) is None,
        },
{
    let n = regions.len();
    let mut i: usize = 0;
    while i < n
        invariant
            i <= n,
            n == regions@.len(),
            forall|j: int| 0 <= j < i ==> (#[trigger] regions@[j]).end <= addr,
        decreases n - i,
    {
        if regions[i].end > addr {
            proof {
                lemma_find_region_idx(regions@, addr);
                match spec_find_region_idx(regions@, addr) {
                    Some(k) => {
                        if k < i as int {
                            assert(regions@[k].end <= addr);
                        } else if k > i as int {
                            assert(regions@[i as int].end <= addr);
                        }
                    },
                    None => {
                        assert(regions@[i as int].end <= addr);
                    },
                }
            }
            return Some(i);
        }
        i = i + 1;
    }
    proof {
        lemma_find_region_idx(regions@, addr);
        match spec_find_region_idx(regions@, addr) {
            Some(k) => {
                assert(regions@[k].end <= addr);
            },
            None => {},
        }
    }
    None
}

/// Computes the safe-to-copy stack size for `start_address`.
///
/// Returns 0 for a null stack pointer, for a pointer above every region, and
/// for a pointer below the start of the region found for it.
pub fn calculate_stack_size(start_address: u64, regions: &Vec<VMRegionInfo>) -> (size: u64)
    ensures
        size == spec_stack_size(start_address, regions@),
        start_address == 0 ==> size == 0,
        match spec_find_region_idx(regions@, start_address) {
            Some(i) => start_address < regions@[i].start ==> size == 0,
            None => size == 0,
        },
{
    if start_address == 0 {
        return 0;
    }
    let i = match find_region_index(regions, start_address) {
        Some(i) => i,
        None => {
            return 0;
        },
    };
    let region = regions[i];
    if start_address < region.start {
        return 0;
    }

    let mut stack_end: u64 = region.end;

    // Coalesce contiguous readable stack regions above the found one.
    if region.is_stack() {
        let ghost suffix0 = regions@.skip(i + 1);
        let n = regions.len();
        let mut j: usize = i + 1;
        while j < n
            invariant_except_break
                i < j <= n,
                n == regions@.len(),
                spec_extended_end(regions@.skip(j as int), stack_end) == spec_extended_end(
                    suffix0,
                    region.end,
                ),
            ensures
                stack_end == spec_extended_end(suffix0, region.end),
            decreases n - j,
        {
            let next = regions[j];
            proof {
                assert(regions@.skip(j as int).drop_first() =~= regions@.skip(j + 1));
                assert(regions@.skip(j as int)[0] == regions@[j as int]);
            }
            if next.end <= stack_end {
                proof {
                    assert(spec_extended_end(regions@.skip(j + 1), stack_end)
                        == spec_extended_end(regions@.skip(j as int), stack_end));
                }
                j = j + 1;
            } else if next.start == stack_end && next.is_stack() && next.is_readable() {
                proof {
                    assert(spec_extended_end(regions@.skip(j + 1), next.end)
                        == spec_extended_end(regions@.skip(j as int), stack_end));
                }
                stack_end = next.end;
                j = j + 1;
            } else {
                proof {
                    assert(spec_extended_end(regions@.skip(j as int), stack_end) == stack_end);
                }
                break ;
            }
        }
        proof {
            assert(regions@.skip(regions@.len() as int) =~= Seq::<VMRegionInfo>::empty());
        }
    }
    proof {
        lemma_find_region_idx(regions@, start_address);
    }
    assert(stack_end > start_address) by {
        if region.spec_is_stack() {
            lemma_extended_end_monotonic(regions@.skip(i + 1), region.end);
        }
    }
    stack_end - start_address
}

// ---------------------------------------------------------------------------
// Per-thread record semantics
// ---------------------------------------------------------------------------

/// Whether `t` is the thread the crash context names.
pub open spec fn is_crashing_thread(t: ThreadCapture, crash: Option<IosCrashContext>) -> bool {
    match crash {
        Some(cc) => cc.thread == t.tid,
        None => false,
    }
}

/// The stack pointer the writer uses for `t`: the crash context's for the
/// crashing thread, the captured state's otherwise.
pub open spec fn spec_thread_sp(t: ThreadCapture, crash: Option<IosCrashContext>) -> u64 {
    if is_crashing_thread(t, crash) {
        match crash {
            Some(cc) => cc.thread_state.sp,
            None => 0,
        }
    } else {
        match t.state {
            Some(ts) => ts.sp,
            None => 0,
        }
    }
}

/// The context bytes the writer records for `t`.
pub open spec fn spec_thread_context(t: ThreadCapture, crash: Option<IosCrashContext>) -> Seq<u8> {
    if is_crashing_thread(t, crash) {
        match crash {
            Some(cc) => cc.thread_state.context@,
            None => Seq::empty(),
        }
    } else {
        match t.state {
            Some(ts) => ts.context@,
            None => Seq::empty(),
        }
    }
}

/// Whether a context record is written for `t` at all: yes for the crashing
/// thread, and for any thread whose state was captured.
pub open spec fn spec_thread_has_context(t: ThreadCapture, crash: Option<IosCrashContext>) -> bool {
    is_crashing_thread(t, crash) || t.state is Some
}

/// How the written record `e` must relate to the captured thread `t`.
///
/// The three stack cases are exclusive: a computed stack size of zero gives
/// the null-pointer sentinel with a 16-byte payload; a failed read gives the
/// read-failed sentinel with a 16-byte payload; a successful read gives the
/// real base address and the read's byte count.
pub open spec fn thread_md_ok(
    e: MDRawThread,
    t: ThreadCapture,
    regions: Seq<VMRegionInfo>,
    crash: Option<IosCrashContext>,
) -> bool {
    let sp = spec_thread_sp(t, crash);
    let ssize = spec_stack_size(sp, regions);
    &&& e.thread_id == t.tid
    &&& e.suspend_count == t.suspend_count
    &&& e.priority_class == 0
    &&& e.priority == t.priority
    &&& e.teb == 0
    &&& if spec_thread_has_context(t, crash) {
        &&& e.thread_context.data_size == spec_thread_context(t, crash).len()
        &&& (ssize == 0 ==> e.stack.start_of_memory_range == STACK_POINTER_NULL
            && e.stack.memory.data_size == STACK_SENTINEL_SIZE)
        &&& (ssize != 0 && t.stack_read is None ==> e.stack.start_of_memory_range
            == STACK_READ_FAILED && e.stack.memory.data_size == STACK_SENTINEL_SIZE)
        &&& (ssize != 0 && t.stack_read is Some ==> e.stack.start_of_memory_range == sp
            && e.stack.memory.data_size == t.stack_read->Some_0@.len())
    } else {
        &&& e.stack == (MDMemoryDescriptor {
            start_of_memory_range: 0,
            memory: MDLocationDescriptor { data_size: 0, rva: 0 },
        })
        &&& e.thread_context == (MDLocationDescriptor { data_size: 0, rva: 0 })
    }
}

// ---------------------------------------------------------------------------
// Payload accounting
// ---------------------------------------------------------------------------

/// The bytes written for one thread's stack: the captured bytes on a
/// successful read, the chosen sentinel written twice otherwise.
pub open spec fn spec_stack_payload_bytes(stack_size: u64, stack_read: Option<Vec<u8>>) -> Seq<
    u8,
> {
    if stack_size != 0 && stack_read is Some {
        stack_read->Some_0@
    } else {
        let borked = if stack_size == 0 {
            STACK_POINTER_NULL
        } else {
            STACK_READ_FAILED
        };
        crate::minidump_format::le64(borked) + crate::minidump_format::le64(borked)
    }
}

/// The bytes one thread appends before the record array: its context, then
/// its stack payload; a thread without a context appends nothing.
pub open spec fn spec_thread_payload(
    t: ThreadCapture,
    regions: Seq<VMRegionInfo>,
    crash: Option<IosCrashContext>,
) -> int {
    if spec_thread_has_context(t, crash) {
        let ssize = spec_stack_size(spec_thread_sp(t, crash), regions);
        spec_thread_context(t, crash).len() + (if ssize != 0 && t.stack_read is Some {
            t.stack_read->Some_0@.len() as int
        } else {
            16
        })
    } else {
        0
    }
}

/// The bytes all threads together append before the record array.
pub open spec fn spec_threads_payload(
    threads: Seq<ThreadCapture>,
    regions: Seq<VMRegionInfo>,
    crash: Option<IosCrashContext>,
) -> int
    decreases threads.len(),
{
    if threads.len() == 0 {
        0
    } else {
        spec_threads_payload(threads.drop_last(), regions, crash) + spec_thread_payload(
            threads.last(),
            regions,
            crash,
        )
    }
}

/// Everything the thread-list writer appends: the per-thread payloads, the
/// count, and the 48-byte records.
pub open spec fn spec_thread_list_size(
    threads: Seq<ThreadCapture>,
    regions: Seq<VMRegionInfo>,
    crash: Option<IosCrashContext>,
) -> int {
    spec_threads_payload(threads, regions, crash) + 4 + 48 * threads.len()
}

/// Payloads never shrink a buffer.
pub proof fn lemma_threads_payload_nonneg(
    threads: Seq<ThreadCapture>,
    regions: Seq<VMRegionInfo>,
    crash: Option<IosCrashContext>,
)
    ensures
        spec_threads_payload(threads, regions, crash) >= 0,
    decreases threads.len(),
{
    if threads.len() > 0 {
        lemma_threads_payload_nonneg(threads.drop_last(), regions, crash);
    }
}

/// A prefix of the threads appends no more than all of them.
pub proof fn lemma_threads_payload_prefix(
    threads: Seq<ThreadCapture>,
    regions: Seq<VMRegionInfo>,
    crash: Option<IosCrashContext>,
    i: int,
)
    requires
        0 <= i <= threads.len(),
    ensures
        spec_threads_payload(threads.take(i), regions, crash) <= spec_threads_payload(
            threads,
            regions,
            crash,
        ),
    decreases threads.len() - i,
{
    if i < threads.len() {
        lemma_threads_payload_prefix(threads, regions, crash, i + 1);
        assert(threads.take(i + 1).drop_last() =~= threads.take(i));
        assert(threads.take(i + 1).last() == threads[i]);
        let t = threads[i];
        assert(spec_thread_payload(t, regions, crash) >= 0);
    } else {
        assert(threads.take(i) =~= threads);
    }
}

/// The stack descriptors recorded for the context-bearing threads, in order:
/// what the thread-list writer appends to the writer's memory-block list.
pub open spec fn spec_stack_blocks(
    entries: Seq<MDRawThread>,
    threads: Seq<ThreadCapture>,
    crash: Option<IosCrashContext>,
) -> Seq<MDMemoryDescriptor>
    decreases entries.len(),
{
    if entries.len() == 0 || threads.len() == 0 {
        Seq::empty()
    } else {
        let rest = spec_stack_blocks(entries.drop_last(), threads.drop_last(), crash);
        if spec_thread_has_context(threads.last(), crash) {
            rest.push(entries.last().stack)
        } else {
            rest
        }
    }
}

/// What the thread-list writer does to the writer's state and buffer beyond
/// the stream bytes themselves: the memory-block list grows by exactly the
/// stack descriptors of the context-bearing threads, in order, with every
/// earlier block kept in place; and when the crash context names one of the
/// threads, the crashing thread's context location is recorded with the
/// context bytes standing at it — otherwise none is recorded.
///
/// Opaque so callers carry it folded; reveal it to use it.
#[verifier::opaque]
pub open spec fn thread_list_effects(
    old_self: MinidumpWriter,
    new_self: MinidumpWriter,
    new_buf: Seq<u8>,
    entries: Seq<MDRawThread>,
    threads: Seq<ThreadCapture>,
) -> bool {
    &&& new_self.memory_blocks@ == old_self.memory_blocks@ + spec_stack_blocks(
        entries,
        threads,
        old_self.crash_context,
    )
    &&& (spec_has_crashing_thread(threads, old_self.crash_context)
        ==> (new_self.crashing_thread_context matches Some(loc)
        && old_self.crash_context matches Some(cc) && loc.data_size
        == cc.thread_state.context@.len() && new_buf.subrange(
        loc.rva as int,
        loc.rva + loc.data_size,
    ) == cc.thread_state.context@))
    &&& (!spec_has_crashing_thread(threads, old_self.crash_context)
        ==> new_self.crashing_thread_context is None)
}

/// How many of the threads carry a context record — and so a stack block.
pub open spec fn spec_context_thread_count(
    threads: Seq<ThreadCapture>,
    crash: Option<IosCrashContext>,
) -> int
    decreases threads.len(),
{
    if threads.len() == 0 {
        0
    } else {
        spec_context_thread_count(threads.drop_last(), crash) + (if spec_thread_has_context(
            threads.last(),
            crash,
        ) {
            1int
        } else {
            0int
        })
    }
}

/// The context-thread count never runs negative.
pub proof fn lemma_context_count_nonneg(
    threads: Seq<ThreadCapture>,
    crash: Option<IosCrashContext>,
)
    ensures
        spec_context_thread_count(threads, crash) >= 0,
    decreases threads.len(),
{
    if threads.len() > 0 {
        lemma_context_count_nonneg(threads.drop_last(), crash);
    }
}

/// One stack block is recorded per context-bearing thread.
pub proof fn lemma_stack_blocks_len(
    entries: Seq<MDRawThread>,
    threads: Seq<ThreadCapture>,
    crash: Option<IosCrashContext>,
)
    requires
        entries.len() == threads.len(),
    ensures
        spec_stack_blocks(entries, threads, crash).len() == spec_context_thread_count(
            threads,
            crash,
        ),
        spec_context_thread_count(threads, crash) >= 0,
    decreases threads.len(),
{
    if threads.len() > 0 {
        lemma_stack_blocks_len(entries.drop_last(), threads.drop_last(), crash);
    }
}

/// From the thread-list effects on a writer that started with no blocks, the
/// block count equals the context-thread count.
pub proof fn lemma_thread_list_block_count(
    old_self: MinidumpWriter,
    new_self: MinidumpWriter,
    new_buf: Seq<u8>,
    entries: Seq<MDRawThread>,
    threads: Seq<ThreadCapture>,
)
    requires
        thread_list_effects(old_self, new_self, new_buf, entries, threads),
        entries.len() == threads.len(),
        old_self.memory_blocks@.len() == 0,
    ensures
        new_self.memory_blocks@.len() == spec_context_thread_count(
            threads,
            old_self.crash_context,
        ),
{
    reveal(thread_list_effects);
    lemma_stack_blocks_len(entries, threads, old_self.crash_context);
}

/// Whether the crash context names one of the given threads.
pub open spec fn spec_has_crashing_thread(
    threads: Seq<ThreadCapture>,
    crash: Option<IosCrashContext>,
) -> bool {
    exists|k: int| 0 <= k < threads.len() && is_crashing_thread(#[trigger] threads[k], crash)
}

// ---------------------------------------------------------------------------
// Writing
// ---------------------------------------------------------------------------

/// Writes the bytes of one thread's stack — or the chosen sentinel twice, a
/// fixed 16-byte payload, when none could be captured — and returns the stack
/// descriptor to record.
///
/// Fails if and only if the payload would push the buffer past the 32-bit
/// offset space; the buffer is then unchanged.
fn write_stack_from_start_address(
    buffer: &mut DumpBuf,
    start: u64,
    stack_size: u64,
    stack_read: &Option<Vec<u8>>,
) -> (r: Result<MDMemoryDescriptor, StreamError>)
    requires
        old(buffer).wf(),
    ensures
        final(buffer).wf(),
        buf_extended(old(buffer).bytes(), final(buffer).bytes()),
        match r {
            Ok(stack) => {
                &&& final(buffer).bytes() == old(buffer).bytes() + spec_stack_payload_bytes(
                    stack_size,
                    *stack_read,
                )
                &&& stack.memory.rva == old(buffer).bytes().len()
                &&& stack.memory.data_size == spec_stack_payload_bytes(
                    stack_size,
                    *stack_read,
                ).len()
                &&& stack.memory.rva + stack.memory.data_size <= final(buffer).bytes().len()
                &&& (stack_size == 0 ==> stack.start_of_memory_range == STACK_POINTER_NULL
                    && stack.memory.data_size == STACK_SENTINEL_SIZE)
                &&& (stack_size != 0 && stack_read is None ==> stack.start_of_memory_range
                    == STACK_READ_FAILED && stack.memory.data_size == STACK_SENTINEL_SIZE)
                &&& (stack_size != 0 && stack_read is Some ==> stack.start_of_memory_range == start
                    && stack.memory.data_size == stack_read->Some_0@.len())
            },
            Err(_) => {
                &&& final(buffer).bytes() == old(buffer).bytes()
                &&& old(buffer).bytes().len() + spec_stack_payload_bytes(
                    stack_size,
                    *stack_read,
                ).len() > u32::MAX
            },
        },
{
    if stack_size != 0 {
        if let Some(bytes) = stack_read {
            let rva = match buffer.write_all(bytes.as_slice()) {
                Ok(rva) => rva,
                Err(e) => {
                    return Err(StreamError::MemoryWriterError(e));
                },
            };
            let stack = MDMemoryDescriptor {
                start_of_memory_range: start,
                memory: MDLocationDescriptor { data_size: bytes.len() as u32, rva },
            };
            return Ok(stack);
        }
    }
    // No real stack: write one of the two distinguishable sentinels, twice,
    // as the fixed 16-byte payload.
    let borked: u64 = if stack_size == 0 {
        STACK_POINTER_NULL
    } else {
        STACK_READ_FAILED
    };
    let mut payload: Vec<u8> = Vec::new();
    push_u64_le(&mut payload, borked);
    push_u64_le(&mut payload, borked);
    let rva = match buffer.write_all(payload.as_slice()) {
        Ok(rva) => rva,
        Err(e) => {
            return Err(StreamError::MemoryWriterError(e));
        },
    };
    Ok(MDMemoryDescriptor {
        start_of_memory_range: borked,
        memory: MDLocationDescriptor { data_size: STACK_SENTINEL_SIZE, rva },
    })
}

impl MinidumpWriter {
    /// Writes the thread-list stream: a leading `u32` count equal to the
    /// number of retained threads, then one 48-byte record per thread, each
    /// related to its capture by [`thread_md_ok`]. Thread contexts and stack
    /// bytes are written first; the count and the record array stand
    /// contiguously at the returned location.
    ///
    /// The writer's memory-block list grows by exactly the stack descriptors
    /// of the context-bearing threads, in order, with every earlier block
    /// kept in place. When the crash context names one of the threads, the
    /// crashing thread's context location is recorded, and the context bytes
    /// stand at it.
    ///
    /// Fails only when the stream would push the buffer past the 32-bit
    /// offset space.
    #[verifier::rlimit(100)]
    #[verifier::spinoff_prover]
    pub fn write_thread_list(&mut self, buffer: &mut DumpBuf, snapshot: &TaskSnapshot) -> (r:
        Result<(MDRawDirectory, Ghost<Seq<MDRawThread>>), StreamError>)
        requires
            old(buffer).wf(),
            blocks_within(old(self).memory_blocks@, old(buffer).bytes()),
            old(self).crashing_thread_context is None,
        ensures
            final(buffer).wf(),
            buf_extended(old(buffer).bytes(), final(buffer).bytes()),
            final(self).crash_context == old(self).crash_context,
            final(self).handler_thread == old(self).handler_thread,
            blocks_within(final(self).memory_blocks@, final(buffer).bytes()),
            match final(self).crashing_thread_context {
                Some(loc) => loc.rva + loc.data_size <= final(buffer).bytes().len(),
                None => true,
            },
            match r {
                Ok((dirent, entries)) => {
                    &&& dirent.stream_type == MDStreamType::ThreadListStream.spec_value()
                    &&& dirent_ok_thread_list(
                        dirent,
                        entries@,
                        old(buffer).bytes(),
                        final(buffer).bytes(),
                    )
                    &&& entries@.len() == snapshot.threads@.len()
                    &&& forall|k: int|
                        0 <= k < entries@.len() ==> thread_md_ok(
                            #[trigger] entries@[k],
                            snapshot.threads@[k],
                            snapshot.regions@,
                            old(self).crash_context,
                        )
                    // Append-only memory blocks and the recorded crashing
                    // context, bundled; see [`thread_list_effects`].
                    &&& thread_list_effects(
                        *old(self),
                        *final(self),
                        final(buffer).bytes(),
                        entries@,
                        snapshot.threads@,
                    )
                    &&& final(buffer).bytes().len() == old(buffer).bytes().len()
                        + spec_thread_list_size(
                        snapshot.threads@,
                        snapshot.regions@,
                        old(self).crash_context,
                    )
                },
                Err(_) => old(buffer).bytes().len() + spec_thread_list_size(
                    snapshot.threads@,
                    snapshot.regions@,
                    old(self).crash_context,
                ) > u32::MAX,
            },
    {
        let ghost regions_g = snapshot.regions@;
        let ghost crash_g = old(self).crash_context;
        let n = snapshot.threads.len();
        // The largest count whose 48-byte records and count still fit the
        // 32-bit offset space.
        let max_threads: usize = ((u32::MAX as usize) - 4) / 48;
        if n > max_threads {
            proof {
                lemma_threads_payload_nonneg(snapshot.threads@, regions_g, crash_g);
            }
            return Err(StreamError::MemoryWriterError(
                crate::mem_writer::MemoryWriterError::BufferTooLarge,
            ));
        }

        let ghost buf0 = buffer.bytes();
        let mut entries: Vec<MDRawThread> = Vec::new();
        let mut i: usize = 0;
        while i < n
            invariant
                i <= n,
                n == snapshot.threads@.len(),
                n <= ((u32::MAX as usize) - 4) / 48,
                regions_g == snapshot.regions@,
                crash_g == old(self).crash_context,
                buffer.wf(),
                buf0 == old(buffer).bytes(),
                buf_extended(buf0, buffer.bytes()),
                buffer.bytes().len() == buf0.len() + spec_threads_payload(
                    snapshot.threads@.take(i as int),
                    regions_g,
                    crash_g,
                ),
                entries@.len() == i,
                forall|k: int|
                    0 <= k < i ==> thread_md_ok(
                        #[trigger] entries@[k],
                        snapshot.threads@[k],
                        regions_g,
                        crash_g,
                    ),
                self.crash_context == old(self).crash_context,
                self.handler_thread == old(self).handler_thread,
                self.memory_blocks@ == old(self).memory_blocks@ + spec_stack_blocks(
                    entries@,
                    snapshot.threads@.take(i as int),
                    crash_g,
                ),
                blocks_within(self.memory_blocks@, buffer.bytes()),
                match self.crashing_thread_context {
                    Some(loc) => spec_has_crashing_thread(
                        snapshot.threads@.take(i as int),
                        crash_g,
                    ) && (crash_g matches Some(cc) && loc.data_size
                        == cc.thread_state.context@.len() && loc.rva + loc.data_size
                        <= buffer.bytes().len() && buffer.bytes().subrange(
                        loc.rva as int,
                        loc.rva + loc.data_size,
                    ) == cc.thread_state.context@),
                    None => !spec_has_crashing_thread(snapshot.threads@.take(i as int), crash_g),
                },
            decreases n - i,
        {
            let ghost buf_iter = buffer.bytes();
            let ghost blocks_iter = self.memory_blocks@;
            let ghost entries_iter = entries@;
            let t = &snapshot.threads[i];
            let mut entry = MDRawThread {
                thread_id: t.tid,
                suspend_count: t.suspend_count,
                priority_class: 0,
                priority: t.priority,
                teb: 0,
                stack: MDMemoryDescriptor::default(),
                thread_context: MDLocationDescriptor::default(),
            };

            let crashing = match &self.crash_context {
                Some(cc) => cc.thread == t.tid,
                None => false,
            };
            proof {
                lemma_threads_payload_prefix(snapshot.threads@, regions_g, crash_g, i + 1);
                assert(snapshot.threads@.take(i + 1).drop_last() =~= snapshot.threads@.take(
                    i as int,
                ));
                assert(snapshot.threads@.take(i + 1).last() == snapshot.threads@[i as int]);
            }

            if crashing {
                // The crashing thread: use the context the exception handler
                // captured.
                let (sp, ctx_loc) = match &self.crash_context {
                    Some(cc) => {
                        let rva = match buffer.write_all(cc.thread_state.context.as_slice()) {
                            Ok(rva) => rva,
                            Err(e) => {
                                proof {
                                    lemma_buf_extended_trans(buf0, buf_iter, buffer.bytes());
                                }
                                return Err(StreamError::MemoryWriterError(e));
                            },
                        };
                        (
                            cc.thread_state.sp,
                            MDLocationDescriptor {
                                data_size: cc.thread_state.context.len() as u32,
                                rva,
                            },
                        )
                    },
                    None => (0, MDLocationDescriptor::default()),
                };
                entry.thread_context = ctx_loc;
                self.crashing_thread_context = Some(ctx_loc);
                proof {
                    assert(buffer.bytes().subrange(
                        ctx_loc.rva as int,
                        ctx_loc.rva + ctx_loc.data_size,
                    ) =~= crash_g->Some_0.thread_state.context@);
                }
                let stack_size = calculate_stack_size(sp, &snapshot.regions);
                let ghost buf_ctx = buffer.bytes();
                let stack = match write_stack_from_start_address(
                    buffer,
                    sp,
                    stack_size,
                    &t.stack_read,
                ) {
                    Ok(stack) => stack,
                    Err(e) => {
                        proof {
                            lemma_buf_extended_trans(buf0, buf_iter, buffer.bytes());
                        }
                        return Err(e);
                    },
                };
                entry.stack = stack;
                self.memory_blocks.push(stack);
                proof {
                    let loc = self.crashing_thread_context->Some_0;
                    assert(buffer.bytes().subrange(loc.rva as int, loc.rva + loc.data_size)
                        =~= buf_ctx.subrange(loc.rva as int, loc.rva + loc.data_size));
                }
            } else {
                match &t.state {
                    Some(ts) => {
                        let rva = match buffer.write_all(ts.context.as_slice()) {
                            Ok(rva) => rva,
                            Err(e) => {
                                proof {
                                    lemma_buf_extended_trans(buf0, buf_iter, buffer.bytes());
                                }
                                return Err(StreamError::MemoryWriterError(e));
                            },
                        };
                        entry.thread_context = MDLocationDescriptor {
                            data_size: ts.context.len() as u32,
                            rva,
                        };
                        let sp = ts.sp;
                        let stack_size = calculate_stack_size(sp, &snapshot.regions);
                        let stack = match write_stack_from_start_address(
                            buffer,
                            sp,
                            stack_size,
                            &t.stack_read,
                        ) {
                            Ok(stack) => stack,
                            Err(e) => {
                                proof {
                                    lemma_buf_extended_trans(buf0, buf_iter, buffer.bytes());
                                }
                                return Err(e);
                            },
                        };
                        entry.stack = stack;
                        self.memory_blocks.push(stack);
                    },
                    None => {
                        // The thread's state could not be read: it is listed
                        // with an empty context and stack.
                    },
                }
                proof {
                    match self.crashing_thread_context {
                        Some(loc) => {
                            assert(buffer.bytes().subrange(
                                loc.rva as int,
                                loc.rva + loc.data_size,
                            ) =~= buf_iter.subrange(loc.rva as int, loc.rva + loc.data_size));
                        },
                        None => {},
                    }
                }
            }

            entries.push(entry);
            proof {
                lemma_buf_extended_trans(buf0, buf_iter, buffer.bytes());
                assert(thread_md_ok(
                    entry,
                    snapshot.threads@[i as int],
                    regions_g,
                    crash_g,
                ));
                let pre_entries = entries@.drop_last();
                assert(pre_entries =~= entries_iter);
                assert(pre_entries =~= entries@.take(i as int));
                assert(snapshot.threads@.take(i + 1).drop_last() =~= snapshot.threads@.take(
                    i as int,
                ));
                assert(entries@.last() == entry);
                assert(spec_stack_blocks(entries@, snapshot.threads@.take(i + 1), crash_g)
                    == if spec_thread_has_context(snapshot.threads@[i as int], crash_g) {
                    spec_stack_blocks(
                        pre_entries,
                        snapshot.threads@.take(i as int),
                        crash_g,
                    ).push(entry.stack)
                } else {
                    spec_stack_blocks(pre_entries, snapshot.threads@.take(i as int), crash_g)
                });
                if spec_thread_has_context(snapshot.threads@[i as int], crash_g) {
                    assert(self.memory_blocks@ =~= blocks_iter.push(entry.stack));
                    assert((old(self).memory_blocks@ + spec_stack_blocks(
                        entries_iter,
                        snapshot.threads@.take(i as int),
                        crash_g,
                    )).push(entry.stack) =~= old(self).memory_blocks@ + spec_stack_blocks(
                        entries_iter,
                        snapshot.threads@.take(i as int),
                        crash_g,
                    ).push(entry.stack));
                }
                assert(self.memory_blocks@ =~= old(self).memory_blocks@ + spec_stack_blocks(
                    entries@,
                    snapshot.threads@.take(i + 1),
                    crash_g,
                ));
            }
            i = i + 1;
        }
        proof {
            assert(snapshot.threads@.take(n as int) =~= snapshot.threads@);
        }

        // The stream's own location: count, then the contiguous record array.
        let ghost buf_mid = buffer.bytes();
        let mut stream_bytes: Vec<u8> = Vec::new();
        push_u32_le(&mut stream_bytes, n as u32);
        let mut k: usize = 0;
        while k < n
            invariant
                k <= n,
                n == entries@.len(),
                n <= ((u32::MAX as usize) - 4) / 48,
                stream_bytes@ == le32(n as u32) + records_bytes(entries@.take(k as int)),
            decreases n - k,
        {
            entries[k].write_into(&mut stream_bytes);
            proof {
                lemma_records_bytes_push(entries@.take(k as int), entries@[k as int]);
                assert(entries@.take(k + 1) =~= entries@.take(k as int).push(entries@[k as int]));
            }
            k = k + 1;
        }
        assert(entries@.take(n as int) =~= entries@);
        proof {
            assert forall|j: int| 0 <= j < entries@.len() implies (#[trigger] entries@[
                j
            ].record_bytes()).len() == MD_THREAD_SIZE by {}
            lemma_records_bytes_len(entries@, MD_THREAD_SIZE as int);
        }

        let list_rva = match buffer.write_all(stream_bytes.as_slice()) {
            Ok(rva) => rva,
            Err(e) => {
                proof {
                    lemma_buf_extended_trans(buf0, buf_mid, buffer.bytes());
                }
                return Err(StreamError::MemoryWriterError(e));
            },
        };
        let dirent = MDRawDirectory {
            stream_type: MDStreamType::ThreadListStream.value(),
            location: MDLocationDescriptor { data_size: stream_bytes.len() as u32, rva: list_rva },
        };
        proof {
            lemma_buf_extended_trans(buf0, buf_mid, buffer.bytes());
            lemma_blocks_within_extend(self.memory_blocks@, buf_mid, buffer.bytes());
            assert(buffer.bytes().subrange(
                list_rva as int,
                list_rva + dirent.location.data_size,
            ) =~= le32(n as u32) + records_bytes(entries@));
            match self.crashing_thread_context {
                Some(loc) => {
                    assert(buffer.bytes().subrange(loc.rva as int, loc.rva + loc.data_size)
                        =~= buf_mid.subrange(loc.rva as int, loc.rva + loc.data_size));
                },
                None => {},
            }
            reveal(dirent_ok_thread_list);
            reveal(thread_list_effects);
            assert(thread_list_effects(
                *old(self),
                *self,
                buffer.bytes(),
                entries@,
                snapshot.threads@,
            ));
        }
        Ok((dirent, Ghost(entries@)))
    }
}

/// The thread-list directory entry `d` points at the stream's bytes: the
/// little-endian count of `entries`, then their 48-byte records, all inside
/// the step that took the buffer from `b1` to `b2`.
///
/// Opaque so callers carry it folded; reveal it to use it.
#[verifier::opaque]
pub open spec fn dirent_ok_thread_list(
    d: MDRawDirectory,
    entries: Seq<MDRawThread>,
    b1: Seq<u8>,
    b2: Seq<u8>,
) -> bool {
    &&& b1.len() <= d.location.rva
    &&& d.location.rva + d.location.data_size <= b2.len()
    &&& d.location.data_size == 4 + 48 * entries.len()
    &&& b2.subrange(d.location.rva as int, d.location.rva + d.location.data_size) == le32(
        entries.len() as u32,
    ) + records_bytes(entries)
}

/// Law: a thread record carrying either stack sentinel always has the fixed
/// 16-byte payload, and a 16-byte payload marks a sentinel unless the real
/// stack happened to be exactly 16 bytes. Holds for every thread whose own
/// stack pointer is not itself one of the sentinel values.
pub proof fn lemma_sentinel_stack_size(
    e: MDRawThread,
    t: ThreadCapture,
    regions: Seq<VMRegionInfo>,
    crash: Option<IosCrashContext>,
)
    requires
        thread_md_ok(e, t, regions, crash),
        spec_thread_sp(t, crash) != STACK_POINTER_NULL,
        spec_thread_sp(t, crash) != STACK_READ_FAILED,
    ensures
        (e.stack.start_of_memory_range == STACK_POINTER_NULL
            || e.stack.start_of_memory_range == STACK_READ_FAILED)
            ==> e.stack.memory.data_size == STACK_SENTINEL_SIZE,
        (e.stack.memory.data_size == STACK_SENTINEL_SIZE && spec_thread_has_context(t, crash)
            && e.stack.start_of_memory_range != STACK_POINTER_NULL
            && e.stack.start_of_memory_range != STACK_READ_FAILED) ==> (t.stack_read matches Some(
            b,
        ) && b@.len() == 16),
{
}

} // verus!
