//! The Linux process dumper: thread suspension and resumption over process
//! tracing, mapping lookups, stack-range recovery, and the pointer-scrubbing
//! stack sanitizer.

use vstd::prelude::*;

use crate::errors::SoftErrorList;
use crate::linux::maps_reader::{system_ranges_disjoint, MappingInfo};

verus! {

/// A process or thread id.
pub type Pid = i32;

/// `ESRCH`: the traced thread no longer exists.
pub const ESRCH: i32 = 3;

/// The signal number of `SIGSTOP`.
pub const SIGSTOP_SIGNAL: i32 = 19;

/// The value written over stack words that look like pointers but are not
/// provably safe to disclose.
pub const DEFACED_VALUE: u64 = 0x0defaced0defaced;

/// Failures of the dumper's per-thread operations.
#[derive(Clone, Copy, Debug, PartialEq, Eq, Structural)]
pub enum DumperError {
    /// Attaching to the thread failed, with the errno.
    PtraceAttachError(Pid, i32),
    /// Detaching from the thread failed, with the errno.
    PtraceDetachError(Pid, i32),
    /// Waiting for the thread to stop failed, with the errno.
    WaitPidError(Pid, i32),
    /// The thread runs sandboxed trusted code and was detached and dropped.
    DetachSkippedThread(Pid),
    /// No mapping contains or follows the stack pointer.
    NoStackPointerMapping,
    /// A thread index lay at or past the thread count.
    IndexOutOfBounds(usize, usize),
}

/// How a retained thread list relates to the list it came from: `kept_at`
/// and `dropped_at` pick out, in ascending order and without overlap, which
/// positions of `input` were kept and which were dropped, every position
/// going one way or the other; each kept thread is the input thread at its
/// position, and each dropped position contributed exactly one error naming
/// that thread.
pub open spec fn spec_retention_ok(
    kept: Seq<Thread>,
    dropped_errs: Seq<DumperError>,
    input: Seq<Thread>,
    kept_at: Seq<int>,
    dropped_at: Seq<int>,
) -> bool {
    &&& kept_at.len() == kept.len()
    &&& dropped_at.len() == dropped_errs.len()
    &&& kept_at.len() + dropped_at.len() == input.len()
    &&& (forall|k: int|
        0 <= k < kept_at.len() ==> 0 <= #[trigger] kept_at[k] < input.len() && kept[k] == input[
            kept_at[k]
        ])
    &&& (forall|a: int, b: int|
        0 <= a < b < kept_at.len() ==> #[trigger] kept_at[a] < #[trigger] kept_at[b])
    &&& (forall|k: int|
        0 <= k < dropped_at.len() ==> 0 <= #[trigger] dropped_at[k] < input.len()
            && spec_error_names_thread(dropped_errs[k], input[dropped_at[k]].tid))
    &&& (forall|a: int, b: int|
        0 <= a < b < dropped_at.len() ==> #[trigger] dropped_at[a] < #[trigger] dropped_at[b])
    &&& (forall|a: int, b: int|
        0 <= a < kept_at.len() && 0 <= b < dropped_at.len() ==> #[trigger] kept_at[a]
            != #[trigger] dropped_at[b])
}

/// Whether the error names the given thread.
pub open spec fn spec_error_names_thread(e: DumperError, child: Pid) -> bool {
    match e {
        DumperError::PtraceAttachError(p, _) => p == child,
        DumperError::PtraceDetachError(p, _) => p == child,
        DumperError::WaitPidError(p, _) => p == child,
        DumperError::DetachSkippedThread(p) => p == child,
        DumperError::NoStackPointerMapping => false,
        DumperError::IndexOutOfBounds(_, _) => false,
    }
}

/// Failures while constructing the dumper.
#[derive(Clone, Debug)]
pub enum InitError {
    /// Tracing does not function within the same process.
    CannotPtraceSameProcess,
    /// The target could not be stopped.
    StopProcessFailed(StopProcessError),
    /// A thread entry of the target could not be read.
    ReadProcessThreadEntryFailed(String),
    /// A task entry's name was not a thread id.
    ProcessTaskEntryNotTid(String),
    /// A thread's name could not be read.
    ReadThreadNameFailed(String),
    /// The target's task directory is missing.
    ProcPidTaskNotDirectory(String),
    /// The target's memory-map listing could not be read.
    ReadProcessMapFileFailed(String),
}

/// Failures while stopping the whole target.
#[derive(Clone, Copy, Debug, PartialEq, Eq, Structural)]
pub enum StopProcessError {
    /// The stop signal could not be sent, with the errno.
    Stop(i32),
    /// The target's state could not be read.
    State,
    /// The target did not stop before the timeout elapsed.
    Timeout,
}

/// Failures while letting the target continue.
#[derive(Clone, Copy, Debug, PartialEq, Eq, Structural)]
pub enum ContinueProcessError {
    /// The continue signal could not be sent, with the errno.
    Continue(i32),
}

/// One thread of the target.
#[derive(Clone, Debug)]
pub struct Thread {
    pub tid: Pid,
    pub name: Option<String>,
}

/// The dumper for one target process: its threads and memory mappings, and
/// whether its threads currently stand suspended.
#[derive(Debug)]
pub struct PtraceDumper {
    /// The target's process id.
    pub pid: Pid,
    /// Whether the threads currently stand suspended.
    pub threads_suspended: bool,
    /// The target's threads, as enumerated; suspension drops the ones that
    /// vanished or could not be attached.
    pub threads: Vec<Thread>,
    /// The target's memory mappings, ordered and normalized.
    pub mappings: Vec<MappingInfo>,
    /// The target's page size; always a power of two.
    pub page_size: usize,
}

// ---------------------------------------------------------------------------
// Tracing syscalls
// ---------------------------------------------------------------------------

/// What one wait on a traced thread yielded.
#[derive(Clone, Copy, Debug, PartialEq, Eq, Structural)]
pub enum WaitOutcome {
    /// The thread stopped on the given signal.
    Stopped(i32),
    /// The thread reported something other than a stop.
    Other,
    /// The wait was interrupted and may be retried.
    Interrupted,
    /// The wait failed, with the errno.
    Failed(i32),
}

/// Relies on `nix::sys::ptrace::attach`: asks the kernel to trace the thread,
/// which stops it with a signal. Succeeds or fails at the kernel's
/// discretion; nothing is promised of the outcome.
#[verifier::external_body]
fn ptrace_attach(pid: Pid) -> (r: Result<(), i32>) {
    nix::sys::ptrace::attach(nix::unistd::Pid::from_raw(pid)).map_err(|e| e as i32)
}

/// Relies on `nix::sys::ptrace::detach` with no signal: releases the traced
/// thread. Nothing is promised of the outcome.
#[verifier::external_body]
fn ptrace_detach_raw(pid: Pid) -> (r: Result<(), i32>) {
    nix::sys::ptrace::detach(nix::unistd::Pid::from_raw(pid), None).map_err(|e| e as i32)
}

/// Relies on `nix::sys::ptrace::cont`: restarts the traced thread, delivering
/// the given signal so it is not lost. Nothing is promised of the outcome.
#[verifier::external_body]
fn ptrace_cont_with_signal(pid: Pid, signal: i32) -> (r: Result<(), i32>) {
    let sig = match nix::sys::signal::Signal::try_from(signal) {
        Ok(sig) => sig,
        Err(e) => {
            return Err(e as i32);
        },
    };
    nix::sys::ptrace::cont(nix::unistd::Pid::from_raw(pid), Some(sig)).map_err(|e| e as i32)
}

/// Relies on `nix::sys::wait::waitpid` with `__WALL`: reports the thread's
/// next state change. Nothing is promised of the outcome.
#[verifier::external_body]
fn waitpid_all(pid: Pid) -> (r: WaitOutcome) {
    match nix::sys::wait::waitpid(
        nix::unistd::Pid::from_raw(pid),
        Some(nix::sys::wait::WaitPidFlag::__WALL),
    ) {
        Ok(nix::sys::wait::WaitStatus::Stopped(_, sig)) => WaitOutcome::Stopped(sig as i32),
        Ok(_) => WaitOutcome::Other,
        Err(nix::errno::Errno::EINTR) => WaitOutcome::Interrupted,
        Err(e) => WaitOutcome::Failed(e as i32),
    }
}

/// Relies on `nix::sys::ptrace::getregs`: the stopped thread's register set,
/// of which the stack pointer is returned. Nothing is promised of the
/// outcome.
#[verifier::external_body]
fn getregs_stack_pointer(pid: Pid) -> (r: Result<u64, i32>) {
    nix::sys::ptrace::getregs(nix::unistd::Pid::from_raw(pid)).map(|regs| regs.rsp).map_err(
        |e| e as i32,
    )
}

/// Detaches the given thread, treating a thread that no longer exists as
/// already detached.
fn ptrace_detach(child: Pid) -> (r: Result<(), DumperError>)
    ensures
        r is Err ==> (r->Err_0 matches DumperError::PtraceDetachError(p, e) && p == child && e
            != ESRCH),
{
    match ptrace_detach_raw(child) {
        Ok(_) => Ok(()),
        Err(e) => {
            if e == ESRCH {
                // The thread is gone; there is nothing left to detach.
                Ok(())
            } else {
                Err(DumperError::PtraceDetachError(child, e))
            }
        },
    }
}

// ---------------------------------------------------------------------------
// Mapping lookups
// ---------------------------------------------------------------------------

/// Index of the first mapping whose merged range contains `address`.
pub open spec fn spec_find_mapping_idx(mappings: Seq<MappingInfo>, address: usize) -> Option<int>
    decreases mappings.len(),
{
    if mappings.len() == 0 {
        None
    } else if mappings[0].spec_contains_address(address) {
        Some(0int)
    } else {
        match spec_find_mapping_idx(mappings.drop_first(), address) {
            Some(i) => Some(i + 1),
            None => None,
        }
    }
}

/// Index of the first mapping whose kernel ("system") range contains
/// `address`.
pub open spec fn spec_find_mapping_no_bias_idx(mappings: Seq<MappingInfo>, address: usize) -> Option<
    int,
>
    decreases mappings.len(),
{
    if mappings.len() == 0 {
        None
    } else if mappings[0].spec_system_contains(address) {
        Some(0int)
    } else {
        match spec_find_mapping_no_bias_idx(mappings.drop_first(), address) {
            Some(i) => Some(i + 1),
            None => None,
        }
    }
}

/// What the merged-range lookup finds is the first match.
pub proof fn lemma_find_mapping_idx(mappings: Seq<MappingInfo>, address: usize)
    ensures
        match spec_find_mapping_idx(mappings, address) {
            Some(i) => {
                &&& 0 <= i < mappings.len()
                &&& mappings[i].spec_contains_address(address)
                &&& forall|j: int|
                    0 <= j < i ==> !(#[trigger] mappings[j]).spec_contains_address(address)
            },
            None => forall|j: int|
                0 <= j < mappings.len() ==> !(#[trigger] mappings[j]).spec_contains_address(
                    address,
                ),
        },
    decreases mappings.len(),
{
    if mappings.len() > 0 && !mappings[0].spec_contains_address(address) {
        lemma_find_mapping_idx(mappings.drop_first(), address);
        let rest = mappings.drop_first();
        assert(forall|j: int| 1 <= j < mappings.len() ==> mappings[j] == rest[j - 1]);
    }
}

/// What the system-range lookup finds is the first match.
pub proof fn lemma_find_mapping_no_bias_idx(mappings: Seq<MappingInfo>, address: usize)
    ensures
        match spec_find_mapping_no_bias_idx(mappings, address) {
            Some(i) => {
                &&& 0 <= i < mappings.len()
                &&& mappings[i].spec_system_contains(address)
                &&& forall|j: int|
                    0 <= j < i ==> !(#[trigger] mappings[j]).spec_system_contains(address)
            },
            None => forall|j: int|
                0 <= j < mappings.len() ==> !(#[trigger] mappings[j]).spec_system_contains(
                    address,
                ),
        },
    decreases mappings.len(),
{
    if mappings.len() > 0 && !mappings[0].spec_system_contains(address) {
        lemma_find_mapping_no_bias_idx(mappings.drop_first(), address);
        let rest = mappings.drop_first();
        assert(forall|j: int| 1 <= j < mappings.len() ==> mappings[j] == rest[j - 1]);
    }
}

impl PtraceDumper {
    /// Finds the first mapping whose merged range contains `address`.
    pub fn find_mapping(&self, address: usize) -> (r: Option<&MappingInfo>)
        ensures
            match r {
                Some(m) => {
                    &&& spec_find_mapping_idx(self.mappings@, address) matches Some(i) && *m
                        == self.mappings@[i]
                    &&& m.spec_contains_address(address)
                },
                None => spec_find_mapping_idx(self.mappings@, address) is None,
            },
    {
        proof {
            lemma_find_mapping_idx(self.mappings@, address);
        }
        let n = self.mappings.len();
        let mut i: usize = 0;
        while i < n
            invariant
                i <= n,
                n == self.mappings@.len(),
                forall|j: int|
                    0 <= j < i ==> !(#[trigger] self.mappings@[j]).spec_contains_address(address),
            decreases n - i,
        {
            if self.mappings[i].contains_address(address) {
                proof {
                    lemma_find_mapping_idx(self.mappings@, address);
                    match spec_find_mapping_idx(self.mappings@, address) {
                        Some(k) => {
                            if k < i as int {
                                assert(!self.mappings@[k].spec_contains_address(address));
                            } else if k > i as int {
                                assert(!self.mappings@[i as int].spec_contains_address(address));
                            }
                        },
                        None => {
                            assert(!self.mappings@[i as int].spec_contains_address(address));
                        },
                    }
                }
                return Some(&self.mappings[i]);
            }
            i = i + 1;
        }
        proof {
            lemma_find_mapping_idx(self.mappings@, address);
            match spec_find_mapping_idx(self.mappings@, address) {
                Some(k) => {
                    assert(!self.mappings@[k].spec_contains_address(address));
                },
                None => {},
            }
        }
        None
    }

    /// Finds the first mapping whose kernel range contains `address`: the
    /// unadjusted range, rather than the merged one.
    pub fn find_mapping_no_bias(&self, address: usize) -> (r: Option<&MappingInfo>)
        ensures
            match r {
                Some(m) => {
                    &&& spec_find_mapping_no_bias_idx(self.mappings@, address) matches Some(i)
                        && *m == self.mappings@[i]
                    &&& m.spec_system_contains(address)
                },
                None => spec_find_mapping_no_bias_idx(self.mappings@, address) is None,
            },
    {
        let n = self.mappings.len();
        let mut i: usize = 0;
        while i < n
            invariant
                i <= n,
                n == self.mappings@.len(),
                forall|j: int|
                    0 <= j < i ==> !(#[trigger] self.mappings@[j]).spec_system_contains(address),
            decreases n - i,
        {
            let m = &self.mappings[i];
            if m.system_mapping_info.start_address <= address
                && address < m.system_mapping_info.end_address {
                proof {
                    lemma_find_mapping_no_bias_idx(self.mappings@, address);
                    match spec_find_mapping_no_bias_idx(self.mappings@, address) {
                        Some(k) => {
                            if k < i as int {
                                assert(!self.mappings@[k].spec_system_contains(address));
                            } else if k > i as int {
                                assert(!self.mappings@[i as int].spec_system_contains(address));
                            }
                        },
                        None => {
                            assert(!self.mappings@[i as int].spec_system_contains(address));
                        },
                    }
                }
                return Some(&self.mappings[i]);
            }
            i = i + 1;
        }
        proof {
            lemma_find_mapping_no_bias_idx(self.mappings@, address);
            match spec_find_mapping_no_bias_idx(self.mappings@, address) {
                Some(k) => {
                    assert(!self.mappings@[k].spec_system_contains(address));
                },
                None => {},
            }
        }
        None
    }
}

// ---------------------------------------------------------------------------
// Stack sanitizing
// ---------------------------------------------------------------------------

/// The pointer-sized word encoded little-endian at `off`.
pub open spec fn word_at(b: Seq<u8>, off: int) -> u64 {
    (b[off] as u64) | ((b[off + 1] as u64) << 8) | ((b[off + 2] as u64) << 16) | ((b[off + 3]
        as u64) << 24) | ((b[off + 4] as u64) << 32) | ((b[off + 5] as u64) << 40) | ((b[off + 6]
        as u64) << 48) | ((b[off + 7] as u64) << 56)
}

/// `sp_offset` rounded up to pointer alignment.
pub open spec fn spec_round_to_word(x: int) -> int {
    x + ((8 - x % 8) % 8)
}

/// Whether a stack word is a small integer — within 4096 of zero in either
/// direction, read as a signed value — and so kept to preserve harmless
/// register spills.
pub open spec fn spec_small_value(a: u64) -> bool {
    a <= 4096 || a >= 0xFFFF_FFFF_FFFF_F000
}

/// Index of the first mapping whose kernel range contains the 64-bit value.
pub open spec fn spec_find_no_bias_u64(mappings: Seq<MappingInfo>, address: u64) -> Option<int>
    decreases mappings.len(),
{
    if mappings.len() == 0 {
        None
    } else if mappings[0].spec_system_contains_u64(address) {
        Some(0int)
    } else {
        match spec_find_no_bias_u64(mappings.drop_first(), address) {
            Some(i) => Some(i + 1),
            None => None,
        }
    }
}

/// What the 64-bit system-range lookup finds is the first match.
pub proof fn lemma_find_no_bias_u64(mappings: Seq<MappingInfo>, address: u64)
    ensures
        match spec_find_no_bias_u64(mappings, address) {
            Some(i) => {
                &&& 0 <= i < mappings.len()
                &&& mappings[i].spec_system_contains_u64(address)
                &&& forall|j: int|
                    0 <= j < i ==> !(#[trigger] mappings[j]).spec_system_contains_u64(address)
            },
            None => forall|j: int|
                0 <= j < mappings.len() ==> !(#[trigger] mappings[j]).spec_system_contains_u64(
                    address,
                ),
        },
    decreases mappings.len(),
{
    if mappings.len() > 0 && !mappings[0].spec_system_contains_u64(address) {
        lemma_find_no_bias_u64(mappings.drop_first(), address);
        let rest = mappings.drop_first();
        assert(forall|j: int| 1 <= j < mappings.len() ==> mappings[j] == rest[j - 1]);
    }
}

/// Whether the word lands inside the stack's own mapping: the mapping the
/// kernel reports for the stack pointer, by its merged range.
pub open spec fn spec_in_stack_mapping(
    mappings: Seq<MappingInfo>,
    stack_pointer: usize,
    a: u64,
) -> bool {
    match spec_find_mapping_no_bias_idx(mappings, stack_pointer) {
        Some(i) => mappings[i].spec_contains_u64(a),
        None => false,
    }
}

/// Whether the word lands inside an executable mapping: the first mapping
/// whose kernel range contains it is executable.
pub open spec fn spec_in_executable_mapping(mappings: Seq<MappingInfo>, a: u64) -> bool {
    match spec_find_no_bias_u64(mappings, a) {
        Some(i) => mappings[i].spec_is_executable(),
        None => false,
    }
}

impl PtraceDumper {
    /// Finds the first mapping whose kernel range contains `address`, by
    /// index.
    fn find_mapping_no_bias_index(&self, address: usize) -> (r: Option<usize>)
        ensures
            match r {
                Some(i) => i < self.mappings@.len() && spec_find_mapping_no_bias_idx(
                    self.mappings@,
                    address,
                ) == Some(i as int),
                None => spec_find_mapping_no_bias_idx(self.mappings@, address) is None,
            },
    {
        let n = self.mappings.len();
        let mut i: usize = 0;
        while i < n
            invariant
                i <= n,
                n == self.mappings@.len(),
                forall|j: int|
                    0 <= j < i ==> !(#[trigger] self.mappings@[j]).spec_system_contains(address),
            decreases n - i,
        {
            let m = &self.mappings[i];
            if m.system_mapping_info.start_address <= address && address
                < m.system_mapping_info.end_address {
                proof {
                    lemma_find_mapping_no_bias_idx(self.mappings@, address);
                    match spec_find_mapping_no_bias_idx(self.mappings@, address) {
                        Some(k) => {
                            if k < i as int {
                                assert(!self.mappings@[k].spec_system_contains(address));
                            } else if k > i as int {
                                assert(!self.mappings@[i as int].spec_system_contains(address));
                            }
                        },
                        None => {
                            assert(!self.mappings@[i as int].spec_system_contains(address));
                        },
                    }
                }
                return Some(i);
            }
            i = i + 1;
        }
        proof {
            lemma_find_mapping_no_bias_idx(self.mappings@, address);
            match spec_find_mapping_no_bias_idx(self.mappings@, address) {
                Some(k) => {
                    assert(!self.mappings@[k].spec_system_contains(address));
                },
                None => {},
            }
        }
        None
    }

    /// Finds the first mapping whose kernel range contains the 64-bit word,
    /// by index.
    fn find_no_bias_u64_index(&self, address: u64) -> (r: Option<usize>)
        ensures
            match r {
                Some(i) => i < self.mappings@.len() && spec_find_no_bias_u64(
                    self.mappings@,
                    address,
                ) == Some(i as int),
                None => spec_find_no_bias_u64(self.mappings@, address) is None,
            },
    {
        let n = self.mappings.len();
        let mut i: usize = 0;
        while i < n
            invariant
                i <= n,
                n == self.mappings@.len(),
                forall|j: int|
                    0 <= j < i ==> !(#[trigger] self.mappings@[j]).spec_system_contains_u64(
                        address,
                    ),
            decreases n - i,
        {
            let m = &self.mappings[i];
            if (m.system_mapping_info.start_address as u64) <= address && address
                < (m.system_mapping_info.end_address as u64) {
                proof {
                    lemma_find_no_bias_u64(self.mappings@, address);
                    match spec_find_no_bias_u64(self.mappings@, address) {
                        Some(k) => {
                            if k < i as int {
                                assert(!self.mappings@[k].spec_system_contains_u64(address));
                            } else if k > i as int {
                                assert(!self.mappings@[i as int].spec_system_contains_u64(
                                    address,
                                ));
                            }
                        },
                        None => {
                            assert(!self.mappings@[i as int].spec_system_contains_u64(address));
                        },
                    }
                }
                return Some(i);
            }
            i = i + 1;
        }
        proof {
            lemma_find_no_bias_u64(self.mappings@, address);
            match spec_find_no_bias_u64(self.mappings@, address) {
                Some(k) => {
                    assert(!self.mappings@[k].spec_system_contains_u64(address));
                },
                None => {},
            }
        }
        None
    }

    /// Redacts non-pointer-looking values from a copied stack before it is
    /// persisted, so pointer-shaped bytes cannot leak unrelated data.
    ///
    /// Bytes below the (word-aligned) stack-pointer offset are zeroed, as is
    /// any trailing partial word. Every aligned word at or above the offset
    /// either keeps its bytes or is overwritten with the fixed defaced
    /// constant; a word within 4096 of zero in either signed direction is
    /// always kept, a word pointing into the stack's own mapping is kept, and
    /// a word that is neither small, nor in the stack's mapping, nor inside an
    /// executable mapping is always defaced.
    #[verifier::rlimit(100)]
    #[verifier::spinoff_prover]
    pub fn sanitize_stack_copy(
        &self,
        stack_copy: &mut Vec<u8>,
        stack_pointer: usize,
        sp_offset: usize,
    ) -> (r: Result<(), DumperError>)
        requires
            spec_round_to_word(sp_offset as int) <= old(stack_copy)@.len(),
            system_ranges_disjoint(self.mappings@),
        ensures
            r is Ok,
            final(stack_copy)@.len() == old(stack_copy)@.len(),
            ({
                let b0 = old(stack_copy)@;
                let b1 = final(stack_copy)@;
                let offset = spec_round_to_word(sp_offset as int);
                let nw = (b0.len() - offset) / 8;
                &&& (forall|i: int| 0 <= i < offset ==> b1[i] == 0)
                &&& (forall|i: int| offset + 8 * nw <= i < b0.len() ==> b1[i] == 0)
                &&& (forall|w: int|
                    0 <= w < nw ==> #[trigger] sanitized_word_ok(
                        b0,
                        b1,
                        offset + 8 * w,
                        self.mappings@,
                        stack_pointer,
                    ))
            }),
    {
        let len = stack_copy.len();
        let pad = (8 - sp_offset % 8) % 8;
        let offset = sp_offset + pad;
        let ghost b0 = stack_copy@;

        // Zero memory that is below the current stack pointer.
        let mut i: usize = 0;
        while i < offset
            invariant
                i <= offset,
                offset <= b0.len(),
                stack_copy@.len() == b0.len(),
                forall|k: int| 0 <= k < i ==> stack_copy@[k] == 0,
                forall|k: int| i <= k < b0.len() ==> stack_copy@[k] == b0[k],
            decreases offset - i,
        {
            stack_copy.set(i, 0);
            i = i + 1;
        }

        let stack_map_index: Option<usize> = self.find_mapping_no_bias_index(
            stack_pointer,
        );

        let mut defaced_bytes: Vec<u8> = Vec::new();
        crate::minidump_format::push_u64_le(&mut defaced_bytes, DEFACED_VALUE);

        // The most recently matched executable mapping, a cheap locality
        // cache for pointer-dense stacks.
        let mut last_hit_index: Option<usize> = None;

        let nw = (len - offset) / 8;
        let mut w: usize = 0;
        while w < nw
            invariant
                w <= nw,
                nw == (b0.len() - offset) / 8,
                offset == spec_round_to_word(sp_offset as int),
                offset + 8 * nw <= b0.len(),
                len == b0.len(),
                stack_copy@.len() == b0.len(),
                defaced_bytes@ == crate::minidump_format::le64(DEFACED_VALUE),
                system_ranges_disjoint(self.mappings@),
                match stack_map_index {
                    Some(j) => j < self.mappings@.len() && spec_find_mapping_no_bias_idx(
                        self.mappings@,
                        stack_pointer,
                    ) == Some(j as int),
                    None => spec_find_mapping_no_bias_idx(
                        self.mappings@,
                        stack_pointer,
                    ) is None,
                },
                match last_hit_index {
                    Some(j) => j < self.mappings@.len()
                        && self.mappings@[j as int].spec_is_executable(),
                    None => true,
                },
                forall|k: int| 0 <= k < offset ==> stack_copy@[k] == 0,
                forall|k: int|
                    offset + 8 * w <= k < b0.len() ==> stack_copy@[k] == b0[k],
                forall|v: int|
                    0 <= v < w ==> #[trigger] sanitized_word_ok(
                        b0,
                        stack_copy@,
                        offset + 8 * v,
                        self.mappings@,
                        stack_pointer,
                    ),
            decreases nw - w,
        {
            let ghost iter0 = stack_copy@;
            let pos = offset + 8 * w;
            let a: u64 = (stack_copy[pos] as u64) | ((stack_copy[pos + 1] as u64) << 8) | ((
            stack_copy[pos + 2] as u64) << 16) | ((stack_copy[pos + 3] as u64) << 24) | ((
            stack_copy[pos + 4] as u64) << 32) | ((stack_copy[pos + 5] as u64) << 40) | ((
            stack_copy[pos + 6] as u64) << 48) | ((stack_copy[pos + 7] as u64) << 56);
            proof {
                assert(a == word_at(b0, pos as int));
            }

            let mut keep: bool = false;
            if a <= 4096 || a >= 0xFFFF_FFFF_FFFF_F000 {
                keep = true;
            } else if match stack_map_index {
                Some(j) => {
                    let m = &self.mappings[j];
                    (m.start_address as u64) <= a && a - (m.start_address as u64) < (m.size
                        as u64)
                },
                None => false,
            } {
                keep = true;
            } else if match last_hit_index {
                Some(j) => {
                    let m = &self.mappings[j];
                    (m.system_mapping_info.start_address as u64) <= a && a
                        < (m.system_mapping_info.end_address as u64)
                },
                None => false,
            } {
                // The cache only ever holds an executable mapping, and kernel
                // ranges are disjoint, so this is the mapping the full lookup
                // would find.
                proof {
                    match last_hit_index {
                        Some(j) => {
                            lemma_no_bias_u64_unique(self.mappings@, a, j as int);
                        },
                        None => {},
                    }
                }
                keep = true;
            } else {
                match self.find_no_bias_u64_index(a) {
                    Some(j) => {
                        if self.mappings[j].is_executable() {
                            last_hit_index = Some(j);
                            keep = true;
                        }
                    },
                    None => {},
                }
            }

            if !keep {
                let ghost before = stack_copy@;
                stack_copy.set(pos, defaced_bytes[0]);
                stack_copy.set(pos + 1, defaced_bytes[1]);
                stack_copy.set(pos + 2, defaced_bytes[2]);
                stack_copy.set(pos + 3, defaced_bytes[3]);
                stack_copy.set(pos + 4, defaced_bytes[4]);
                stack_copy.set(pos + 5, defaced_bytes[5]);
                stack_copy.set(pos + 6, defaced_bytes[6]);
                stack_copy.set(pos + 7, defaced_bytes[7]);
                assert(stack_copy@.subrange(pos as int, pos + 8) =~= crate::minidump_format::le64(
                    DEFACED_VALUE,
                ));
            }
            proof {
                assert(sanitized_word_ok(
                    b0,
                    stack_copy@,
                    pos as int,
                    self.mappings@,
                    stack_pointer,
                )) by {
                    if keep {
                        assert(stack_copy@.subrange(pos as int, pos + 8) =~= b0.subrange(
                            pos as int,
                            pos + 8,
                        ));
                    }
                }
                assert forall|v: int| 0 <= v < w + 1 implies #[trigger] sanitized_word_ok(
                    b0,
                    stack_copy@,
                    offset + 8 * v,
                    self.mappings@,
                    stack_pointer,
                ) by {
                    if v < w as int {
                        let pv = offset + 8 * v;
                        assert(stack_copy@.subrange(pv, pv + 8) =~= iter0.subrange(pv, pv + 8));
                        assert(sanitized_word_ok(b0, iter0, pv, self.mappings@, stack_pointer));
                    }
                }
            }
            w = w + 1;
        }

        // Zero any partial word at the top of the stack.
        let mut t: usize = offset + 8 * nw;
        while t < len
            invariant
                offset + 8 * nw <= t <= len,
                len == b0.len(),
                stack_copy@.len() == b0.len(),
                forall|k: int| 0 <= k < offset ==> stack_copy@[k] == 0,
                forall|k: int| offset + 8 * nw <= k < t ==> stack_copy@[k] == 0,
                forall|v: int|
                    0 <= v < nw ==> #[trigger] sanitized_word_ok(
                        b0,
                        stack_copy@,
                        offset + 8 * v,
                        self.mappings@,
                        stack_pointer,
                    ),
            decreases len - t,
        {
            let ghost tail0 = stack_copy@;
            stack_copy.set(t, 0);
            proof {
                assert forall|v: int| 0 <= v < nw implies #[trigger] sanitized_word_ok(
                    b0,
                    stack_copy@,
                    offset + 8 * v,
                    self.mappings@,
                    stack_pointer,
                ) by {
                    let pv = offset + 8 * v;
                    assert(stack_copy@.subrange(pv, pv + 8) =~= tail0.subrange(pv, pv + 8));
                    assert(sanitized_word_ok(b0, tail0, pv, self.mappings@, stack_pointer));
                }
            }
            t = t + 1;
        }
        Ok(())
    }
}

/// Under disjoint kernel ranges, a mapping whose kernel range contains the
/// word is the one the 64-bit lookup finds.
pub proof fn lemma_no_bias_u64_unique(mappings: Seq<MappingInfo>, address: u64, i: int)
    requires
        system_ranges_disjoint(mappings),
        0 <= i < mappings.len(),
        mappings[i].spec_system_contains_u64(address),
    ensures
        spec_find_no_bias_u64(mappings, address) == Some(i),
{
    lemma_find_no_bias_u64(mappings, address);
    match spec_find_no_bias_u64(mappings, address) {
        Some(k) => {
            assert(mappings[k].spec_system_contains_u64(address));
        },
        None => {
            assert(!mappings[i].spec_system_contains_u64(address));
        },
    }
}

/// How the sanitizer treated the word at `pos`: it keeps its bytes or carries
/// the defaced constant; a small value or a stack-local pointer is always
/// kept; a value that is neither small nor stack-local nor inside an
/// executable mapping is always defaced.
pub open spec fn sanitized_word_ok(
    b0: Seq<u8>,
    b1: Seq<u8>,
    pos: int,
    mappings: Seq<MappingInfo>,
    stack_pointer: usize,
) -> bool {
    let a = word_at(b0, pos);
    &&& (b1.subrange(pos, pos + 8) == b0.subrange(pos, pos + 8) || b1.subrange(pos, pos + 8)
        == crate::minidump_format::le64(DEFACED_VALUE))
    &&& (spec_small_value(a) ==> b1.subrange(pos, pos + 8) == b0.subrange(pos, pos + 8))
    &&& (spec_in_stack_mapping(mappings, stack_pointer, a) ==> b1.subrange(pos, pos + 8)
        == b0.subrange(pos, pos + 8))
    &&& (!spec_small_value(a) && !spec_in_stack_mapping(mappings, stack_pointer, a)
        && !spec_in_executable_mapping(mappings, a) ==> b1.subrange(pos, pos + 8)
        == crate::minidump_format::le64(DEFACED_VALUE))
}

// ---------------------------------------------------------------------------
// Thread control and stack recovery
// ---------------------------------------------------------------------------

/// Whether a found mapping could back a stack: it exists and is readable or
/// writable.
pub open spec fn spec_may_be_stack(mappings: Seq<MappingInfo>, idx: Option<int>) -> bool {
    match idx {
        Some(i) => 0 <= i < mappings.len() && (mappings[i].permissions.read
            || mappings[i].permissions.write),
        None => false,
    }
}

/// The stack pointer the probe settles on: starting from a page-rounded
/// pointer, pages are probed upward past a possible guard page — at most one
/// mebibyte — until a readable-or-writable mapping is found or the guard
/// bound is passed.
pub open spec fn spec_stack_probe(
    mappings: Seq<MappingInfo>,
    sp: int,
    guard: int,
    page: int,
) -> int
    decreases guard + page - sp,
        when page >= 1 && sp <= guard + page
{
    if spec_may_be_stack(mappings, spec_find_idx_int(mappings, sp)) || sp > guard {
        sp
    } else {
        spec_stack_probe(mappings, sp + page, guard, page)
    }
}

/// Whether the mapping's merged range contains the mathematical address.
pub open spec fn spec_contains_int(m: MappingInfo, a: int) -> bool {
    m.start_address <= a < m.start_address + m.size
}

/// Index of the first mapping whose merged range contains the mathematical
/// address.
pub open spec fn spec_find_idx_int(mappings: Seq<MappingInfo>, a: int) -> Option<int>
    decreases mappings.len(),
{
    if mappings.len() == 0 {
        None
    } else if spec_contains_int(mappings[0], a) {
        Some(0int)
    } else {
        match spec_find_idx_int(mappings.drop_first(), a) {
            Some(i) => Some(i + 1),
            None => None,
        }
    }
}

/// What the mathematical lookup finds is the first match.
pub proof fn lemma_find_idx_int(mappings: Seq<MappingInfo>, a: int)
    ensures
        match spec_find_idx_int(mappings, a) {
            Some(i) => {
                &&& 0 <= i < mappings.len()
                &&& spec_contains_int(mappings[i], a)
                &&& forall|j: int| 0 <= j < i ==> !spec_contains_int(#[trigger] mappings[j], a)
            },
            None => forall|j: int|
                0 <= j < mappings.len() ==> !spec_contains_int(#[trigger] mappings[j], a),
        },
    decreases mappings.len(),
{
    if mappings.len() > 0 && !spec_contains_int(mappings[0], a) {
        lemma_find_idx_int(mappings.drop_first(), a);
        let rest = mappings.drop_first();
        assert(forall|j: int| 1 <= j < mappings.len() ==> mappings[j] == rest[j - 1]);
    }
}

/// Every mapping ends within the address space.
pub open spec fn spec_mappings_bounded(mappings: Seq<MappingInfo>) -> bool {
    forall|i: int|
        0 <= i < mappings.len() ==> (#[trigger] mappings[i]).start_address + mappings[i].size
            <= usize::MAX
}

impl PtraceDumper {
    /// Finds the first mapping whose merged range contains the mathematical
    /// address, by index.
    fn find_idx_for(&self, address: usize) -> (r: Option<usize>)
        ensures
            match r {
                Some(i) => i < self.mappings@.len() && spec_find_idx_int(
                    self.mappings@,
                    address as int,
                ) == Some(i as int),
                None => spec_find_idx_int(self.mappings@, address as int) is None,
            },
    {
        let n = self.mappings.len();
        let mut i: usize = 0;
        while i < n
            invariant
                i <= n,
                n == self.mappings@.len(),
                forall|j: int|
                    0 <= j < i ==> !spec_contains_int(
                        #[trigger] self.mappings@[j],
                        address as int,
                    ),
            decreases n - i,
        {
            if self.mappings[i].contains_address(address) {
                proof {
                    lemma_find_idx_int(self.mappings@, address as int);
                    match spec_find_idx_int(self.mappings@, address as int) {
                        Some(k) => {
                            if k < i as int {
                                assert(!spec_contains_int(self.mappings@[k], address as int));
                            } else if k > i as int {
                                assert(!spec_contains_int(
                                    self.mappings@[i as int],
                                    address as int,
                                ));
                            }
                        },
                        None => {
                            assert(!spec_contains_int(self.mappings@[i as int], address as int));
                        },
                    }
                }
                return Some(i);
            }
            i = i + 1;
        }
        proof {
            lemma_find_idx_int(self.mappings@, address as int);
            match spec_find_idx_int(self.mappings@, address as int) {
                Some(k) => {
                    assert(!spec_contains_int(self.mappings@[k], address as int));
                },
                None => {},
            }
        }
        None
    }

    /// Returns a valid stack pointer and the length of stack above it.
    ///
    /// The stack pointer is rounded down to its page so data just below it is
    /// still captured; when it lands in a guard page — no mapping, or one
    /// with no read or write permission — pages above it are probed, up to
    /// one mebibyte, for the real stack. The returned pointer is the probed
    /// address when the found mapping contains it, and the mapping's start
    /// otherwise (a stack overflow); the length runs from there to the
    /// mapping's end. Fails if and only if the probe finds no mapping at all.
    pub fn get_stack_info(&self, int_stack_pointer: usize) -> (r: Result<
        (usize, usize),
        DumperError,
    >)
        requires
            self.page_size >= 1,
            spec_mappings_bounded(self.mappings@),
        ensures
            ({
                let page = self.page_size as int;
                let sp0 = (int_stack_pointer as int) - (int_stack_pointer as int) % page;
                let guard = if sp0 + 0x100000 > usize::MAX {
                    usize::MAX as int
                } else {
                    sp0 + 0x100000
                };
                let spf = spec_stack_probe(self.mappings@, sp0, guard, page);
                match spec_find_idx_int(self.mappings@, spf) {
                    Some(i) => {
                        let m = self.mappings@[i];
                        let valid_sp = if spec_contains_int(m, spf) {
                            spf
                        } else {
                            m.start_address as int
                        };
                        r == Ok::<(usize, usize), DumperError>(
                            (
                                valid_sp as usize,
                                (m.start_address + m.size - valid_sp) as usize,
                            ),
                        )
                    },
                    None => r == Err::<(usize, usize), DumperError>(
                        DumperError::NoStackPointerMapping,
                    ),
                }
            }),
    {
        let page = self.page_size;
        // Round the stack pointer to its page, capturing data below it.
        proof {
            assert(int_stack_pointer % page <= int_stack_pointer) by (nonlinear_arith)
                requires
                    page >= 1,
            ;
        }
        let mut stack_pointer = int_stack_pointer - int_stack_pointer % page;
        let ghost sp0 = stack_pointer as int;

        // The guard page has been one mebibyte since kernel 4.12; a stack
        // pointer within one mebibyte of the top of the address space
        // saturates.
        let guard_page_max_addr = if stack_pointer > usize::MAX - 0x100000 {
            usize::MAX
        } else {
            stack_pointer + 0x100000
        };
        let ghost guard = guard_page_max_addr as int;

        let mut mapping = self.find_idx_for(stack_pointer);
        let ghost spf = spec_stack_probe(self.mappings@, sp0, guard, page as int);

        loop
            invariant_except_break
                self.page_size == page,
                page >= 1,
                spec_mappings_bounded(self.mappings@),
                sp0 == (int_stack_pointer as int) - (int_stack_pointer as int) % (page as int),
                guard == (if sp0 + 0x100000 > usize::MAX {
                    usize::MAX as int
                } else {
                    sp0 + 0x100000
                }),
                spf == spec_stack_probe(self.mappings@, sp0, guard, page as int),
                guard == guard_page_max_addr as int,
                guard <= usize::MAX,
                stack_pointer as int <= guard + page,
                match mapping {
                    Some(i) => i < self.mappings@.len() && spec_find_idx_int(
                        self.mappings@,
                        stack_pointer as int,
                    ) == Some(i as int),
                    None => spec_find_idx_int(self.mappings@, stack_pointer as int) is None,
                },
                spec_stack_probe(self.mappings@, stack_pointer as int, guard, page as int) == spf,
            ensures
                stack_pointer as int == spf,
                match mapping {
                    Some(i) => i < self.mappings@.len() && spec_find_idx_int(
                        self.mappings@,
                        spf,
                    ) == Some(i as int),
                    None => spec_find_idx_int(self.mappings@, spf) is None,
                },
            decreases guard + page - stack_pointer,
        {
            let stackish = match mapping {
                Some(i) => {
                    let m = &self.mappings[i];
                    m.permissions.read || m.permissions.write
                },
                None => false,
            };
            if stackish || stack_pointer > guard_page_max_addr {
                proof {
                    assert(spec_stack_probe(
                        self.mappings@,
                        stack_pointer as int,
                        guard,
                        page as int,
                    ) == stack_pointer as int);
                }
                break ;
            }
            if page > usize::MAX - stack_pointer {
                // The next probe would pass the top of the address space; no
                // mapping lies there, and it is past the guard bound.
                proof {
                    let next = stack_pointer as int + page as int;
                    lemma_find_idx_int(self.mappings@, next);
                    match spec_find_idx_int(self.mappings@, next) {
                        Some(k) => {
                            assert(spec_contains_int(self.mappings@[k], next));
                            assert(self.mappings@[k].start_address + self.mappings@[k].size
                                <= usize::MAX);
                        },
                        None => {},
                    }
                    assert(spec_stack_probe(
                        self.mappings@,
                        stack_pointer as int,
                        guard,
                        page as int,
                    ) == spec_stack_probe(self.mappings@, next, guard, page as int));
                    assert(spec_stack_probe(self.mappings@, next, guard, page as int) == next);
                    assert(spf == next);
                    assert(spec_find_idx_int(self.mappings@, spf) is None);
                }
                return Err(DumperError::NoStackPointerMapping);
            }
            proof {
                assert(spec_stack_probe(
                    self.mappings@,
                    stack_pointer as int,
                    guard,
                    page as int,
                ) == spec_stack_probe(
                    self.mappings@,
                    stack_pointer as int + page as int,
                    guard,
                    page as int,
                ));
            }
            stack_pointer = stack_pointer + page;
            mapping = self.find_idx_for(stack_pointer);
        }

        match mapping {
            Some(i) => {
                let m = &self.mappings[i];
                let valid_stack_pointer = if m.contains_address(stack_pointer) {
                    stack_pointer
                } else {
                    m.start_address
                };
                let stack_len = m.size - (valid_stack_pointer - m.start_address);
                Ok((valid_stack_pointer, stack_len))
            },
            None => Err(DumperError::NoStackPointerMapping),
        }
    }

    /// Constructs a dumper for the given target from its enumerated threads
    /// and normalized mappings.
    ///
    /// Fails if and only if the target is this very process: a process cannot
    /// trace itself.
    pub fn new_report_soft_errors(
        pid: Pid,
        current_pid: Pid,
        threads: Vec<Thread>,
        mappings: Vec<MappingInfo>,
        page_size: usize,
    ) -> (r: Result<PtraceDumper, InitError>)
        ensures
            match r {
                Ok(d) => {
                    &&& pid != current_pid
                    &&& d.pid == pid
                    &&& !d.threads_suspended
                    &&& d.threads@ == threads@
                    &&& d.mappings@ == mappings@
                    &&& d.page_size == page_size
                },
                Err(e) => pid == current_pid && e is CannotPtraceSameProcess,
            },
    {
        if pid == current_pid {
            return Err(InitError::CannotPtraceSameProcess);
        }
        Ok(PtraceDumper { pid, threads_suspended: false, threads, mappings, page_size })
    }

    /// Late platform-specific initialization; nothing is required here.
    pub fn late_init(&mut self) -> (r: Result<(), InitError>)
        ensures
            r is Ok,
            *final(self) == *old(self),
    {
        Ok(())
    }

    /// Returns the thread record at `index`, or an error naming the index and
    /// the thread count when it lies at or past the count.
    pub fn get_thread_info_by_index(&self, index: usize) -> (r: Result<&Thread, DumperError>)
        ensures
            match r {
                Ok(t) => index < self.threads@.len() && *t == self.threads@[index as int],
                Err(e) => index >= self.threads@.len() && e == DumperError::IndexOutOfBounds(
                    index,
                    self.threads@.len() as usize,
                ),
            },
    {
        if index >= self.threads.len() {
            return Err(DumperError::IndexOutOfBounds(index, self.threads.len()));
        }
        Ok(&self.threads[index])
    }

    /// Suspends a thread by attaching to it, consuming wait statuses until
    /// the stop signal is seen and re-injecting any other pending signal so
    /// it is not lost. On this architecture a stopped thread whose stack
    /// pointer reads as zero is sandboxed trusted code: it is detached and
    /// reported skipped, so it never pollutes the dump.
    ///
    /// The syscalls decide the outcome, so success cannot be promised; but
    /// every failure names this very thread, and a skipped thread is reported
    /// as skipped. A bounded number of wait retries guards termination: when
    /// it runs out the thread is detached and reported, never treated as
    /// suspended.
    pub fn suspend_thread(child: Pid) -> (r: Result<(), DumperError>)
        ensures
            r matches Err(e) ==> spec_error_names_thread(e, child),
    {
        if let Err(e) = ptrace_attach(child) {
            return Err(DumperError::PtraceAttachError(child, e));
        }
        let mut stopped: bool = false;
        let mut attempts: u64 = 0;
        while attempts < 0xFFFF_FFFF
            invariant_except_break
                attempts <= 0xFFFF_FFFF,
                !stopped,
            ensures
                true,
            decreases 0xFFFF_FFFF - attempts,
        {
            match waitpid_all(child) {
                WaitOutcome::Stopped(signal) => {
                    if signal == SIGSTOP_SIGNAL {
                        // The stop we asked for: the thread stands suspended.
                        stopped = true;
                        break ;
                    }
                    // Another signal stopped the thread first: re-inject it,
                    // or it would be lost and delivered after detach.
                    if let Err(e) = ptrace_cont_with_signal(child, signal) {
                        return Err(DumperError::WaitPidError(child, e));
                    }
                },
                WaitOutcome::Other => {
                    return Err(DumperError::WaitPidError(child, 0));
                },
                WaitOutcome::Interrupted => {},
                WaitOutcome::Failed(e) => {
                    match ptrace_detach(child) {
                        Ok(_) => {},
                        Err(de) => {
                            return Err(de);
                        },
                    }
                    return Err(DumperError::WaitPidError(child, e));
                },
            }
            attempts = attempts + 1;
        }
        if !stopped {
            // The retries ran out without the stop signal: let the thread go
            // and report the wait as failed rather than dump it unsuspended.
            match ptrace_detach(child) {
                Ok(_) => {},
                Err(de) => {
                    return Err(de);
                },
            }
            return Err(DumperError::WaitPidError(child, 0));
        }
        // A zero stack pointer marks sandboxed trusted code; such threads are
        // excluded rather than reported as an error of the dump.
        let skip_thread = match getregs_stack_pointer(child) {
            Ok(sp) => sp == 0,
            Err(_) => true,
        };
        if skip_thread {
            match ptrace_detach(child) {
                Ok(_) => {},
                Err(de) => {
                    return Err(de);
                },
            }
            return Err(DumperError::DetachSkippedThread(child));
        }
        Ok(())
    }

    /// Resumes a thread by detaching from it; a thread that has already
    /// exited counts as resumed.
    pub fn resume_thread(child: Pid) -> (r: Result<(), DumperError>)
        ensures
            r is Err ==> (r->Err_0 matches DumperError::PtraceDetachError(p, e) && p == child && e
                != ESRCH),
    {
        ptrace_detach(child)
    }

    /// Suspends every enumerated thread, keeping the ones that suspended and
    /// silently dropping — with one soft error each, naming the thread — those
    /// that vanished or are sandboxed trusted code. The kept threads are an
    /// in-order selection of the old list, the dropped positions account for
    /// the rest, and earlier soft errors stay in place. The dump is never
    /// aborted here.
    pub fn suspend_threads(&mut self, soft_errors: &mut SoftErrorList<DumperError>)
        ensures
            final(self).pid == old(self).pid,
            final(self).mappings@ == old(self).mappings@,
            final(self).page_size == old(self).page_size,
            final(self).threads_suspended,
            final(soft_errors).view_seq().take(old(soft_errors).view_seq().len() as int) == old(
                soft_errors,
            ).view_seq(),
            exists|kept_at: Seq<int>, dropped_at: Seq<int>|
                spec_retention_ok(
                    final(self).threads@,
                    final(soft_errors).view_seq().skip(old(soft_errors).view_seq().len() as int),
                    old(self).threads@,
                    kept_at,
                    dropped_at,
                ),
    {
        let ghost input = self.threads@;
        let ghost errs0 = soft_errors.view_seq();
        let ghost mut kept_at: Seq<int> = Seq::empty();
        let ghost mut dropped_at: Seq<int> = Seq::empty();
        let n = self.threads.len();
        let mut kept: Vec<Thread> = Vec::new();
        let mut i: usize = 0;
        proof {
            assert(soft_errors.view_seq().skip(errs0.len() as int) =~= Seq::<
                DumperError,
            >::empty());
            assert(soft_errors.view_seq().take(errs0.len() as int) =~= errs0);
        }
        while i < n
            invariant
                i <= n,
                n == input.len(),
                errs0 == old(soft_errors).view_seq(),
                self.threads@ == input.skip(i as int),
                soft_errors.view_seq().take(errs0.len() as int) == errs0,
                soft_errors.view_seq().len() >= errs0.len(),
                spec_retention_ok(
                    kept@,
                    soft_errors.view_seq().skip(errs0.len() as int),
                    input.take(i as int),
                    kept_at,
                    dropped_at,
                ),
                forall|k: int| 0 <= k < kept_at.len() ==> 0 <= #[trigger] kept_at[k] < i,
                forall|k: int| 0 <= k < dropped_at.len() ==> 0 <= #[trigger] dropped_at[k] < i,
                self.pid == old(self).pid,
                self.mappings@ == old(self).mappings@,
                self.page_size == old(self).page_size,
            decreases n - i,
        {
            let t = self.threads.remove(0);
            let tid = t.tid;
            proof {
                assert(input.skip(i as int)[0] == input[i as int]);
                assert(self.threads@ =~= input.skip(i + 1));
                assert(input.take(i + 1).drop_last() =~= input.take(i as int));
                assert(input.take(i + 1).last() == input[i as int]);
                assert(t == input[i as int]);
            }
            let ghost errs_pre = soft_errors.view_seq();
            match Self::suspend_thread(tid) {
                Ok(_) => {
                    kept.push(t);
                    proof {
                        kept_at = kept_at.push(i as int);
                    }
                },
                Err(e) => {
                    // The thread disappeared or runs sandboxed trusted code:
                    // it is dropped from the dump, never fatal.
                    soft_errors.push(e);
                    proof {
                        dropped_at = dropped_at.push(i as int);
                        assert(soft_errors.view_seq().take(errs0.len() as int) =~= errs_pre.take(
                            errs0.len() as int,
                        ));
                        assert(soft_errors.view_seq().skip(errs0.len() as int) =~= errs_pre.skip(
                            errs0.len() as int,
                        ).push(e));
                    }
                },
            }
            proof {
                assert(spec_retention_ok(
                    kept@,
                    soft_errors.view_seq().skip(errs0.len() as int),
                    input.take(i + 1),
                    kept_at,
                    dropped_at,
                ));
            }
            i = i + 1;
        }
        proof {
            assert(input.take(n as int) =~= input);
        }
        self.threads = kept;
        self.threads_suspended = true;
        proof {
            assert(spec_retention_ok(
                self.threads@,
                soft_errors.view_seq().skip(errs0.len() as int),
                input,
                kept_at,
                dropped_at,
            ));
        }
    }

    /// Resumes every retained thread, recording a soft error for each one
    /// that could not be detached. Earlier soft errors stay in place; only
    /// new ones are appended.
    pub fn resume_threads(&mut self, soft_errors: &mut SoftErrorList<DumperError>)
        ensures
            final(self).pid == old(self).pid,
            final(self).threads@ == old(self).threads@,
            final(self).mappings@ == old(self).mappings@,
            final(self).page_size == old(self).page_size,
            !final(self).threads_suspended,
            final(soft_errors).view_seq().take(old(soft_errors).view_seq().len() as int) == old(
                soft_errors,
            ).view_seq(),
    {
        let ghost errs0 = soft_errors.view_seq();
        proof {
            assert(soft_errors.view_seq().take(errs0.len() as int) =~= errs0);
        }
        if self.threads_suspended {
            let n = self.threads.len();
            let mut i: usize = 0;
            while i < n
                invariant
                    i <= n,
                    n == self.threads@.len(),
                    *self == *old(self),
                    errs0 == old(soft_errors).view_seq(),
                    soft_errors.view_seq().len() >= errs0.len(),
                    soft_errors.view_seq().take(errs0.len() as int) == errs0,
                decreases n - i,
            {
                match Self::resume_thread(self.threads[i].tid) {
                    Ok(_) => {},
                    Err(e) => {
                        let ghost pre = soft_errors.view_seq();
                        soft_errors.push(e);
                        proof {
                            assert(soft_errors.view_seq().take(errs0.len() as int) =~= pre.take(
                                errs0.len() as int,
                            ));
                        }
                    },
                }
                i = i + 1;
            }
        }
        self.threads_suspended = false;
    }
}

/// Law: sanitizing never defaces a word whose value lies within 4096 of zero,
/// in either signed direction — harmless register spills survive.
pub proof fn lemma_sanitize_keeps_small_values(
    b0: Seq<u8>,
    b1: Seq<u8>,
    pos: int,
    mappings: Seq<MappingInfo>,
    stack_pointer: usize,
)
    requires
        sanitized_word_ok(b0, b1, pos, mappings, stack_pointer),
        spec_small_value(word_at(b0, pos)),
    ensures
        b1.subrange(pos, pos + 8) == b0.subrange(pos, pos + 8),
{
}

/// Law: sanitizing defaces every full word of printable text that points into
/// neither the stack's own mapping nor any executable mapping — text is not a
/// valid pointer, and it never leaks.
pub proof fn lemma_sanitize_defaces_text(
    b0: Seq<u8>,
    b1: Seq<u8>,
    pos: int,
    mappings: Seq<MappingInfo>,
    stack_pointer: usize,
)
    requires
        sanitized_word_ok(b0, b1, pos, mappings, stack_pointer),
        0 <= pos,
        pos + 8 <= b0.len(),
        forall|k: int| pos <= k < pos + 8 ==> 0x20 <= #[trigger] b0[k] < 0x7f,
        !spec_in_stack_mapping(mappings, stack_pointer, word_at(b0, pos)),
        !spec_in_executable_mapping(mappings, word_at(b0, pos)),
    ensures
        b1.subrange(pos, pos + 8) == crate::minidump_format::le64(DEFACED_VALUE),
{
    let a = word_at(b0, pos);
    let c0 = b0[pos];
    let c1 = b0[pos + 1];
    let c2 = b0[pos + 2];
    let c3 = b0[pos + 3];
    let c4 = b0[pos + 4];
    let c5 = b0[pos + 5];
    let c6 = b0[pos + 6];
    let c7 = b0[pos + 7];
    assert(!spec_small_value(a)) by {
        assert(0x20 <= c7 < 0x7f);
        assert((0x20 <= c7 && c7 < 0x7f) ==> ((c0 as u64) | ((c1 as u64) << 8) | ((c2 as u64)
            << 16) | ((c3 as u64) << 24) | ((c4 as u64) << 32) | ((c5 as u64) << 40) | ((c6
            as u64) << 48) | ((c7 as u64) << 56)) > 4096 && ((c0 as u64) | ((c1 as u64) << 8) | ((
        c2 as u64) << 16) | ((c3 as u64) << 24) | ((c4 as u64) << 32) | ((c5 as u64) << 40) | ((
        c6 as u64) << 48) | ((c7 as u64) << 56)) < 0xFFFF_FFFF_FFFF_F000) by (bit_vector);
    }
}

} // verus!
