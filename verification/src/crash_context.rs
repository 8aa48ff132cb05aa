//! The crash context captured by an exception handler before any dumping
//! begins, and read-only for the remainder of the dump.

use vstd::prelude::*;

use crate::minidump_cpu::RawContextCPU;

verus! {

/// A thread's captured register state: the two registers the writer reads,
/// plus the full serialized context record.
#[derive(Clone, Debug)]
pub struct ThreadState {
    /// Stack pointer at capture time.
    pub sp: u64,
    /// Program counter at capture time.
    pub pc: u64,
    /// The full CPU context in its on-disk layout.
    pub context: Vec<u8>,
}

impl ThreadState {
    /// Stack pointer of the captured state.
    pub fn sp(&self) -> (v: u64)
        ensures
            v == self.sp,
    {
        self.sp
    }

    /// Program counter of the captured state.
    pub fn pc(&self) -> (v: u64)
        ensures
            v == self.pc,
    {
        self.pc
    }

    /// Copies the captured context into a CPU context record.
    pub fn fill_cpu_context(&self, cpu: &mut RawContextCPU)
        ensures
            final(cpu).data@ == self.context@,
    {
        cpu.data = self.context.clone();
        assert(cpu.data@ =~= self.context@);
    }
}

/// Information on the exception that caused the crash.
#[derive(Clone, Copy, Debug)]
pub struct IosExceptionInfo {
    /// The exception kind, eg. `EXC_BAD_ACCESS`.
    pub kind: u32,
    /// The exception code, eg. `KERN_INVALID_ADDRESS`.
    pub code: u64,
    /// Optional subcode with different meanings depending on the exception
    /// type. For `EXC_BAD_ACCESS` this is the address that was accessed.
    pub subcode: Option<u64>,
}

/// The crash context: which task and thread crashed, which thread handled the
/// exception, what the exception was, and the crashed thread's state.
#[derive(Clone, Debug)]
pub struct IosCrashContext {
    /// The task which crashed.
    pub task: u32,
    /// The thread in the task that crashed.
    pub thread: u32,
    /// The thread that handled the exception. This may be useful to ignore.
    pub handler_thread: u32,
    /// Optional exception information.
    pub exception: Option<IosExceptionInfo>,
    /// The CPU state of the crashed thread.
    pub thread_state: ThreadState,
}

impl IosCrashContext {
    /// Copies the crashed thread's captured context into a CPU context record.
    pub fn fill_cpu_context(&self, cpu: &mut RawContextCPU)
        ensures
            final(cpu).data@ == self.thread_state.context@,
    {
        self.thread_state.fill_cpu_context(cpu);
    }
}

} // verus!
