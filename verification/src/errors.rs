//! Error types of the dumper and writer, and the list that collects soft
//! errors: failures recorded alongside a best-effort partial result.

use vstd::prelude::*;

use crate::mem_writer::MemoryWriterError;

verus! {

/// A Mach kernel return code, decoded from the raw `i32`.
#[derive(Clone, Copy, Debug, PartialEq, Eq, Structural)]
pub enum KernelError {
    InvalidAddress,
    ProtectionFailure,
    NoSpace,
    InvalidArgument,
    Failure,
    Other(i32),
}

impl KernelError {
    /// The kernel code this value stands for.
    pub open spec fn spec_from_code(code: i32) -> KernelError {
        if code == 1 {
            KernelError::InvalidAddress
        } else if code == 2 {
            KernelError::ProtectionFailure
        } else if code == 3 {
            KernelError::NoSpace
        } else if code == 4 {
            KernelError::InvalidArgument
        } else if code == 5 {
            KernelError::Failure
        } else {
            KernelError::Other(code)
        }
    }
}

impl From<i32> for KernelError {
    /// Decodes a raw kernel return code.
    fn from(code: i32) -> (k: KernelError) {
        if code == 1 {
            KernelError::InvalidAddress
        } else if code == 2 {
            KernelError::ProtectionFailure
        } else if code == 3 {
            KernelError::NoSpace
        } else if code == 4 {
            KernelError::InvalidArgument
        } else if code == 5 {
            KernelError::Failure
        } else {
            KernelError::Other(code)
        }
    }
}

impl vstd::std_specs::convert::FromSpecImpl<i32> for KernelError {
    open spec fn obeys_from_spec() -> bool {
        true
    }

    open spec fn from_spec(code: i32) -> KernelError {
        KernelError::spec_from_code(code)
    }
}

/// Which load command a module was missing.
#[derive(Clone, Copy, Debug, PartialEq, Eq, Structural)]
pub enum LoadCommandKind {
    Segment,
    Dylib,
    Uuid,
}

/// Failures while extracting facts from the dumped task.
#[derive(Clone, Debug)]
pub enum TaskDumpError {
    /// A syscall against the task failed.
    Kernel { syscall: &'static str, error: KernelError },
    /// An image's header was not a valid Mach header.
    InvalidMachHeader,
    /// Bytes read from the task were not valid UTF-8.
    NonUtf8String,
    /// No loaded image was the main executable.
    NoExecutableImage,
    /// A load command required to describe an image was not found.
    MissingLoadCommand { name: &'static str, id: LoadCommandKind },
    /// The platform sandbox refused access to a task other than this process.
    SecurityRestriction(String),
}

/// Failures of one stream writer.
#[derive(Clone, Copy, Debug, PartialEq, Eq, Structural)]
pub enum StreamError {
    /// The buffer arena refused a write.
    MemoryWriterError(MemoryWriterError),
}

/// Failures of the system-info stream writer.
#[derive(Clone, Copy, Debug, PartialEq, Eq, Structural)]
pub enum SystemInfoError {
    /// The buffer arena refused a write.
    MemoryWriter(MemoryWriterError),
}

/// Failures that abort a whole dump.
#[derive(Clone, Debug)]
pub enum WriterError {
    /// The header could not be written.
    HeaderError,
    /// The directory table could not be reserved or patched.
    DirectoryError(MemoryWriterError),
    /// The system-info stream failed.
    SystemInfoError(SystemInfoError),
    /// A stream writer failed.
    StreamError(StreamError),
    /// The buffer arena refused a write.
    MemoryWriterError(MemoryWriterError),
    /// Extraction from the task failed in a way no stream could tolerate.
    TaskDumperError(TaskDumpError),
}

/// An ordered list of soft errors: each is recorded and the dump presses on.
pub struct SoftErrorList<E> {
    errors: Vec<E>,
}

impl<E> SoftErrorList<E> {
    /// The recorded errors, oldest first.
    pub closed spec fn view_seq(&self) -> Seq<E> {
        self.errors@
    }

    /// An empty list.
    pub fn new() -> (l: Self)
        ensures
            l.view_seq() == Seq::<E>::empty(),
    {
        SoftErrorList { errors: Vec::new() }
    }

    /// Records one more soft error.
    pub fn push(&mut self, e: E)
        ensures
            final(self).view_seq() == old(self).view_seq().push(e),
    {
        self.errors.push(e);
    }

    /// How many soft errors were recorded.
    pub fn len(&self) -> (n: usize)
        ensures
            n == self.view_seq().len(),
    {
        self.errors.len()
    }

    /// True when nothing failed.
    pub fn is_empty(&self) -> (b: bool)
        ensures
            b == (self.view_seq().len() == 0),
    {
        self.errors.len() == 0
    }

    /// Hands the recorded errors out.
    pub fn into_vec(self) -> (v: Vec<E>)
        ensures
            v@ == self.view_seq(),
    {
        self.errors
    }
}

} // verus!
