//! The CPU context record. Register-to-field mapping is a platform capability
//! outside this library; here a context is an opaque block of bytes captured
//! from a thread's state and copied verbatim into the dump.

use vstd::prelude::*;

verus! {

/// A thread's CPU context as it will appear in the dump.
#[derive(Clone, Debug)]
pub struct RawContextCPU {
    /// The serialized context record, already in its on-disk layout.
    pub data: Vec<u8>,
}

impl Default for RawContextCPU {
    /// An empty context.
    fn default() -> (c: Self)
        ensures
            c.data@ == Seq::<u8>::empty(),
    {
        RawContextCPU { data: Vec::new() }
    }
}

impl RawContextCPU {
    /// Byte size of the serialized context.
    pub fn size(&self) -> (n: usize)
        ensures
            n == self.data@.len(),
    {
        self.data.len()
    }
}

} // verus!
