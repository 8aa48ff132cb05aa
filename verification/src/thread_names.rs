//! The thread-names stream. Thread names cannot be retrieved inside the
//! sandbox this writer runs under, so every entry carries a name offset of
//! zero — "name unavailable", distinct from an empty name. The handler thread
//! is left out.

use vstd::prelude::*;

use crate::crash_context::IosCrashContext;
use crate::errors::StreamError;
use crate::mem_writer::DumpBuf;
use crate::minidump_format::{
    le32, lemma_records_bytes_push, records_bytes, MDLocationDescriptor, MDRawDirectory,
    MDRawThreadName, MDStreamType,
};
use crate::minidump_format::push_u32_le;
use crate::minidump_writer::{buf_extended, MinidumpWriter};
use crate::snapshot::{TaskSnapshot, ThreadCapture};

verus! {

/// Whether a thread is listed in the thread-names stream: every thread but
/// the handler thread.
pub open spec fn names_keep(t: ThreadCapture, handler: Option<u32>) -> bool {
    match handler {
        Some(h) => t.tid != h,
        None => true,
    }
}

/// The name records for the given threads: one per kept thread, in order,
/// each with a name offset of zero.
pub open spec fn spec_thread_names(threads: Seq<ThreadCapture>, handler: Option<u32>) -> Seq<
    MDRawThreadName,
>
    decreases threads.len(),
{
    if threads.len() == 0 {
        Seq::empty()
    } else {
        let rest = spec_thread_names(threads.drop_last(), handler);
        if names_keep(threads.last(), handler) {
            rest.push(MDRawThreadName { thread_id: threads.last().tid, thread_name_rva: 0 })
        } else {
            rest
        }
    }
}

/// No more records than threads.
pub proof fn lemma_thread_names_len(threads: Seq<ThreadCapture>, handler: Option<u32>)
    ensures
        spec_thread_names(threads, handler).len() <= threads.len(),
    decreases threads.len(),
{
    if threads.len() > 0 {
        lemma_thread_names_len(threads.drop_last(), handler);
    }
}

impl MinidumpWriter {
    /// Writes the thread-names stream: a leading `u32` count of the kept
    /// threads, then one 12-byte record per kept thread with a zero name
    /// offset.
    ///
    /// Fails if and only if the stream would push the buffer past the 32-bit
    /// offset space; the buffer is then unchanged.
    pub fn write_thread_names(&mut self, buffer: &mut DumpBuf, snapshot: &TaskSnapshot) -> (r:
        Result<MDRawDirectory, StreamError>)
        requires
            old(buffer).wf(),
        ensures
            final(buffer).wf(),
            buf_extended(old(buffer).bytes(), final(buffer).bytes()),
            *final(self) == *old(self),
            match r {
                Ok(dirent) => {
                    let names = spec_thread_names(
                        snapshot.threads@,
                        old(self).handler_thread,
                    );
                    &&& dirent.stream_type == MDStreamType::ThreadNamesStream.spec_value()
                    &&& dirent.location.rva == old(buffer).bytes().len()
                    &&& dirent.location.data_size == 4 + 12 * names.len()
                    &&& dirent.location.rva + dirent.location.data_size <= final(buffer).bytes().len()
                    &&& final(buffer).bytes() == old(buffer).bytes() + le32(names.len() as u32)
                        + records_bytes(names)
                    &&& final(buffer).bytes().len() == old(buffer).bytes().len() + 4 + 12
                        * names.len()
                },
                Err(_) => {
                    let names = spec_thread_names(
                        snapshot.threads@,
                        old(self).handler_thread,
                    );
                    &&& final(buffer).bytes() == old(buffer).bytes()
                    &&& old(buffer).bytes().len() + 4 + 12 * names.len() > u32::MAX
                },
            },
    {
        let n = snapshot.threads.len();

        // Collect the kept threads' records.
        let mut names: Vec<MDRawThreadName> = Vec::new();
        let mut i: usize = 0;
        while i < n
            invariant
                i <= n,
                n == snapshot.threads@.len(),
                *self == *old(self),
                names@ == spec_thread_names(
                    snapshot.threads@.take(i as int),
                    old(self).handler_thread,
                ),
            decreases n - i,
        {
            let t = &snapshot.threads[i];
            let keep = match self.handler_thread {
                Some(h) => t.tid != h,
                None => true,
            };
            if keep {
                names.push(MDRawThreadName { thread_id: t.tid, thread_name_rva: 0 });
            }
            proof {
                assert(snapshot.threads@.take(i + 1).drop_last() =~= snapshot.threads@.take(
                    i as int,
                ));
                assert(snapshot.threads@.take(i + 1).last() == snapshot.threads@[i as int]);
            }
            i = i + 1;
        }
        assert(snapshot.threads@.take(n as int) =~= snapshot.threads@);
        proof {
            lemma_thread_names_len(snapshot.threads@, old(self).handler_thread);
        }

        let count = names.len();
        // The largest count whose 12-byte records and count still fit the
        // 32-bit offset space.
        if count > ((u32::MAX as usize) - 4) / 12 {
            return Err(StreamError::MemoryWriterError(
                crate::mem_writer::MemoryWriterError::BufferTooLarge,
            ));
        }
        let mut encoded: Vec<u8> = Vec::new();
        push_u32_le(&mut encoded, count as u32);
        let mut k: usize = 0;
        while k < count
            invariant
                k <= count,
                count == names@.len(),
                count <= ((u32::MAX as usize) - 4) / 12,
                encoded@ == le32(count as u32) + records_bytes(names@.take(k as int)),
            decreases count - k,
        {
            names[k].write_into(&mut encoded);
            proof {
                lemma_records_bytes_push(names@.take(k as int), names@[k as int]);
                assert(names@.take(k + 1) =~= names@.take(k as int).push(names@[k as int]));
            }
            k = k + 1;
        }
        assert(names@.take(count as int) =~= names@);
        proof {
            crate::minidump_format::lemma_records_bytes_len(names@, 12);
        }

        let rva = match buffer.write_all(encoded.as_slice()) {
            Ok(rva) => rva,
            Err(e) => {
                return Err(StreamError::MemoryWriterError(e));
            },
        };
        Ok(MDRawDirectory {
            stream_type: MDStreamType::ThreadNamesStream.value(),
            location: MDLocationDescriptor { data_size: encoded.len() as u32, rva },
        })
    }
}

} // verus!
