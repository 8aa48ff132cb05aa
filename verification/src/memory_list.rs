//! The memory-list stream: one descriptor per block of target memory copied
//! into the dump — every thread's captured stack, and, when an exception with
//! a usable instruction pointer was present, the bytes around that pointer.

use vstd::prelude::*;

use crate::errors::StreamError;
use crate::mem_writer::DumpBuf;
use crate::minidump_format::{
    le32, lemma_records_bytes_push, records_bytes, MDLocationDescriptor, MDMemoryDescriptor,
    MDRawDirectory, MDStreamType,
};
use crate::minidump_format::push_u32_le;
use crate::minidump_writer::{blocks_within, buf_extended, MinidumpWriter};
use crate::snapshot::IpMemoryCapture;
use crate::types::VMRegionInfo;

verus! {

/// How many bytes around the faulting instruction pointer the dump captures.
pub const IP_MEMORY_SIZE: u64 = 256;

/// The range of memory to capture around a faulting instruction pointer `ip`
/// inside its containing region: half of [`IP_MEMORY_SIZE`] on each side,
/// clipped to the region, and empty when `ip` lies outside the region.
pub open spec fn spec_ip_memory_range(ip: u64, region: VMRegionInfo) -> Option<(u64, u64)> {
    if region.spec_contains(ip) {
        let lo = if ip >= region.start + IP_MEMORY_SIZE / 2 {
            (ip - IP_MEMORY_SIZE / 2) as u64
        } else {
            region.start
        };
        let hi = if ip + IP_MEMORY_SIZE / 2 <= region.end {
            (ip + IP_MEMORY_SIZE / 2) as u64
        } else {
            region.end
        };
        Some((lo, hi))
    } else {
        None
    }
}

/// Computes the byte range to capture around the faulting instruction pointer:
/// 128 bytes each side of `ip`, clipped to the containing region. Returns
/// `None` when `ip` does not lie inside `region`.
pub fn ip_memory_range(ip: u64, region: &VMRegionInfo) -> (r: Option<(u64, u64)>)
    ensures
        r == spec_ip_memory_range(ip, *region),
        match r {
            Some(range) => region.start <= range.0 <= ip < range.1 <= region.end,
            None => !region.spec_contains(ip),
        },
{
    if !region.contains(ip) {
        return None;
    }
    let half = IP_MEMORY_SIZE / 2;
    let lo = if ip - region.start >= half {
        ip - half
    } else {
        region.start
    };
    let hi = if region.end - ip >= half {
        ip + half
    } else {
        region.end
    };
    Some((lo, hi))
}

/// Everything the memory-list writer appends: the exception-adjacent bytes
/// when captured, then the count and one 16-byte descriptor per block.
pub open spec fn spec_memory_list_size(
    blocks_before: int,
    ip_memory: Option<IpMemoryCapture>,
) -> int {
    (match ip_memory {
        Some(ip) => ip.bytes@.len() as int,
        None => 0,
    }) + 4 + 16 * (blocks_before + (if ip_memory is Some {
        1int
    } else {
        0int
    }))
}

/// What the memory-list writer does to the writer's block list: with a
/// capture present, exactly one descriptor naming the capture's base and byte
/// count is appended at the buffer position the capture's bytes were written
/// to, and those bytes stand there in the final buffer; without one, the list
/// is untouched.
///
/// Opaque so callers carry it folded; reveal it to use it.
#[verifier::opaque]
pub open spec fn memory_list_effects(
    old_self: MinidumpWriter,
    new_self: MinidumpWriter,
    old_buf: Seq<u8>,
    new_buf: Seq<u8>,
    ip_memory: Option<IpMemoryCapture>,
) -> bool {
    let blocks = new_self.memory_blocks@;
    &&& (ip_memory matches Some(ip) ==> {
        &&& blocks.len() == old_self.memory_blocks@.len() + 1
        &&& blocks.take(old_self.memory_blocks@.len() as int) == old_self.memory_blocks@
        &&& blocks.last().start_of_memory_range == ip.base
        &&& blocks.last().memory.data_size == ip.bytes@.len()
        &&& blocks.last().memory.rva == old_buf.len()
        &&& new_buf.subrange(
            blocks.last().memory.rva as int,
            blocks.last().memory.rva + blocks.last().memory.data_size,
        ) == ip.bytes@
    })
    &&& (ip_memory is None ==> blocks == old_self.memory_blocks@)
}

impl MinidumpWriter {
    /// Writes the memory-list stream: the bytes around the faulting
    /// instruction pointer when they were captured, then a leading `u32`
    /// count followed by one 16-byte descriptor per captured block.
    ///
    /// The block list stays append-only: with a capture present, exactly one
    /// descriptor naming the capture's base and byte count is appended, and
    /// the captured bytes stand at its location; without one, the list is
    /// untouched.
    ///
    /// Fails if and only if the stream would push the buffer past the 32-bit
    /// offset space.
    #[verifier::rlimit(100)]
    #[verifier::spinoff_prover]
    pub fn write_memory_list(&mut self, buffer: &mut DumpBuf, ip_memory: &Option<IpMemoryCapture>)
        -> (r: Result<MDRawDirectory, StreamError>)
        requires
            old(buffer).wf(),
            blocks_within(old(self).memory_blocks@, old(buffer).bytes()),
        ensures
            final(buffer).wf(),
            buf_extended(old(buffer).bytes(), final(buffer).bytes()),
            final(self).crash_context == old(self).crash_context,
            final(self).handler_thread == old(self).handler_thread,
            final(self).crashing_thread_context == old(self).crashing_thread_context,
            blocks_within(final(self).memory_blocks@, final(buffer).bytes()),
            match r {
                Ok(dirent) => {
                    let blocks = final(self).memory_blocks@;
                    &&& dirent.stream_type == MDStreamType::MemoryListStream.spec_value()
                    &&& old(buffer).bytes().len() <= dirent.location.rva
                    &&& dirent.location.rva + dirent.location.data_size
                        <= final(buffer).bytes().len()
                    &&& dirent.location.data_size == 4 + 16 * blocks.len()
                    &&& final(buffer).bytes().subrange(
                        dirent.location.rva as int,
                        dirent.location.rva + dirent.location.data_size,
                    ) == le32(blocks.len() as u32) + records_bytes(blocks)
                    &&& memory_list_effects(
                        *old(self),
                        *final(self),
                        old(buffer).bytes(),
                        final(buffer).bytes(),
                        *ip_memory,
                    )
                    &&& final(buffer).bytes().len() == old(buffer).bytes().len()
                        + spec_memory_list_size(
                        old(self).memory_blocks@.len() as int,
                        *ip_memory,
                    )
                },
                Err(_) => old(buffer).bytes().len() + spec_memory_list_size(
                    old(self).memory_blocks@.len() as int,
                    *ip_memory,
                ) > u32::MAX,
            },
    {
        let ghost buf0 = buffer.bytes();
        let ghost blocks0 = self.memory_blocks@;
        // Capture the exception-adjacent memory first, best effort.
        if let Some(ip) = ip_memory {
            let rva = match buffer.write_all(ip.bytes.as_slice()) {
                Ok(rva) => rva,
                Err(e) => {
                    return Err(StreamError::MemoryWriterError(e));
                },
            };
            self.memory_blocks.push(
                MDMemoryDescriptor {
                    start_of_memory_range: ip.base,
                    memory: MDLocationDescriptor { data_size: ip.bytes.len() as u32, rva },
                },
            );
            proof {
                assert(self.memory_blocks@.take(blocks0.len() as int) =~= blocks0);
                assert(buffer.bytes().subrange(rva as int, rva + ip.bytes@.len()) =~= ip.bytes@);
            }
        }

        let count = self.memory_blocks.len();
        // The largest count whose 16-byte descriptors and count still fit the
        // 32-bit offset space.
        if count > ((u32::MAX as usize) - 4) / 16 {
            return Err(StreamError::MemoryWriterError(
                crate::mem_writer::MemoryWriterError::BufferTooLarge,
            ));
        }
        let mut encoded: Vec<u8> = Vec::new();
        push_u32_le(&mut encoded, count as u32);
        let mut k: usize = 0;
        while k < count
            invariant
                k <= count,
                count == self.memory_blocks@.len(),
                count <= ((u32::MAX as usize) - 4) / 16,
                encoded@ == le32(count as u32) + records_bytes(self.memory_blocks@.take(k as int)),
            decreases count - k,
        {
            let block = self.memory_blocks[k];
            block.write_into(&mut encoded);
            proof {
                lemma_records_bytes_push(
                    self.memory_blocks@.take(k as int),
                    self.memory_blocks@[k as int],
                );
                assert(self.memory_blocks@.take(k + 1) =~= self.memory_blocks@.take(
                    k as int,
                ).push(self.memory_blocks@[k as int]));
            }
            k = k + 1;
        }
        assert(self.memory_blocks@.take(count as int) =~= self.memory_blocks@);
        proof {
            crate::minidump_format::lemma_records_bytes_len(self.memory_blocks@, 16);
        }

        let ghost buf_mid = buffer.bytes();
        let rva = match buffer.write_all(encoded.as_slice()) {
            Ok(rva) => rva,
            Err(e) => {
                return Err(StreamError::MemoryWriterError(e));
            },
        };
        let dirent = MDRawDirectory {
            stream_type: MDStreamType::MemoryListStream.value(),
            location: MDLocationDescriptor { data_size: encoded.len() as u32, rva },
        };
        proof {
            assert(buffer.bytes().subrange(
                rva as int,
                rva + dirent.location.data_size,
            ) =~= le32(count as u32) + records_bytes(self.memory_blocks@));
            match ip_memory {
                Some(ip) => {
                    let last = self.memory_blocks@.last();
                    assert(buffer.bytes().subrange(
                        last.memory.rva as int,
                        last.memory.rva + last.memory.data_size,
                    ) =~= buf_mid.subrange(
                        last.memory.rva as int,
                        last.memory.rva + last.memory.data_size,
                    ));
                },
                None => {},
            }
            reveal(memory_list_effects);
            assert(memory_list_effects(
                *old(self),
                *self,
                buf0,
                buffer.bytes(),
                *ip_memory,
            ));
        }
        Ok(dirent)
    }
}

} // verus!
