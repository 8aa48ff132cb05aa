//! The stream directory: a fixed-size table reserved right after the header,
//! filled in with one `(stream type, location)` entry as each stream writer
//! completes.

use vstd::prelude::*;

use crate::mem_writer::{DumpBuf, MemoryWriterError};
use crate::minidump_format::{MDRawDirectory, MD_DIRECTORY_SIZE};

verus! {

/// The buffer after patching one directory slot: `new` is `old` with the
/// entry's 12 bytes at `pos` and nothing else changed.
///
/// Opaque so callers carry it folded; [`lemma_entry_patch_preserves`] reads
/// ranges through it.
#[verifier::opaque]
pub open spec fn entry_patch_shape(
    old_buf: Seq<u8>,
    new_buf: Seq<u8>,
    pos: int,
    dirent: MDRawDirectory,
) -> bool {
    &&& 0 <= pos
    &&& pos + 12 <= old_buf.len()
    &&& new_buf == old_buf.take(pos) + dirent.spec_bytes() + old_buf.skip(pos + 12)
}

/// A subrange wholly on either side of the patched slot keeps its bytes.
pub proof fn lemma_entry_patch_preserves(
    old_buf: Seq<u8>,
    new_buf: Seq<u8>,
    pos: int,
    dirent: MDRawDirectory,
    lo: int,
    hi: int,
)
    requires
        entry_patch_shape(old_buf, new_buf, pos, dirent),
        0 <= lo <= hi <= old_buf.len(),
        hi <= pos || lo >= pos + 12,
    ensures
        new_buf.subrange(lo, hi) == old_buf.subrange(lo, hi),
        new_buf.len() == old_buf.len(),
{
    reveal(entry_patch_shape);
    assert(new_buf.subrange(lo, hi) =~= old_buf.subrange(lo, hi));
}

/// The reserved directory table and the entries patched into it so far.
pub struct DirSection {
    base_rva: u32,
    capacity: u32,
    entries: Vec<MDRawDirectory>,
}

impl DirSection {
    /// RVA of the directory table inside the dump.
    pub closed spec fn base(&self) -> int {
        self.base_rva as int
    }

    /// Number of entries the table was reserved for.
    pub closed spec fn capacity(&self) -> int {
        self.capacity as int
    }

    /// The entries recorded so far, in the order their streams were written.
    pub closed spec fn entries_seq(&self) -> Seq<MDRawDirectory> {
        self.entries@
    }

    /// Number of entries recorded so far.
    pub open spec fn count(&self) -> int {
        self.entries_seq().len() as int
    }

    /// The reserved table lies inside `bytes` and every recorded entry's
    /// 12-byte encoding stands at its slot.
    pub open spec fn dir_bytes_ok(&self, bytes: Seq<u8>) -> bool {
        &&& self.base() + 12 * self.capacity() <= bytes.len()
        &&& self.count() <= self.capacity()
        &&& forall|i: int|
            0 <= i < self.count() ==> bytes.subrange(
                self.base() + 12 * i,
                self.base() + 12 * i + 12,
            ) == #[trigger] self.entries_seq()[i].spec_bytes()
    }

    /// Extending the buffer beyond the table leaves the recorded directory
    /// intact.
    pub proof fn lemma_dir_bytes_ok_extend(&self, b1: Seq<u8>, b2: Seq<u8>)
        requires
            self.dir_bytes_ok(b1),
            crate::mem_writer::buf_extended(b1, b2),
        ensures
            self.dir_bytes_ok(b2),
    {
        assert forall|i: int| 0 <= i < self.count() implies b2.subrange(
            self.base() + 12 * i,
            self.base() + 12 * i + 12,
        ) == #[trigger] self.entries_seq()[i].spec_bytes() by {
            assert(b2.subrange(self.base() + 12 * i, self.base() + 12 * i + 12) =~= b1.subrange(
                self.base() + 12 * i,
                self.base() + 12 * i + 12,
            ));
        }
    }

    /// Reserves a table of `count` entries at the buffer's current position.
    /// Fails if and only if the table would push the buffer past the 32-bit
    /// offset space; the buffer is then unchanged.
    pub fn new(buffer: &mut DumpBuf, count: u32) -> (r: Result<DirSection, MemoryWriterError>)
        requires
            old(buffer).wf(),
        ensures
            final(buffer).wf(),
            match r {
                Ok(d) => {
                    &&& d.base() == old(buffer).bytes().len()
                    &&& d.capacity() == count
                    &&& d.count() == 0
                    &&& d.dir_bytes_ok(final(buffer).bytes())
                    &&& final(buffer).bytes().len() == old(buffer).bytes().len() + 12 * count
                    &&& final(buffer).bytes().subrange(0, old(buffer).bytes().len() as int) == old(
                        buffer,
                    ).bytes()
                },
                Err(_) => {
                    &&& final(buffer).bytes() == old(buffer).bytes()
                    &&& old(buffer).bytes().len() + 12 * count > u32::MAX
                },
            },
    {
        if count > u32::MAX / MD_DIRECTORY_SIZE {
            return Err(MemoryWriterError::BufferTooLarge);
        }
        let size: u32 = count * MD_DIRECTORY_SIZE;
        let base_rva = match buffer.reserve(size) {
            Ok(loc) => loc.rva,
            Err(e) => {
                return Err(e);
            },
        };
        assert(final(buffer).bytes().subrange(0, old(buffer).bytes().len() as int) =~= old(
            buffer,
        ).bytes());
        Ok(DirSection { base_rva, capacity: count, entries: Vec::new() })
    }

    /// RVA of the directory table, for the header's `stream_directory_rva`.
    pub fn position(&self) -> (p: u32)
        ensures
            p == self.base(),
    {
        self.base_rva
    }

    /// Patches the next free slot of the table with `dirent`. The table was
    /// reserved up front, so this never fails and never moves anything.
    pub fn add_entry(&mut self, buffer: &mut DumpBuf, dirent: MDRawDirectory)
        requires
            old(buffer).wf(),
            old(self).count() < old(self).capacity(),
            old(self).dir_bytes_ok(old(buffer).bytes()),
        ensures
            final(buffer).wf(),
            final(self).base() == old(self).base(),
            final(self).capacity() == old(self).capacity(),
            final(self).entries_seq() == old(self).entries_seq().push(dirent),
            final(self).dir_bytes_ok(final(buffer).bytes()),
            final(buffer).bytes().len() == old(buffer).bytes().len(),
            // Only this entry's slot changes; see [`entry_patch_shape`].
            entry_patch_shape(
                old(buffer).bytes(),
                final(buffer).bytes(),
                old(self).base() + 12 * old(self).count(),
                dirent,
            ),
    {
        let idx: u32 = self.entries.len() as u32;
        let slot_rva: u32 = self.base_rva + idx * MD_DIRECTORY_SIZE;
        let mut encoded: Vec<u8> = Vec::new();
        dirent.write_into(&mut encoded);
        let ghost pos = self.base() + 12 * self.count();
        match buffer.patch(slot_rva, encoded.as_slice()) {
            Ok(_) => {},
            Err(_) => {
                // The slot lies inside the reserved table, so the patch range
                // is always in bounds.
                proof {
                    assert(false);
                }
            },
        }
        self.entries.push(dirent);
        proof {
            reveal(entry_patch_shape);
            let b2 = buffer.bytes();
            let b1 = old(buffer).bytes();
            assert forall|i: int| 0 <= i < self.count() implies b2.subrange(
                self.base() + 12 * i,
                self.base() + 12 * i + 12,
            ) == #[trigger] self.entries_seq()[i].spec_bytes() by {
                if i < self.count() - 1 {
                    assert(b2.subrange(self.base() + 12 * i, self.base() + 12 * i + 12)
                        =~= b1.subrange(self.base() + 12 * i, self.base() + 12 * i + 12));
                } else {
                    assert(b2.subrange(pos, pos + 12) =~= dirent.spec_bytes());
                }
            }
        }
    }
}

} // verus!
