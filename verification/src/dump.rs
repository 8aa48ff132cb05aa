//! The top-level `dump`: drives the ordered stream writers over a task
//! snapshot and assembles header, directory, and streams into one byte
//! vector.
//!
//! The contract pins the layout down: the header carries the documented
//! signature and version and points at a directory of exactly `stream_count`
//! entries whose ranges lie inside the buffer and never overlap; the
//! exception stream stands last exactly when a crash context was supplied;
//! and the thread-list stream leads with the count of retained threads.

use vstd::prelude::*;

use crate::dir_section::{lemma_entry_patch_preserves, DirSection};
use crate::errors::WriterError;
use crate::mem_writer::DumpBuf;
use crate::minidump_format::{
    lemma_dir_entry_decode, lemma_u32_at_le32, u32_at, MDRawHeader, MDStreamType,
    MD_HEADER_SIGNATURE, MD_HEADER_VERSION,
};
use crate::crash_context::IosCrashContext;
use crate::memory_list::spec_memory_list_size;
use crate::minidump_writer::{lemma_buf_extended_subrange, MinidumpWriter};
use crate::module_list::{lemma_images_cost_nonneg, spec_images_cost};
use crate::snapshot::TaskSnapshot;
use crate::thread_list::{
    lemma_context_count_nonneg, lemma_thread_list_block_count, lemma_threads_payload_nonneg,
    spec_context_thread_count, spec_thread_list_size,
};
use crate::thread_names::spec_thread_names;

verus! {

/// The number of streams a dump carries: the seven always-present streams,
/// and the exception stream when a crash context was supplied.
pub open spec fn spec_stream_count(has_crash_context: bool) -> int {
    if has_crash_context {
        8
    } else {
        7
    }
}

/// A conservative byte budget for the whole dump: header, directory, and
/// every stream's own budget in write order. A dump whose budget fits the
/// 32-bit offset space always succeeds.
pub open spec fn spec_dump_budget(
    snapshot: TaskSnapshot,
    crash: Option<IosCrashContext>,
    handler: Option<u32>,
) -> int {
    32 + 12 * spec_stream_count(crash is Some) + crate::mem_writer::md_string_bytes(
        snapshot.system.build@,
    ).len() + 56 + spec_thread_list_size(snapshot.threads@, snapshot.regions@, crash)
        + spec_memory_list_size(
        spec_context_thread_count(snapshot.threads@, crash),
        snapshot.ip_memory,
    ) + 4 + spec_images_cost(snapshot.images@) + 44 + 12 + 4 + 12 * spec_thread_names(
        snapshot.threads@,
        handler,
    ).len() + (if crash is Some {
        168int
    } else {
        0int
    })
}

/// The whole layout a successful dump guarantees: a well-formed header
/// carrying the given timestamp and stream count, a well-formed directory
/// whose entries never overlap, the stream types in their fixed order with
/// the exception stream last exactly when a crash context was supplied, and a
/// thread-list stream leading with the retained thread count.
///
/// Opaque so callers carry it folded; reveal it to use it.
#[verifier::opaque]
pub open spec fn spec_dump_layout(
    out: Seq<u8>,
    time_date_stamp: u32,
    thread_count: int,
    has_crash_context: bool,
) -> bool {
    let n = spec_stream_count(has_crash_context);
    &&& spec_header_ok(out)
    &&& u32_at(out, 8) == n
    &&& u32_at(out, 16) == 0
    &&& u32_at(out, 20) == time_date_stamp
    &&& spec_directory_ok(out)
    &&& spec_dir_entry_type(out, 0) == MDStreamType::SystemInfoStream.spec_value()
    &&& spec_dir_entry_type(out, 1) == MDStreamType::ThreadListStream.spec_value()
    &&& spec_dir_entry_type(out, 2) == MDStreamType::MemoryListStream.spec_value()
    &&& spec_dir_entry_type(out, 3) == MDStreamType::ModuleListStream.spec_value()
    &&& spec_dir_entry_type(out, 4) == MDStreamType::MiscInfoStream.spec_value()
    &&& spec_dir_entry_type(out, 5) == MDStreamType::BreakpadInfoStream.spec_value()
    &&& spec_dir_entry_type(out, 6) == MDStreamType::ThreadNamesStream.spec_value()
    &&& (has_crash_context ==> spec_dir_entry_type(out, 7)
        == MDStreamType::ExceptionStream.spec_value())
    &&& (forall|i: int|
        0 <= i < n - 1 ==> #[trigger] spec_dir_entry_type(out, i)
            != MDStreamType::ExceptionStream.spec_value())
    &&& (!has_crash_context ==> forall|i: int|
        0 <= i < n ==> #[trigger] spec_dir_entry_type(out, i)
            != MDStreamType::ExceptionStream.spec_value())
    &&& spec_dir_entry_size(out, 1) == 4 + 48 * thread_count
    &&& u32_at(out, spec_dir_entry_rva(out, 1) as int) == thread_count
}

/// The header of `out` is well-formed: the documented signature and version,
/// a directory immediately after the header, and room for every directory
/// entry.
pub open spec fn spec_header_ok(out: Seq<u8>) -> bool {
    &&& out.len() >= 32
    &&& u32_at(out, 0) == MD_HEADER_SIGNATURE
    &&& u32_at(out, 4) == MD_HEADER_VERSION
    &&& u32_at(out, 12) == 32
    &&& 32 + 12 * (u32_at(out, 8) as int) <= out.len()
}

/// The stream type of directory entry `i`.
pub open spec fn spec_dir_entry_type(out: Seq<u8>, i: int) -> u32 {
    u32_at(out, 32 + 12 * i)
}

/// The data size of directory entry `i`.
pub open spec fn spec_dir_entry_size(out: Seq<u8>, i: int) -> u32 {
    u32_at(out, 32 + 12 * i + 4)
}

/// The RVA of directory entry `i`.
pub open spec fn spec_dir_entry_rva(out: Seq<u8>, i: int) -> u32 {
    u32_at(out, 32 + 12 * i + 8)
}

/// Every directory entry's range lies inside the dump, past the directory
/// itself, and the entries stand in ascending order of position, so no two
/// overlap.
pub open spec fn spec_directory_ok(out: Seq<u8>) -> bool {
    let n = u32_at(out, 8) as int;
    &&& spec_header_ok(out)
    &&& forall|i: int|
        0 <= i < n ==> 32 + 12 * n <= #[trigger] spec_dir_entry_rva(out, i) as int
    &&& forall|i: int|
        0 <= i < n ==> #[trigger] spec_dir_entry_rva(out, i) + spec_dir_entry_size(out, i)
            <= out.len()
    &&& forall|i: int, j: int|
        0 <= i < j < n ==> #[trigger] spec_dir_entry_rva(out, i) + spec_dir_entry_size(out, i)
            <= #[trigger] spec_dir_entry_rva(out, j)
}


/// Every summand of the dump budget is non-negative.
proof fn lemma_dump_budget_bounds(
    snapshot: TaskSnapshot,
    crash: Option<IosCrashContext>,
    handler: Option<u32>,
)
    ensures
        spec_thread_list_size(snapshot.threads@, snapshot.regions@, crash) >= 4,
        spec_memory_list_size(
            spec_context_thread_count(snapshot.threads@, crash),
            snapshot.ip_memory,
        ) >= 4,
        spec_images_cost(snapshot.images@) >= 0,
        spec_context_thread_count(snapshot.threads@, crash) >= 0,
{
    lemma_threads_payload_nonneg(snapshot.threads@, snapshot.regions@, crash);
    lemma_context_count_nonneg(snapshot.threads@, crash);
    lemma_images_cost_nonneg(snapshot.images@);
}

/// Adjacent ordering of directory entries extends to every pair.
proof fn lemma_ordered_trans(es: Seq<crate::minidump_format::MDRawDirectory>, i: int, j: int)
    requires
        0 <= i < j < es.len(),
        forall|k: int|
            0 <= k < es.len() - 1 ==> (#[trigger] es[k]).location.rva + es[k].location.data_size
                <= es[k + 1].location.rva,
    ensures
        es[i].location.rva + es[i].location.data_size <= es[j].location.rva,
    decreases j - i,
{
    if j > i + 1 {
        lemma_ordered_trans(es, i, j - 1);
        assert(es[j - 1].location.rva + es[j - 1].location.data_size <= es[j].location.rva);
    }
}


/// The header fields decode from the header bytes at the buffer's start.
#[verifier::rlimit(100)]
#[verifier::spinoff_prover]
proof fn lemma_header_decode(b: Seq<u8>, header: MDRawHeader)
    requires
        b.len() >= 32,
        b.subrange(0, 32) == header.spec_bytes(),
    ensures
        u32_at(b, 0) == header.signature,
        u32_at(b, 4) == header.version,
        u32_at(b, 8) == header.stream_count,
        u32_at(b, 12) == header.stream_directory_rva,
        u32_at(b, 16) == header.checksum,
        u32_at(b, 20) == header.time_date_stamp,
{
    let hdr = header.spec_bytes();
    assert(b.subrange(0, 4) =~= hdr.subrange(0, 4));
    assert(b.subrange(4, 8) =~= hdr.subrange(4, 8));
    assert(b.subrange(8, 12) =~= hdr.subrange(8, 12));
    assert(b.subrange(12, 16) =~= hdr.subrange(12, 16));
    assert(b.subrange(16, 20) =~= hdr.subrange(16, 20));
    assert(b.subrange(20, 24) =~= hdr.subrange(20, 24));
    assert(hdr.subrange(0, 4) =~= crate::minidump_format::le32(header.signature));
    assert(hdr.subrange(4, 8) =~= crate::minidump_format::le32(header.version));
    assert(hdr.subrange(8, 12) =~= crate::minidump_format::le32(header.stream_count));
    assert(hdr.subrange(12, 16) =~= crate::minidump_format::le32(header.stream_directory_rva));
    assert(hdr.subrange(16, 20) =~= crate::minidump_format::le32(header.checksum));
    assert(hdr.subrange(20, 24) =~= crate::minidump_format::le32(header.time_date_stamp));
    lemma_u32_at_le32(b, 0, header.signature);
    lemma_u32_at_le32(b, 4, header.version);
    lemma_u32_at_le32(b, 8, header.stream_count);
    lemma_u32_at_le32(b, 12, header.stream_directory_rva);
    lemma_u32_at_le32(b, 16, header.checksum);
    lemma_u32_at_le32(b, 20, header.time_date_stamp);
}

/// Every directory entry's fields decode from its slot in the table.
#[verifier::rlimit(100)]
#[verifier::spinoff_prover]
proof fn lemma_entries_decode(b: Seq<u8>, n: int, es: Seq<crate::minidump_format::MDRawDirectory>)
    requires
        n == es.len(),
        32 + 12 * n <= b.len(),
        forall|i: int|
            0 <= i < n ==> b.subrange(32 + 12 * i, 32 + 12 * i + 12) == (#[trigger] es[
                i
            ]).spec_bytes(),
    ensures
        forall|i: int| 0 <= i < n ==> #[trigger] spec_dir_entry_type(b, i) == es[i].stream_type,
        forall|i: int|
            0 <= i < n ==> #[trigger] spec_dir_entry_size(b, i) == es[i].location.data_size,
        forall|i: int| 0 <= i < n ==> #[trigger] spec_dir_entry_rva(b, i) == es[i].location.rva,
{
    assert forall|i: int| 0 <= i < n implies #[trigger] spec_dir_entry_type(b, i) == es[
        i
    ].stream_type by {
        lemma_dir_entry_decode(b, 32 + 12 * i, es[i]);
    }
    assert forall|i: int| 0 <= i < n implies #[trigger] spec_dir_entry_size(b, i) == es[
        i
    ].location.data_size by {
        lemma_dir_entry_decode(b, 32 + 12 * i, es[i]);
    }
    assert forall|i: int| 0 <= i < n implies #[trigger] spec_dir_entry_rva(b, i) == es[
        i
    ].location.rva by {
        lemma_dir_entry_decode(b, 32 + 12 * i, es[i]);
    }
}


/// Assembles the layout guarantee from the facts the writing pass gathered:
/// the header bytes at the front, each entry's bytes at its directory slot,
/// every entry's bounds and pairwise order, the fixed stream types, and the
/// thread-list count at its stream's start.
#[verifier::rlimit(100)]
#[verifier::spinoff_prover]
proof fn lemma_dump_assemble(
    b: Seq<u8>,
    header: MDRawHeader,
    es: Seq<crate::minidump_format::MDRawDirectory>,
    has_crash_context: bool,
    tds: u32,
    tcount: int,
)
    requires
        es.len() == spec_stream_count(has_crash_context),
        header.signature == MD_HEADER_SIGNATURE,
        header.version == MD_HEADER_VERSION,
        header.stream_count == es.len(),
        header.stream_directory_rva == 32,
        header.checksum == 0,
        header.time_date_stamp == tds,
        32 + 12 * es.len() <= b.len(),
        b.subrange(0, 32) == header.spec_bytes(),
        forall|i: int|
            0 <= i < es.len() ==> b.subrange(32 + 12 * i, 32 + 12 * i + 12) == (#[trigger] es[
                i
            ]).spec_bytes(),
        forall|i: int| 0 <= i < es.len() ==> 32 + 12 * es.len() <= (#[trigger] es[
            i
        ]).location.rva,
        forall|i: int|
            0 <= i < es.len() ==> (#[trigger] es[i]).location.rva + es[i].location.data_size
                <= b.len(),
        forall|k: int|
            0 <= k < es.len() - 1 ==> (#[trigger] es[k]).location.rva + es[k].location.data_size
                <= es[k + 1].location.rva,
        es[0].stream_type == MDStreamType::SystemInfoStream.spec_value(),
        es[1].stream_type == MDStreamType::ThreadListStream.spec_value(),
        es[2].stream_type == MDStreamType::MemoryListStream.spec_value(),
        es[3].stream_type == MDStreamType::ModuleListStream.spec_value(),
        es[4].stream_type == MDStreamType::MiscInfoStream.spec_value(),
        es[5].stream_type == MDStreamType::BreakpadInfoStream.spec_value(),
        es[6].stream_type == MDStreamType::ThreadNamesStream.spec_value(),
        has_crash_context ==> es[7].stream_type == MDStreamType::ExceptionStream.spec_value(),
        0 <= tcount <= u32::MAX,
        es[1].location.data_size == 4 + 48 * tcount,
        es[1].location.rva + 4 <= b.len(),
        b.subrange(es[1].location.rva as int, es[1].location.rva + 4)
            == crate::minidump_format::le32(tcount as u32),
    ensures
        spec_dump_layout(b, tds, tcount, has_crash_context),
{
    let n = es.len() as int;
    lemma_header_decode(b, header);
    lemma_entries_decode(b, n, es);
    assert forall|i: int, j: int| 0 <= i < j < n implies #[trigger] spec_dir_entry_rva(b, i)
        + spec_dir_entry_size(b, i) <= #[trigger] spec_dir_entry_rva(b, j) by {
        lemma_ordered_trans(es, i, j);
    }
    assert forall|i: int| 0 <= i < n - 1 implies #[trigger] spec_dir_entry_type(b, i)
        != MDStreamType::ExceptionStream.spec_value() by {
        if i == 0 {
        } else if i == 1 {
        } else if i == 2 {
        } else if i == 3 {
        } else if i == 4 {
        } else if i == 5 {
        } else if i == 6 {
        }
    }
    if !has_crash_context {
        assert(spec_dir_entry_type(b, 6) != MDStreamType::ExceptionStream.spec_value());
    }
    lemma_u32_at_le32(b, es[1].location.rva as int, tcount as u32);
    reveal(spec_dump_layout);
}

impl MinidumpWriter {
    /// Writes a whole minidump of the snapshot, returning the serialized
    /// bytes.
    ///
    /// On success the output opens with a well-formed header stamped with
    /// `snapshot.time_date_stamp`, followed at offset 32 by the directory:
    /// system info, thread list, memory list, module list, misc info,
    /// breakpad info, and thread names, with the exception stream appended
    /// last exactly when this writer holds a crash context. Entry ranges
    /// never overlap, and the thread-list stream leads with the number of
    /// retained threads.
    #[verifier::rlimit(100)]
    #[verifier::spinoff_prover]
    pub fn dump(&mut self, snapshot: TaskSnapshot) -> (r: Result<Vec<u8>, WriterError>)
        requires
            old(self).memory_blocks@.len() == 0,
            old(self).crashing_thread_context is None,
        ensures
            // Success is owed whenever the dump's conservative budget fits
            // the 32-bit offset space.
            spec_dump_budget(snapshot, old(self).crash_context, old(self).handler_thread)
                <= u32::MAX ==> r is Ok,
            match r {
                Ok(out) => spec_dump_layout(
                    out@,
                    snapshot.time_date_stamp,
                    snapshot.threads@.len() as int,
                    old(self).crash_context is Some,
                ),
                Err(_) => true,
            },
    {
        let ghost snap = snapshot;
        let ghost crash_g = old(self).crash_context;
        let ghost handler_g = old(self).handler_thread;

        let TaskSnapshot { threads, regions, images, system, misc, ip_memory, time_date_stamp } =
            snapshot;
        let part = TaskSnapshot {
            threads,
            regions,
            images: Vec::new(),
            system,
            misc,
            ip_memory: None,
            time_date_stamp,
        };
        let ip_memory_capture = ip_memory;

        let has_exception = self.crash_context.is_some();
        let num_writers: u32 = if has_exception {
            8
        } else {
            7
        };

        let mut buffer = DumpBuf::with_capacity(0);

        // Reserve the header, then the directory right after it.
        match buffer.reserve(32) {
            Ok(_) => {},
            Err(e) => {
                // A 32-byte reservation in an empty buffer always fits.
                proof {
                    assert(false);
                }
                return Err(WriterError::MemoryWriterError(e));
            },
        }
        let mut dir_section = match DirSection::new(&mut buffer, num_writers) {
            Ok(d) => d,
            Err(e) => {
                // At most eight 12-byte entries always fit after the header.
                proof {
                    assert(false);
                }
                return Err(WriterError::DirectoryError(e));
            },
        };

        // The header is fully known up front; patch it into its reservation.
        let header = MDRawHeader {
            signature: MD_HEADER_SIGNATURE,
            version: MD_HEADER_VERSION,
            stream_count: num_writers,
            stream_directory_rva: dir_section.position(),
            checksum: 0,
            time_date_stamp,
            flags: 0,
        };
        let mut header_bytes: Vec<u8> = Vec::new();
        header.write_into(&mut header_bytes);
        let ghost pre_patch = buffer.bytes();
        match buffer.patch(0, header_bytes.as_slice()) {
            Ok(_) => {},
            Err(_) => {
                // The header's reservation is always inside the buffer.
                proof {
                    assert(false);
                }
                return Err(WriterError::HeaderError);
            },
        }
        proof {
            assert(buffer.bytes().subrange(0, 32) =~= header.spec_bytes());
            // The header patch touches nothing at or past the directory, and
            // the table holds no entries yet.
            assert(dir_section.dir_bytes_ok(buffer.bytes()));
        }
        let ghost hdr = header.spec_bytes();

        // --- system info ---
        let ghost b_pre0 = buffer.bytes();
        let d0 = match self.write_system_info(&mut buffer, &part.system) {
            Ok(d) => d,
            Err(e) => {
                proof {
                    assert(spec_dump_budget(snap, crash_g, handler_g) > u32::MAX) by {
                        lemma_dump_budget_bounds(snap, crash_g, handler_g);
                    }
                }
                return Err(WriterError::SystemInfoError(e));
            },
        };
        proof {
            lemma_buf_extended_subrange(b_pre0, buffer.bytes(), 0, 32);
            dir_section.lemma_dir_bytes_ok_extend(b_pre0, buffer.bytes());
        }
        let ghost b_mid0 = buffer.bytes();
        dir_section.add_entry(&mut buffer, d0);
        proof {
            lemma_entry_patch_preserves(b_mid0, buffer.bytes(), 32, d0, 0, 32);
        }
        let ghost f0 = buffer.bytes().len() as int;

        // --- thread list ---
        let ghost b_pre1 = buffer.bytes();
        let (d1, thread_entries) = match self.write_thread_list(&mut buffer, &part) {
            Ok(d) => d,
            Err(e) => {
                proof {
                    assert(spec_dump_budget(snap, crash_g, handler_g) > u32::MAX) by {
                        lemma_dump_budget_bounds(snap, crash_g, handler_g);
                    }
                }
                return Err(WriterError::StreamError(e));
            },
        };
        let ghost self_after_threads = *self;
        let ghost buf_after_threads = buffer.bytes();
        proof {
            lemma_thread_list_block_count(
                *old(self),
                self_after_threads,
                buf_after_threads,
                thread_entries@,
                snap.threads@,
            );
            lemma_buf_extended_subrange(b_pre1, buffer.bytes(), 0, 32);
            dir_section.lemma_dir_bytes_ok_extend(b_pre1, buffer.bytes());
        }
        let ghost b_mid1 = buffer.bytes();
        let ghost tl_rva = d1.location.rva as int;
        proof {
            reveal(crate::thread_list::dirent_ok_thread_list);
            assert(b_mid1.subrange(tl_rva, tl_rva + 4) =~= crate::minidump_format::le32(
                thread_entries@.len() as u32,
            ));
            assert(d1.location.data_size == 4 + 48 * thread_entries@.len());
            assert(b_pre1.len() <= d1.location.rva && d1.location.rva + d1.location.data_size
                <= b_mid1.len());
        }
        dir_section.add_entry(&mut buffer, d1);
        proof {
            lemma_entry_patch_preserves(b_mid1, buffer.bytes(), 32int + 12, d1, 0, 32);
            lemma_entry_patch_preserves(b_mid1, buffer.bytes(), 32int + 12, d1, tl_rva,
                tl_rva + 4);
            assert(buffer.bytes().subrange(tl_rva, tl_rva + 4) =~= crate::minidump_format::le32(
                thread_entries@.len() as u32,
            ));
        }
        let ghost f1 = buffer.bytes().len() as int;

        // --- memory list ---
        let ghost b_pre2 = buffer.bytes();
        let d2 = match self.write_memory_list(&mut buffer, &ip_memory_capture) {
            Ok(d) => d,
            Err(e) => {
                proof {
                    assert(spec_dump_budget(snap, crash_g, handler_g) > u32::MAX) by {
                        lemma_dump_budget_bounds(snap, crash_g, handler_g);
                    }
                }
                return Err(WriterError::StreamError(e));
            },
        };
        proof {
            lemma_buf_extended_subrange(b_pre2, buffer.bytes(), 0, 32);
            lemma_buf_extended_subrange(b_pre2, buffer.bytes(), tl_rva, tl_rva + 4);
            dir_section.lemma_dir_bytes_ok_extend(b_pre2, buffer.bytes());
        }
        let ghost b_mid2 = buffer.bytes();
        dir_section.add_entry(&mut buffer, d2);
        proof {
            lemma_entry_patch_preserves(b_mid2, buffer.bytes(), 32int + 24, d2, 0, 32);
            lemma_entry_patch_preserves(b_mid2, buffer.bytes(), 32int + 24, d2, tl_rva,
                tl_rva + 4);
        }
        let ghost f2 = buffer.bytes().len() as int;

        // --- module list ---
        let ghost b_pre3 = buffer.bytes();
        let d3 = match self.write_module_list(&mut buffer, images) {
            Ok((d, _, _)) => d,
            Err(e) => {
                proof {
                    assert(spec_dump_budget(snap, crash_g, handler_g) > u32::MAX) by {
                        lemma_dump_budget_bounds(snap, crash_g, handler_g);
                    }
                }
                return Err(WriterError::StreamError(e));
            },
        };
        proof {
            lemma_buf_extended_subrange(b_pre3, buffer.bytes(), 0, 32);
            lemma_buf_extended_subrange(b_pre3, buffer.bytes(), tl_rva, tl_rva + 4);
            dir_section.lemma_dir_bytes_ok_extend(b_pre3, buffer.bytes());
        }
        let ghost b_mid3 = buffer.bytes();
        dir_section.add_entry(&mut buffer, d3);
        proof {
            lemma_entry_patch_preserves(b_mid3, buffer.bytes(), 32int + 36, d3, 0, 32);
            lemma_entry_patch_preserves(b_mid3, buffer.bytes(), 32int + 36, d3, tl_rva,
                tl_rva + 4);
        }
        let ghost f3 = buffer.bytes().len() as int;

        // --- misc info ---
        let ghost b_pre4 = buffer.bytes();
        let d4 = match self.write_misc_info(&mut buffer, &part.misc) {
            Ok(d) => d,
            Err(e) => {
                proof {
                    assert(spec_dump_budget(snap, crash_g, handler_g) > u32::MAX) by {
                        lemma_dump_budget_bounds(snap, crash_g, handler_g);
                    }
                }
                return Err(WriterError::StreamError(e));
            },
        };
        proof {
            lemma_buf_extended_subrange(b_pre4, buffer.bytes(), 0, 32);
            lemma_buf_extended_subrange(b_pre4, buffer.bytes(), tl_rva, tl_rva + 4);
            dir_section.lemma_dir_bytes_ok_extend(b_pre4, buffer.bytes());
        }
        let ghost b_mid4 = buffer.bytes();
        dir_section.add_entry(&mut buffer, d4);
        proof {
            lemma_entry_patch_preserves(b_mid4, buffer.bytes(), 32int + 48, d4, 0, 32);
            lemma_entry_patch_preserves(b_mid4, buffer.bytes(), 32int + 48, d4, tl_rva,
                tl_rva + 4);
        }
        let ghost f4 = buffer.bytes().len() as int;

        // --- breakpad info ---
        let ghost b_pre5 = buffer.bytes();
        let d5 = match self.write_breakpad_info(&mut buffer) {
            Ok(d) => d,
            Err(e) => {
                proof {
                    assert(spec_dump_budget(snap, crash_g, handler_g) > u32::MAX) by {
                        lemma_dump_budget_bounds(snap, crash_g, handler_g);
                    }
                }
                return Err(WriterError::StreamError(e));
            },
        };
        proof {
            lemma_buf_extended_subrange(b_pre5, buffer.bytes(), 0, 32);
            lemma_buf_extended_subrange(b_pre5, buffer.bytes(), tl_rva, tl_rva + 4);
            dir_section.lemma_dir_bytes_ok_extend(b_pre5, buffer.bytes());
        }
        let ghost b_mid5 = buffer.bytes();
        dir_section.add_entry(&mut buffer, d5);
        proof {
            lemma_entry_patch_preserves(b_mid5, buffer.bytes(), 32int + 60, d5, 0, 32);
            lemma_entry_patch_preserves(b_mid5, buffer.bytes(), 32int + 60, d5, tl_rva,
                tl_rva + 4);
        }
        let ghost f5 = buffer.bytes().len() as int;

        // --- thread names ---
        let ghost b_pre6 = buffer.bytes();
        let d6 = match self.write_thread_names(&mut buffer, &part) {
            Ok(d) => d,
            Err(e) => {
                proof {
                    assert(spec_dump_budget(snap, crash_g, handler_g) > u32::MAX) by {
                        lemma_dump_budget_bounds(snap, crash_g, handler_g);
                    }
                }
                return Err(WriterError::StreamError(e));
            },
        };
        proof {
            lemma_buf_extended_subrange(b_pre6, buffer.bytes(), 0, 32);
            lemma_buf_extended_subrange(b_pre6, buffer.bytes(), tl_rva, tl_rva + 4);
            dir_section.lemma_dir_bytes_ok_extend(b_pre6, buffer.bytes());
        }
        let ghost b_mid6 = buffer.bytes();
        dir_section.add_entry(&mut buffer, d6);
        proof {
            lemma_entry_patch_preserves(b_mid6, buffer.bytes(), 32int + 72, d6, 0, 32);
            lemma_entry_patch_preserves(b_mid6, buffer.bytes(), 32int + 72, d6, tl_rva,
                tl_rva + 4);
        }
        let ghost f6 = buffer.bytes().len() as int;

        // --- exception, last and only with a crash context ---
        let ghost mut d7_ghost = d6;
        if has_exception {
            let ghost b_pre7 = buffer.bytes();
            let d7 = match self.write_exception(&mut buffer) {
                Ok(d) => d,
                Err(e) => {
                    proof {
                        assert(spec_dump_budget(snap, crash_g, handler_g) > u32::MAX) by {
                            lemma_dump_budget_bounds(snap, crash_g, handler_g);
                        }
                    }
                    return Err(WriterError::StreamError(e));
                },
            };
            proof {
                d7_ghost = d7;
                lemma_buf_extended_subrange(b_pre7, buffer.bytes(), 0, 32);
                lemma_buf_extended_subrange(b_pre7, buffer.bytes(), tl_rva, tl_rva + 4);
                dir_section.lemma_dir_bytes_ok_extend(b_pre7, buffer.bytes());
            }
            let ghost b_mid7 = buffer.bytes();
            dir_section.add_entry(&mut buffer, d7);
            proof {
                lemma_entry_patch_preserves(b_mid7, buffer.bytes(), 32int + 84, d7, 0, 32);
                lemma_entry_patch_preserves(b_mid7, buffer.bytes(), 32int + 84, d7, tl_rva,
                    tl_rva + 4);
            }
        }

        let out = buffer.into_vec();
        proof {
            let b = out@;
            let n = num_writers as int;
            let es = dir_section.entries_seq();
            assert(es[0] == d0);
            assert(es[1] == d1);
            assert(es[2] == d2);
            assert(es[3] == d3);
            assert(es[4] == d4);
            assert(es[5] == d5);
            assert(es[6] == d6);
            if has_exception {
                assert(es[7] == d7_ghost);
            }

            // Lengths only ever grow, so every entry's range, in bounds when
            // its stream finished, is still in bounds at the end.
            assert(f0 <= f1 <= f2 <= f3 <= f4 <= f5 <= f6 <= b.len());
            assert(d0.location.rva + d0.location.data_size <= f0);
            assert(d1.location.rva + d1.location.data_size <= f1);
            assert(d2.location.rva + d2.location.data_size <= f2);
            assert(d3.location.rva + d3.location.data_size <= f3);
            assert(d4.location.rva + d4.location.data_size <= f4);
            assert(d5.location.rva + d5.location.data_size <= f5);
            assert(d6.location.rva + d6.location.data_size <= f6);
            // Each stream begins past the previous stream's entry range.
            assert(d1.location.rva >= f0);
            assert(d2.location.rva >= f1);
            assert(d3.location.rva >= f2);
            assert(d4.location.rva >= f3);
            assert(d5.location.rva >= f4);
            assert(d6.location.rva >= f5);
            if has_exception {
                assert(d7_ghost.location.rva >= f6);
                assert(d7_ghost.location.rva + d7_ghost.location.data_size <= b.len());
            }
            assert forall|i: int| 0 <= i < n implies 32 + 12 * n <= (#[trigger] es[
                i
            ]).location.rva by {
                if i == 0 {
                } else if i == 1 {
                } else if i == 2 {
                } else if i == 3 {
                } else if i == 4 {
                } else if i == 5 {
                } else if i == 6 {
                }
            }
            assert forall|i: int| 0 <= i < n implies (#[trigger] es[i]).location.rva + es[
                i
            ].location.data_size <= b.len() by {
                if i == 0 {
                } else if i == 1 {
                } else if i == 2 {
                } else if i == 3 {
                } else if i == 4 {
                } else if i == 5 {
                } else if i == 6 {
                }
            }
            assert forall|k: int| 0 <= k < n - 1 implies (#[trigger] es[k]).location.rva + es[
                k
            ].location.data_size <= es[k + 1].location.rva by {
                if k == 0 {
                } else if k == 1 {
                } else if k == 2 {
                } else if k == 3 {
                } else if k == 4 {
                } else if k == 5 {
                } else if k == 6 {
                }
            }
            lemma_dump_assemble(
                b,
                header,
                es,
                has_exception,
                time_date_stamp,
                snap.threads@.len() as int,
            );
        }
        Ok(out)
    }
}

} // verus!
