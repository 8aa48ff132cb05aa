//! The on-disk minidump layout: record structs, the constants that identify
//! them, and their exact little-endian byte encodings.
//!
//! Every record type carries a `spec_bytes` function giving its encoding as a
//! mathematical byte sequence, and a `write_into` method proved to append
//! exactly those bytes.

use vstd::prelude::*;

verus! {

/// Byte offset from the start of the serialized dump.
pub type RVA = u32;

/// The `u32` that opens every minidump: "MDMP" in ASCII, little-endian.
pub const MINIDUMP_SIGNATURE: u32 = 0x504d444d;

/// The format version recorded in the header.
pub const MINIDUMP_VERSION: u32 = 0xa793;

/// Header signature, under the name the writer uses.
pub const MD_HEADER_SIGNATURE: u32 = 0x504d444d;

/// Header version, under the name the writer uses.
pub const MD_HEADER_VERSION: u32 = 0xa793;

// ---------------------------------------------------------------------------
// Little-endian encodings
// ---------------------------------------------------------------------------

/// The two little-endian bytes of a `u16`.
pub open spec fn le16(x: u16) -> Seq<u8> {
    seq![(x & 0xff) as u8, ((x >> 8) & 0xff) as u8]
}

/// The four little-endian bytes of a `u32`.
pub open spec fn le32(x: u32) -> Seq<u8> {
    seq![
        (x & 0xff) as u8,
        ((x >> 8) & 0xff) as u8,
        ((x >> 16) & 0xff) as u8,
        ((x >> 24) & 0xff) as u8,
    ]
}

/// The eight little-endian bytes of a `u64`.
pub open spec fn le64(x: u64) -> Seq<u8> {
    seq![
        (x & 0xff) as u8,
        ((x >> 8) & 0xff) as u8,
        ((x >> 16) & 0xff) as u8,
        ((x >> 24) & 0xff) as u8,
        ((x >> 32) & 0xff) as u8,
        ((x >> 40) & 0xff) as u8,
        ((x >> 48) & 0xff) as u8,
        ((x >> 56) & 0xff) as u8,
    ]
}

/// Appends the two little-endian bytes of `x`.
pub fn push_u16_le(out: &mut Vec<u8>, x: u16)
    ensures
        final(out)@ == old(out)@ + le16(x),
{
    proof {
        assert(x & 0xff < 256 && (x >> 8) & 0xff < 256) by (bit_vector);
    }
    out.push((x & 0xff) as u8);
    out.push(((x >> 8) & 0xff) as u8);
    assert(out@ =~= old(out)@ + le16(x));
}

/// Appends the four little-endian bytes of `x`.
pub fn push_u32_le(out: &mut Vec<u8>, x: u32)
    ensures
        final(out)@ == old(out)@ + le32(x),
{
    proof {
        assert(x & 0xff < 256 && (x >> 8) & 0xff < 256 && (x >> 16) & 0xff < 256 && (x >> 24)
            & 0xff < 256) by (bit_vector);
    }
    out.push((x & 0xff) as u8);
    out.push(((x >> 8) & 0xff) as u8);
    out.push(((x >> 16) & 0xff) as u8);
    out.push(((x >> 24) & 0xff) as u8);
    assert(out@ =~= old(out)@ + le32(x));
}

/// Appends the eight little-endian bytes of `x`.
pub fn push_u64_le(out: &mut Vec<u8>, x: u64)
    ensures
        final(out)@ == old(out)@ + le64(x),
{
    proof {
        assert(x & 0xff < 256 && (x >> 8) & 0xff < 256 && (x >> 16) & 0xff < 256 && (x >> 24)
            & 0xff < 256 && (x >> 32) & 0xff < 256 && (x >> 40) & 0xff < 256 && (x >> 48) & 0xff
            < 256 && (x >> 56) & 0xff < 256) by (bit_vector);
    }
    out.push((x & 0xff) as u8);
    out.push(((x >> 8) & 0xff) as u8);
    out.push(((x >> 16) & 0xff) as u8);
    out.push(((x >> 24) & 0xff) as u8);
    out.push(((x >> 32) & 0xff) as u8);
    out.push(((x >> 40) & 0xff) as u8);
    out.push(((x >> 48) & 0xff) as u8);
    out.push(((x >> 56) & 0xff) as u8);
    assert(out@ =~= old(out)@ + le64(x));
}

/// Appends a whole byte slice.
pub fn push_bytes(out: &mut Vec<u8>, bytes: &[u8])
    ensures
        final(out)@ == old(out)@ + bytes@,
{
    out.extend_from_slice(bytes);
}

// ---------------------------------------------------------------------------
// Stream types
// ---------------------------------------------------------------------------

/// The stream kinds this writer emits.
#[derive(Clone, Copy, Debug, PartialEq, Eq, Structural)]
pub enum MDStreamType {
    ThreadListStream,
    ModuleListStream,
    MemoryListStream,
    ExceptionStream,
    SystemInfoStream,
    MiscInfoStream,
    ThreadNamesStream,
    BreakpadInfoStream,
}

impl MDStreamType {
    /// The `u32` that identifies this stream kind in a directory entry.
    pub open spec fn spec_value(self) -> u32 {
        match self {
            MDStreamType::ThreadListStream => 3,
            MDStreamType::ModuleListStream => 4,
            MDStreamType::MemoryListStream => 5,
            MDStreamType::ExceptionStream => 6,
            MDStreamType::SystemInfoStream => 7,
            MDStreamType::MiscInfoStream => 15,
            MDStreamType::ThreadNamesStream => 24,
            MDStreamType::BreakpadInfoStream => 0x47670001,
        }
    }

    /// Returns the directory-entry value of this stream kind.
    pub fn value(self) -> (v: u32)
        ensures
            v == self.spec_value(),
    {
        match self {
            MDStreamType::ThreadListStream => 3,
            MDStreamType::ModuleListStream => 4,
            MDStreamType::MemoryListStream => 5,
            MDStreamType::ExceptionStream => 6,
            MDStreamType::SystemInfoStream => 7,
            MDStreamType::MiscInfoStream => 15,
            MDStreamType::ThreadNamesStream => 24,
            MDStreamType::BreakpadInfoStream => 0x47670001,
        }
    }
}

/// Processor-architecture values recorded in the system-info stream.
#[derive(Clone, Copy, Debug, PartialEq, Eq, Structural)]
pub enum MDCPUArchitecture {
    ProcessorArchitectureIntel,
    ProcessorArchitectureAmd64,
    ProcessorArchitectureArm64Old,
}

impl MDCPUArchitecture {
    /// The `u16` recorded for this architecture.
    pub open spec fn spec_value(self) -> u16 {
        match self {
            MDCPUArchitecture::ProcessorArchitectureIntel => 0,
            MDCPUArchitecture::ProcessorArchitectureAmd64 => 9,
            MDCPUArchitecture::ProcessorArchitectureArm64Old => 0x8003,
        }
    }

    /// Returns the system-info value of this architecture.
    pub fn value(self) -> (v: u16)
        ensures
            v == self.spec_value(),
    {
        match self {
            MDCPUArchitecture::ProcessorArchitectureIntel => 0,
            MDCPUArchitecture::ProcessorArchitectureAmd64 => 9,
            MDCPUArchitecture::ProcessorArchitectureArm64Old => 0x8003,
        }
    }
}

/// Operating-system values recorded in the system-info stream.
#[derive(Clone, Copy, Debug, PartialEq, Eq, Structural)]
pub enum PlatformId {
    MacOs,
    Ios,
    Linux,
    Android,
}

impl PlatformId {
    /// The `u32` recorded for this platform.
    pub open spec fn spec_value(self) -> u32 {
        match self {
            PlatformId::MacOs => 0x8101,
            PlatformId::Ios => 0x8102,
            PlatformId::Linux => 0x8201,
            PlatformId::Android => 0x8203,
        }
    }

    /// Returns the system-info value of this platform.
    pub fn value(self) -> (v: u32)
        ensures
            v == self.spec_value(),
    {
        match self {
            PlatformId::MacOs => 0x8101,
            PlatformId::Ios => 0x8102,
            PlatformId::Linux => 0x8201,
            PlatformId::Android => 0x8203,
        }
    }
}

// ---------------------------------------------------------------------------
// Location and memory descriptors
// ---------------------------------------------------------------------------

/// Size in bytes of a serialized [`MDLocationDescriptor`].
pub const MD_LOCATION_DESCRIPTOR_SIZE: u32 = 8;

/// A `(data_size, rva)` pair locating a record inside the dump.
#[derive(Clone, Copy, Debug, PartialEq, Eq, Structural)]
pub struct MDLocationDescriptor {
    pub data_size: u32,
    pub rva: RVA,
}

impl Default for MDLocationDescriptor {
    /// An empty location: size zero at offset zero.
    fn default() -> (d: Self)
        ensures
            d == (MDLocationDescriptor { data_size: 0, rva: 0 }),
    {
        MDLocationDescriptor { data_size: 0, rva: 0 }
    }
}

impl MDLocationDescriptor {
    /// Encoding: `data_size` then `rva`, each little-endian.
    pub open spec fn spec_bytes(self) -> Seq<u8> {
        le32(self.data_size) + le32(self.rva)
    }

    /// Appends the 8-byte encoding.
    pub fn write_into(&self, out: &mut Vec<u8>)
        ensures
            final(out)@ == old(out)@ + self.spec_bytes(),
    {
        push_u32_le(out, self.data_size);
        push_u32_le(out, self.rva);
        assert(out@ =~= old(out)@ + self.spec_bytes());
    }
}

/// Size in bytes of a serialized [`MDMemoryDescriptor`].
pub const MD_MEMORY_DESCRIPTOR_SIZE: u32 = 16;

/// A block of target memory captured into the dump: its base address in the
/// target and the location of its bytes inside the dump.
#[derive(Clone, Copy, Debug, PartialEq, Eq, Structural)]
pub struct MDMemoryDescriptor {
    pub start_of_memory_range: u64,
    pub memory: MDLocationDescriptor,
}

impl Default for MDMemoryDescriptor {
    /// An empty memory descriptor.
    fn default() -> (d: Self)
        ensures
            d == (MDMemoryDescriptor {
                start_of_memory_range: 0,
                memory: MDLocationDescriptor { data_size: 0, rva: 0 },
            }),
    {
        MDMemoryDescriptor {
            start_of_memory_range: 0,
            memory: MDLocationDescriptor { data_size: 0, rva: 0 },
        }
    }
}

impl MDMemoryDescriptor {
    /// Encoding: base address then location.
    pub open spec fn spec_bytes(self) -> Seq<u8> {
        le64(self.start_of_memory_range) + self.memory.spec_bytes()
    }

    /// Appends the 16-byte encoding.
    pub fn write_into(&self, out: &mut Vec<u8>)
        ensures
            final(out)@ == old(out)@ + self.spec_bytes(),
    {
        push_u64_le(out, self.start_of_memory_range);
        self.memory.write_into(out);
        assert(out@ =~= old(out)@ + self.spec_bytes());
    }
}

// ---------------------------------------------------------------------------
// Header and directory
// ---------------------------------------------------------------------------

/// Size in bytes of a serialized [`MDRawHeader`].
pub const MD_HEADER_SIZE: u32 = 32;

/// The fixed header that opens the dump. `flags` is 64 bits wide on disk.
#[derive(Clone, Copy, Debug, PartialEq, Eq, Structural)]
pub struct MDRawHeader {
    pub signature: u32,
    pub version: u32,
    pub stream_count: u32,
    pub stream_directory_rva: RVA,
    pub checksum: u32,
    pub time_date_stamp: u32,
    pub flags: u64,
}

impl MDRawHeader {
    /// Encoding: six `u32` fields then the 64-bit flags.
    pub open spec fn spec_bytes(self) -> Seq<u8> {
        le32(self.signature) + le32(self.version) + le32(self.stream_count) + le32(
            self.stream_directory_rva,
        ) + le32(self.checksum) + le32(self.time_date_stamp) + le64(self.flags)
    }

    /// Appends the 32-byte encoding.
    pub fn write_into(&self, out: &mut Vec<u8>)
        ensures
            final(out)@ == old(out)@ + self.spec_bytes(),
    {
        push_u32_le(out, self.signature);
        push_u32_le(out, self.version);
        push_u32_le(out, self.stream_count);
        push_u32_le(out, self.stream_directory_rva);
        push_u32_le(out, self.checksum);
        push_u32_le(out, self.time_date_stamp);
        push_u64_le(out, self.flags);
        assert(out@ =~= old(out)@ + self.spec_bytes());
    }
}

/// Size in bytes of a serialized [`MDRawDirectory`].
pub const MD_DIRECTORY_SIZE: u32 = 12;

/// One directory entry: a stream's kind and where its bytes lie.
#[derive(Clone, Copy, Debug, PartialEq, Eq, Structural)]
pub struct MDRawDirectory {
    pub stream_type: u32,
    pub location: MDLocationDescriptor,
}

impl MDRawDirectory {
    /// Encoding: stream type then location.
    pub open spec fn spec_bytes(self) -> Seq<u8> {
        le32(self.stream_type) + self.location.spec_bytes()
    }

    /// Appends the 12-byte encoding.
    pub fn write_into(&self, out: &mut Vec<u8>)
        ensures
            final(out)@ == old(out)@ + self.spec_bytes(),
    {
        push_u32_le(out, self.stream_type);
        self.location.write_into(out);
        assert(out@ =~= old(out)@ + self.spec_bytes());
    }
}

// ---------------------------------------------------------------------------
// Thread records
// ---------------------------------------------------------------------------

/// Size in bytes of a serialized [`MDRawThread`].
pub const MD_THREAD_SIZE: u32 = 48;

/// One thread of the dumped task.
#[derive(Clone, Copy, Debug, PartialEq, Eq, Structural)]
pub struct MDRawThread {
    pub thread_id: u32,
    pub suspend_count: u32,
    pub priority_class: u32,
    pub priority: u32,
    pub teb: u64,
    pub stack: MDMemoryDescriptor,
    pub thread_context: MDLocationDescriptor,
}

impl MDRawThread {
    /// Encoding: the four `u32` fields, `teb`, the stack descriptor, and the
    /// context location.
    pub open spec fn spec_bytes(self) -> Seq<u8> {
        le32(self.thread_id) + le32(self.suspend_count) + le32(self.priority_class) + le32(
            self.priority,
        ) + le64(self.teb) + self.stack.spec_bytes() + self.thread_context.spec_bytes()
    }

    /// Appends the 48-byte encoding.
    pub fn write_into(&self, out: &mut Vec<u8>)
        ensures
            final(out)@ == old(out)@ + self.spec_bytes(),
    {
        push_u32_le(out, self.thread_id);
        push_u32_le(out, self.suspend_count);
        push_u32_le(out, self.priority_class);
        push_u32_le(out, self.priority);
        push_u64_le(out, self.teb);
        self.stack.write_into(out);
        self.thread_context.write_into(out);
        assert(out@ =~= old(out)@ + self.spec_bytes());
    }
}

/// Size in bytes of a serialized [`MDRawThreadName`].
pub const MD_THREAD_NAME_SIZE: u32 = 12;

/// One entry of the thread-names stream. A `thread_name_rva` of zero means
/// "name unavailable", distinct from an empty name.
#[derive(Clone, Copy, Debug, PartialEq, Eq, Structural)]
pub struct MDRawThreadName {
    pub thread_id: u32,
    pub thread_name_rva: u64,
}

impl MDRawThreadName {
    /// Encoding: thread id then the 64-bit name offset.
    pub open spec fn spec_bytes(self) -> Seq<u8> {
        le32(self.thread_id) + le64(self.thread_name_rva)
    }

    /// Appends the 12-byte encoding.
    pub fn write_into(&self, out: &mut Vec<u8>)
        ensures
            final(out)@ == old(out)@ + self.spec_bytes(),
    {
        push_u32_le(out, self.thread_id);
        push_u64_le(out, self.thread_name_rva);
        assert(out@ =~= old(out)@ + self.spec_bytes());
    }
}

// ---------------------------------------------------------------------------
// Exception records
// ---------------------------------------------------------------------------

/// Number of slots in [`MDException::exception_information`].
pub const EXCEPTION_MAXIMUM_PARAMETERS: usize = 15;

/// Size in bytes of a serialized [`MDException`].
pub const MD_EXCEPTION_SIZE: u32 = 152;

/// The encoding of a sequence of `u64` values, each little-endian.
pub open spec fn le64_seq(s: Seq<u64>) -> Seq<u8>
    decreases s.len(),
{
    if s.len() == 0 {
        Seq::empty()
    } else {
        le64(s[0]) + le64_seq(s.drop_first())
    }
}

/// Appending one value to a sequence appends its eight bytes to the encoding.
pub proof fn lemma_le64_seq_push(s: Seq<u64>, x: u64)
    ensures
        le64_seq(s.push(x)) == le64_seq(s) + le64(x),
    decreases s.len(),
{
    if s.len() == 0 {
        assert(s.push(x).drop_first() =~= s);
        assert(le64_seq(s.push(x)) =~= le64_seq(s) + le64(x));
    } else {
        assert(s.push(x).drop_first() =~= s.drop_first().push(x));
        lemma_le64_seq_push(s.drop_first(), x);
        assert(le64_seq(s.push(x)) =~= le64_seq(s) + le64(x));
    }
}

/// The length of the encoding of `n` values is `8 * n`.
pub proof fn lemma_le64_seq_len(s: Seq<u64>)
    ensures
        le64_seq(s).len() == 8 * s.len(),
    decreases s.len(),
{
    if s.len() > 0 {
        lemma_le64_seq_len(s.drop_first());
    }
}

/// Appends each value of `vals`, little-endian.
pub fn push_u64_seq(out: &mut Vec<u8>, vals: &[u64])
    ensures
        final(out)@ == old(out)@ + le64_seq(vals@),
{
    let ghost out0 = out@;
    let n = vals.len();
    let mut i: usize = 0;
    while i < n
        invariant
            i <= n,
            n == vals@.len(),
            out@ == out0 + le64_seq(vals@.take(i as int)),
        decreases n - i,
    {
        push_u64_le(out, vals[i]);
        proof {
            lemma_le64_seq_push(vals@.take(i as int), vals@[i as int]);
            assert(vals@.take(i + 1 as int) =~= vals@.take(i as int).push(vals@[i as int]));
        }
        i = i + 1;
    }
    assert(vals@.take(n as int) =~= vals@);
}

/// Detailed exception information.
#[derive(Clone, Copy, Debug)]
pub struct MDException {
    pub exception_code: u32,
    pub exception_flags: u32,
    pub exception_record: u64,
    pub exception_address: u64,
    pub number_parameters: u32,
    pub __align: u32,
    pub exception_information: [u64; 15],
}

impl Default for MDException {
    /// All fields zero.
    fn default() -> (d: Self)
        ensures
            d.exception_code == 0,
            d.exception_flags == 0,
            d.exception_record == 0,
            d.exception_address == 0,
            d.number_parameters == 0,
            d.__align == 0,
            d.exception_information@ =~= Seq::<u64>::empty().add(seq![0u64; 15]),
    {
        MDException {
            exception_code: 0,
            exception_flags: 0,
            exception_record: 0,
            exception_address: 0,
            number_parameters: 0,
            __align: 0,
            exception_information: [0; 15],
        }
    }
}

impl MDException {
    /// Encoding: the scalar fields then the fifteen parameter slots.
    pub open spec fn spec_bytes(self) -> Seq<u8> {
        le32(self.exception_code) + le32(self.exception_flags) + le64(self.exception_record)
            + le64(self.exception_address) + le32(self.number_parameters) + le32(self.__align)
            + le64_seq(self.exception_information@)
    }

    /// Appends the 152-byte encoding.
    pub fn write_into(&self, out: &mut Vec<u8>)
        ensures
            final(out)@ == old(out)@ + self.spec_bytes(),
    {
        push_u32_le(out, self.exception_code);
        push_u32_le(out, self.exception_flags);
        push_u64_le(out, self.exception_record);
        push_u64_le(out, self.exception_address);
        push_u32_le(out, self.number_parameters);
        push_u32_le(out, self.__align);
        push_u64_seq(out, self.exception_information.as_slice());
        assert(out@ =~= old(out)@ + self.spec_bytes());
    }
}

/// Size in bytes of a serialized [`MDRawExceptionStream`].
pub const MD_EXCEPTION_STREAM_SIZE: u32 = 168;

/// The exception stream: the faulting thread, the exception record, and the
/// location of that thread's CPU context.
#[derive(Clone, Copy, Debug)]
pub struct MDRawExceptionStream {
    pub thread_id: u32,
    pub __align: u32,
    pub exception_record: MDException,
    pub thread_context: MDLocationDescriptor,
}

impl MDRawExceptionStream {
    /// Encoding: thread id, alignment padding, exception record, context
    /// location.
    pub open spec fn spec_bytes(self) -> Seq<u8> {
        le32(self.thread_id) + le32(self.__align) + self.exception_record.spec_bytes()
            + self.thread_context.spec_bytes()
    }

    /// Appends the 168-byte encoding.
    pub fn write_into(&self, out: &mut Vec<u8>)
        ensures
            final(out)@ == old(out)@ + self.spec_bytes(),
    {
        push_u32_le(out, self.thread_id);
        push_u32_le(out, self.__align);
        self.exception_record.write_into(out);
        self.thread_context.write_into(out);
        assert(out@ =~= old(out)@ + self.spec_bytes());
    }
}

// ---------------------------------------------------------------------------
// System info
// ---------------------------------------------------------------------------

/// Size in bytes of a serialized [`MDRawSystemInfo`].
pub const MD_SYSTEM_INFO_SIZE: u32 = 56;

/// Opaque per-architecture CPU details; 24 bytes on disk.
#[derive(Clone, Copy, Debug)]
pub struct CpuInformation {
    pub data: [u8; 24],
}

impl Default for CpuInformation {
    /// All bytes zero.
    fn default() -> (d: Self)
        ensures
            d.data@ =~= Seq::<u8>::empty().add(seq![0u8; 24]),
    {
        CpuInformation { data: [0; 24] }
    }
}

/// The system-info stream record.
#[derive(Clone, Copy, Debug)]
pub struct MDRawSystemInfo {
    pub processor_architecture: u16,
    pub processor_level: u16,
    pub processor_revision: u16,
    pub number_of_processors: u8,
    pub product_type: u8,
    pub major_version: u32,
    pub minor_version: u32,
    pub build_number: u32,
    pub platform_id: u32,
    pub csd_version_rva: RVA,
    pub suite_mask: u16,
    pub reserved2: u16,
    pub cpu: CpuInformation,
}

impl MDRawSystemInfo {
    /// Encoding: processor fields, OS version fields, then the CPU blob.
    pub open spec fn spec_bytes(self) -> Seq<u8> {
        le16(self.processor_architecture) + le16(self.processor_level) + le16(
            self.processor_revision,
        ) + seq![self.number_of_processors, self.product_type] + le32(self.major_version) + le32(
            self.minor_version,
        ) + le32(self.build_number) + le32(self.platform_id) + le32(self.csd_version_rva) + le16(
            self.suite_mask,
        ) + le16(self.reserved2) + self.cpu.data@
    }

    /// Appends the 56-byte encoding.
    pub fn write_into(&self, out: &mut Vec<u8>)
        ensures
            final(out)@ == old(out)@ + self.spec_bytes(),
    {
        push_u16_le(out, self.processor_architecture);
        push_u16_le(out, self.processor_level);
        push_u16_le(out, self.processor_revision);
        out.push(self.number_of_processors);
        out.push(self.product_type);
        push_u32_le(out, self.major_version);
        push_u32_le(out, self.minor_version);
        push_u32_le(out, self.build_number);
        push_u32_le(out, self.platform_id);
        push_u32_le(out, self.csd_version_rva);
        push_u16_le(out, self.suite_mask);
        push_u16_le(out, self.reserved2);
        push_bytes(out, self.cpu.data.as_slice());
        assert(out@ =~= old(out)@ + self.spec_bytes());
    }
}

// ---------------------------------------------------------------------------
// Modules
// ---------------------------------------------------------------------------

/// Size in bytes of a serialized [`VSFixedFileInfo`].
pub const VS_FIXED_FILE_INFO_SIZE: u32 = 52;

/// The expected value of [`VSFixedFileInfo::signature`].
pub const VS_FFI_SIGNATURE: u32 = 0xfeef04bd;

/// The expected value of [`VSFixedFileInfo::struct_version`].
pub const VS_FFI_STRUCVERSION: u32 = 0x00010000;

/// Version information recorded for a module.
#[derive(Clone, Copy, Debug, PartialEq, Eq, Structural)]
pub struct VSFixedFileInfo {
    pub signature: u32,
    pub struct_version: u32,
    pub file_version_hi: u32,
    pub file_version_lo: u32,
    pub product_version_hi: u32,
    pub product_version_lo: u32,
    pub file_flags_mask: u32,
    pub file_flags: u32,
    pub file_os: u32,
    pub file_type: u32,
    pub file_subtype: u32,
    pub file_date_hi: u32,
    pub file_date_lo: u32,
}

impl Default for VSFixedFileInfo {
    /// All fields zero.
    fn default() -> (d: Self)
        ensures
            d == (VSFixedFileInfo {
                signature: 0,
                struct_version: 0,
                file_version_hi: 0,
                file_version_lo: 0,
                product_version_hi: 0,
                product_version_lo: 0,
                file_flags_mask: 0,
                file_flags: 0,
                file_os: 0,
                file_type: 0,
                file_subtype: 0,
                file_date_hi: 0,
                file_date_lo: 0,
            }),
    {
        VSFixedFileInfo {
            signature: 0,
            struct_version: 0,
            file_version_hi: 0,
            file_version_lo: 0,
            product_version_hi: 0,
            product_version_lo: 0,
            file_flags_mask: 0,
            file_flags: 0,
            file_os: 0,
            file_type: 0,
            file_subtype: 0,
            file_date_hi: 0,
            file_date_lo: 0,
        }
    }
}

impl VSFixedFileInfo {
    /// Encoding: the thirteen `u32` fields in order.
    pub open spec fn spec_bytes(self) -> Seq<u8> {
        le32(self.signature) + le32(self.struct_version) + le32(self.file_version_hi) + le32(
            self.file_version_lo,
        ) + le32(self.product_version_hi) + le32(self.product_version_lo) + le32(
            self.file_flags_mask,
        ) + le32(self.file_flags) + le32(self.file_os) + le32(self.file_type) + le32(
            self.file_subtype,
        ) + le32(self.file_date_hi) + le32(self.file_date_lo)
    }

    /// Appends the 52-byte encoding.
    #[verifier::rlimit(60)]
    pub fn write_into(&self, out: &mut Vec<u8>)
        ensures
            final(out)@ == old(out)@ + self.spec_bytes(),
    {
        push_u32_le(out, self.signature);
        push_u32_le(out, self.struct_version);
        push_u32_le(out, self.file_version_hi);
        push_u32_le(out, self.file_version_lo);
        push_u32_le(out, self.product_version_hi);
        push_u32_le(out, self.product_version_lo);
        push_u32_le(out, self.file_flags_mask);
        push_u32_le(out, self.file_flags);
        push_u32_le(out, self.file_os);
        push_u32_le(out, self.file_type);
        push_u32_le(out, self.file_subtype);
        push_u32_le(out, self.file_date_hi);
        push_u32_le(out, self.file_date_lo);
        assert(out@ =~= old(out)@ + self.spec_bytes());
    }
}

/// Size in bytes of a serialized [`MDRawModule`].
pub const MD_MODULE_SIZE: u32 = 108;

/// One loaded module of the dumped task.
#[derive(Clone, Copy, Debug)]
pub struct MDRawModule {
    pub base_of_image: u64,
    pub size_of_image: u32,
    pub checksum: u32,
    pub time_date_stamp: u32,
    pub module_name_rva: RVA,
    pub version_info: VSFixedFileInfo,
    pub cv_record: MDLocationDescriptor,
    pub misc_record: MDLocationDescriptor,
    pub reserved0: [u32; 2],
    pub reserved1: [u32; 2],
}

impl MDRawModule {
    /// Encoding: base and sizes, name offset, version record, debug records,
    /// then four reserved `u32` slots.
    pub open spec fn spec_bytes(self) -> Seq<u8> {
        le64(self.base_of_image) + le32(self.size_of_image) + le32(self.checksum) + le32(
            self.time_date_stamp,
        ) + le32(self.module_name_rva) + self.version_info.spec_bytes() + self.cv_record.spec_bytes()
            + self.misc_record.spec_bytes() + le32(self.reserved0@[0]) + le32(self.reserved0@[1])
            + le32(self.reserved1@[0]) + le32(self.reserved1@[1])
    }

    /// Appends the 108-byte encoding.
    #[verifier::rlimit(60)]
    pub fn write_into(&self, out: &mut Vec<u8>)
        ensures
            final(out)@ == old(out)@ + self.spec_bytes(),
    {
        push_u64_le(out, self.base_of_image);
        push_u32_le(out, self.size_of_image);
        push_u32_le(out, self.checksum);
        push_u32_le(out, self.time_date_stamp);
        push_u32_le(out, self.module_name_rva);
        self.version_info.write_into(out);
        self.cv_record.write_into(out);
        self.misc_record.write_into(out);
        push_u32_le(out, self.reserved0[0]);
        push_u32_le(out, self.reserved0[1]);
        push_u32_le(out, self.reserved1[0]);
        push_u32_le(out, self.reserved1[1]);
        assert(out@ =~= old(out)@ + self.spec_bytes());
    }
}

// ---------------------------------------------------------------------------
// Misc info and breakpad info
// ---------------------------------------------------------------------------

/// Size in bytes of a serialized [`MDMiscInfo2`].
pub const MD_MISC_INFO_2_SIZE: u32 = 44;

/// Process identity and timing, with processor-frequency slots.
#[derive(Clone, Copy, Debug, PartialEq, Eq, Structural)]
pub struct MDMiscInfo2 {
    pub size_of_info: u32,
    pub flags1: u32,
    pub process_id: u32,
    pub process_create_time: u32,
    pub process_user_time: u32,
    pub process_kernel_time: u32,
    pub processor_max_mhz: u32,
    pub processor_current_mhz: u32,
    pub processor_mhz_limit: u32,
    pub processor_max_idle_state: u32,
    pub processor_current_idle_state: u32,
}

impl MDMiscInfo2 {
    /// Encoding: the eleven `u32` fields in order.
    pub open spec fn spec_bytes(self) -> Seq<u8> {
        le32(self.size_of_info) + le32(self.flags1) + le32(self.process_id) + le32(
            self.process_create_time,
        ) + le32(self.process_user_time) + le32(self.process_kernel_time) + le32(
            self.processor_max_mhz,
        ) + le32(self.processor_current_mhz) + le32(self.processor_mhz_limit) + le32(
            self.processor_max_idle_state,
        ) + le32(self.processor_current_idle_state)
    }

    /// Appends the 44-byte encoding.
    pub fn write_into(&self, out: &mut Vec<u8>)
        ensures
            final(out)@ == old(out)@ + self.spec_bytes(),
    {
        push_u32_le(out, self.size_of_info);
        push_u32_le(out, self.flags1);
        push_u32_le(out, self.process_id);
        push_u32_le(out, self.process_create_time);
        push_u32_le(out, self.process_user_time);
        push_u32_le(out, self.process_kernel_time);
        push_u32_le(out, self.processor_max_mhz);
        push_u32_le(out, self.processor_current_mhz);
        push_u32_le(out, self.processor_mhz_limit);
        push_u32_le(out, self.processor_max_idle_state);
        push_u32_le(out, self.processor_current_idle_state);
        assert(out@ =~= old(out)@ + self.spec_bytes());
    }
}

/// `MISC_1_PROCESS_ID`: the process-id field of the misc-info stream is valid.
pub const MISC_INFO_FLAG_PROCESS_ID: u32 = 1;

/// `MISC_1_PROCESS_TIMES`: the time fields of the misc-info stream are valid.
pub const MISC_INFO_FLAG_PROCESS_TIMES: u32 = 2;

/// Size in bytes of a serialized [`MDRawBreakpadInfo`].
pub const MD_BREAKPAD_INFO_SIZE: u32 = 12;

/// Validity bit: [`MDRawBreakpadInfo::dump_thread_id`] is meaningful.
pub const BREAKPAD_INFO_VALID_DUMP_THREAD_ID: u32 = 1;

/// Validity bit: [`MDRawBreakpadInfo::requesting_thread_id`] is meaningful.
pub const BREAKPAD_INFO_VALID_REQUESTING_THREAD_ID: u32 = 2;

/// Which thread wrote the dump and which thread asked for it, so an analyzer
/// can deprioritize the handler's own stack.
#[derive(Clone, Copy, Debug, PartialEq, Eq, Structural)]
pub struct MDRawBreakpadInfo {
    pub validity: u32,
    pub dump_thread_id: u32,
    pub requesting_thread_id: u32,
}

impl MDRawBreakpadInfo {
    /// Encoding: the three `u32` fields in order.
    pub open spec fn spec_bytes(self) -> Seq<u8> {
        le32(self.validity) + le32(self.dump_thread_id) + le32(self.requesting_thread_id)
    }

    /// Appends the 12-byte encoding.
    pub fn write_into(&self, out: &mut Vec<u8>)
        ensures
            final(out)@ == old(out)@ + self.spec_bytes(),
    {
        push_u32_le(out, self.validity);
        push_u32_le(out, self.dump_thread_id);
        push_u32_le(out, self.requesting_thread_id);
        assert(out@ =~= old(out)@ + self.spec_bytes());
    }
}

// ---------------------------------------------------------------------------
// Sequences of records
// ---------------------------------------------------------------------------

/// A record type with a known byte encoding.
pub trait MdRecord {
    /// The record's on-disk bytes.
    spec fn record_bytes(&self) -> Seq<u8>;
}

/// The concatenated encodings of a sequence of records.
pub open spec fn records_bytes<T: MdRecord>(s: Seq<T>) -> Seq<u8>
    decreases s.len(),
{
    if s.len() == 0 {
        Seq::empty()
    } else {
        s[0].record_bytes() + records_bytes(s.drop_first())
    }
}

/// Appending one record appends its encoding.
pub proof fn lemma_records_bytes_push<T: MdRecord>(s: Seq<T>, x: T)
    ensures
        records_bytes(s.push(x)) == records_bytes(s) + x.record_bytes(),
    decreases s.len(),
{
    if s.len() == 0 {
        assert(s.push(x).drop_first() =~= s);
        assert(records_bytes(s.push(x)) =~= records_bytes(s) + x.record_bytes());
    } else {
        assert(s.push(x).drop_first() =~= s.drop_first().push(x));
        lemma_records_bytes_push(s.drop_first(), x);
        assert(records_bytes(s.push(x)) =~= records_bytes(s) + x.record_bytes());
    }
}

/// When every record encodes to `n` bytes, the sequence encodes to `n` times
/// its length.
pub proof fn lemma_records_bytes_len<T: MdRecord>(s: Seq<T>, n: int)
    requires
        forall|i: int| 0 <= i < s.len() ==> (#[trigger] s[i].record_bytes()).len() == n,
    ensures
        records_bytes(s).len() == n * s.len(),
    decreases s.len(),
{
    if s.len() > 0 {
        assert forall|i: int| 0 <= i < s.drop_first().len() implies (#[trigger] s.drop_first()[i].record_bytes()).len() == n by {
            assert(s.drop_first()[i] == s[i + 1]);
        }
        lemma_records_bytes_len(s.drop_first(), n);
        assert(n + n * (s.len() - 1) == n * s.len()) by (nonlinear_arith);
    }
}

impl MdRecord for MDRawThread {
    open spec fn record_bytes(&self) -> Seq<u8> {
        self.spec_bytes()
    }
}

impl MdRecord for MDRawThreadName {
    open spec fn record_bytes(&self) -> Seq<u8> {
        self.spec_bytes()
    }
}

impl MdRecord for MDMemoryDescriptor {
    open spec fn record_bytes(&self) -> Seq<u8> {
        self.spec_bytes()
    }
}

impl MdRecord for MDRawModule {
    open spec fn record_bytes(&self) -> Seq<u8> {
        self.spec_bytes()
    }
}

impl MdRecord for MDRawDirectory {
    open spec fn record_bytes(&self) -> Seq<u8> {
        self.spec_bytes()
    }
}

// ---------------------------------------------------------------------------
// Reading numbers back out of a byte sequence
// ---------------------------------------------------------------------------

/// The `u32` encoded little-endian at `off`.
pub open spec fn u32_at(b: Seq<u8>, off: int) -> u32
    recommends
        0 <= off,
        off + 4 <= b.len(),
{
    (b[off] as u32) | ((b[off + 1] as u32) << 8) | ((b[off + 2] as u32) << 16) | ((b[off + 3]
        as u32) << 24)
}

/// Where four bytes hold `le32(x)`, the decoded value is `x`.
pub proof fn lemma_u32_at_le32(b: Seq<u8>, off: int, x: u32)
    requires
        0 <= off,
        off + 4 <= b.len(),
        b.subrange(off, off + 4) == le32(x),
    ensures
        u32_at(b, off) == x,
{
    assert(b[off] == le32(x)[0] && b[off + 1] == le32(x)[1] && b[off + 2] == le32(x)[2] && b[off
        + 3] == le32(x)[3]) by {
        assert(b.subrange(off, off + 4)[0] == b[off]);
        assert(b.subrange(off, off + 4)[1] == b[off + 1]);
        assert(b.subrange(off, off + 4)[2] == b[off + 2]);
        assert(b.subrange(off, off + 4)[3] == b[off + 3]);
    }
    assert((((x & 0xff) as u8) as u32) | ((((x >> 8) & 0xff) as u8) as u32) << 8 | ((((x >> 16)
        & 0xff) as u8) as u32) << 16 | ((((x >> 24) & 0xff) as u8) as u32) << 24 == x)
        by (bit_vector);
}

/// Where twelve bytes hold a directory entry's encoding, the decoded fields
/// are the entry's.
pub proof fn lemma_dir_entry_decode(b: Seq<u8>, off: int, e: MDRawDirectory)
    requires
        0 <= off,
        off + 12 <= b.len(),
        b.subrange(off, off + 12) == e.spec_bytes(),
    ensures
        u32_at(b, off) == e.stream_type,
        u32_at(b, off + 4) == e.location.data_size,
        u32_at(b, off + 8) == e.location.rva,
{
    assert(b.subrange(off, off + 4) =~= e.spec_bytes().subrange(0, 4));
    assert(b.subrange(off + 4, off + 8) =~= e.spec_bytes().subrange(4, 8));
    assert(b.subrange(off + 8, off + 12) =~= e.spec_bytes().subrange(8, 12));
    assert(e.spec_bytes().subrange(0, 4) =~= le32(e.stream_type));
    assert(e.spec_bytes().subrange(4, 8) =~= le32(e.location.data_size));
    assert(e.spec_bytes().subrange(8, 12) =~= le32(e.location.rva));
    lemma_u32_at_le32(b, off, e.stream_type);
    lemma_u32_at_le32(b, off + 4, e.location.data_size);
    lemma_u32_at_le32(b, off + 8, e.location.rva);
}

} // verus!
