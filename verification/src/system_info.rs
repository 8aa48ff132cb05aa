//! The system-info stream: processor architecture and family, core count, and
//! the operating-system version parsed from its product-version string.

use vstd::prelude::*;
use vstd::string::StringSliceAdditionalSpecFns;

use crate::errors::SystemInfoError;
use crate::mem_writer::{md_string_bytes, write_string_to_location, DumpBuf};
use crate::minidump_format::{
    le16, le32, MDCPUArchitecture, MDLocationDescriptor, MDRawDirectory, MDRawSystemInfo,
    MDStreamType, PlatformId, CpuInformation, MD_SYSTEM_INFO_SIZE,
};
use crate::minidump_writer::{buf_extended, MinidumpWriter};
use crate::snapshot::SystemInfoFacts;

verus! {

// ---------------------------------------------------------------------------
// Version parsing
// ---------------------------------------------------------------------------

/// Whether `b` is an ASCII decimal digit.
pub open spec fn is_ascii_digit(b: u8) -> bool {
    0x30 <= b <= 0x39
}

/// Whether every byte of `b` is an ASCII decimal digit.
pub open spec fn all_ascii_digits(b: Seq<u8>) -> bool {
    forall|i: int| 0 <= i < b.len() ==> is_ascii_digit(#[trigger] b[i])
}

/// The value of a digit string, most significant first.
pub open spec fn digits_val(b: Seq<u8>) -> int
    decreases b.len(),
{
    if b.len() == 0 {
        0
    } else {
        digits_val(b.drop_last()) * 10 + (b.last() - 0x30)
    }
}

/// What `str::parse::<u32>` yields on these bytes: an optional leading plus
/// sign, then at least one digit, with a value that fits; anything else fails.
pub open spec fn spec_parse_u32(b: Seq<u8>) -> Option<u32> {
    let d = if b.len() > 0 && b[0] == 0x2b {
        b.drop_first()
    } else {
        b
    };
    if d.len() > 0 && all_ascii_digits(d) && digits_val(d) <= u32::MAX {
        Some(digits_val(d) as u32)
    } else {
        None
    }
}

/// Index of the first `.` at or after `from`.
pub open spec fn spec_first_dot(b: Seq<u8>, from: int) -> Option<int>
    decreases b.len() - from,
{
    if from < 0 || from >= b.len() {
        None
    } else if b[from] == 0x2e {
        Some(from)
    } else {
        spec_first_dot(b, from + 1)
    }
}

/// The `(major, minor, patch)` triple parsed from a product-version string
/// such as `"17.4.1"`: major and minor must both parse or the result is all
/// zeroes; a missing or unparsable patch is zero.
pub open spec fn spec_parse_os_version(b: Seq<u8>) -> (u32, u32, u32) {
    match spec_first_dot(b, 0) {
        None => (0u32, 0u32, 0u32),
        Some(d1) => match spec_parse_u32(b.subrange(0, d1)) {
            None => (0u32, 0u32, 0u32),
            Some(major) => {
                let minor_end = match spec_first_dot(b, d1 + 1) {
                    None => b.len() as int,
                    Some(d2) => d2,
                };
                match spec_parse_u32(b.subrange(d1 + 1, minor_end)) {
                    None => (0u32, 0u32, 0u32),
                    Some(minor) => {
                        let patch = match spec_first_dot(b, d1 + 1) {
                            None => 0u32,
                            Some(d2) => {
                                let patch_end = match spec_first_dot(b, d2 + 1) {
                                    None => b.len() as int,
                                    Some(d3) => d3,
                                };
                                match spec_parse_u32(b.subrange(d2 + 1, patch_end)) {
                                    None => 0u32,
                                    Some(p) => p,
                                }
                            },
                        };
                        (major, minor, patch)
                    },
                }
            },
        },
    }
}

/// Returns the index of the first `.` at or after `from`.
fn find_dot(bytes: &[u8], from: usize) -> (r: Option<usize>)
    requires
        from <= bytes@.len(),
    ensures
        match r {
            Some(i) => from <= i < bytes@.len() && spec_first_dot(bytes@, from as int) == Some(
                i as int,
            ),
            None => spec_first_dot(bytes@, from as int) is None,
        },
{
    let n = bytes.len();
    let mut i: usize = from;
    while i < n
        invariant
            from <= i <= n,
            n == bytes@.len(),
            spec_first_dot(bytes@, from as int) == spec_first_dot(bytes@, i as int),
        decreases n - i,
    {
        if bytes[i] == 0x2e {
            return Some(i);
        }
        i = i + 1;
    }
    None
}

/// Parses the bytes at `start..end` as `str::parse::<u32>` would.
#[verifier::loop_isolation(false)]
fn parse_u32_segment(bytes: &[u8], start: usize, end: usize) -> (r: Option<u32>)
    requires
        start <= end <= bytes@.len(),
    ensures
        r == spec_parse_u32(bytes@.subrange(start as int, end as int)),
{
    let ghost seg = bytes@.subrange(start as int, end as int);
    let mut lo = start;
    if lo < end && bytes[lo] == 0x2b {
        lo = lo + 1;
    }
    let ghost d = if seg.len() > 0 && seg[0] == 0x2b {
        seg.drop_first()
    } else {
        seg
    };
    proof {
        assert(d =~= bytes@.subrange(lo as int, end as int));
    }
    if lo == end {
        return None;
    }
    let mut acc: u64 = 0;
    let mut overflowed: bool = false;
    let mut i: usize = lo;
    while i < end
        invariant
            lo <= i <= end <= bytes@.len(),
            d == bytes@.subrange(lo as int, end as int),
            all_ascii_digits(d.take(i - lo)),
            !overflowed ==> acc == digits_val(d.take(i - lo)) && acc <= u32::MAX,
            overflowed ==> digits_val(d.take(i - lo)) > u32::MAX,
        decreases end - i,
    {
        let byte = bytes[i];
        if byte < 0x30 || byte > 0x39 {
            proof {
                assert(d[i - lo] == byte);
                assert(!is_ascii_digit(d[i - lo]));
                assert(!all_ascii_digits(d));
            }
            return None;
        }
        proof {
            assert(d.take(i - lo + 1).drop_last() =~= d.take(i - lo));
            assert(d.take(i - lo + 1).last() == d[i - lo]);
            assert(d[i - lo] == byte);
        }
        if overflowed {
            proof {
                assert(digits_val(d.take(i - lo + 1)) == digits_val(d.take(i - lo)) * 10 + (byte
                    - 0x30));
                assert(digits_val(d.take(i - lo)) * 10 > u32::MAX * 10) by (nonlinear_arith)
                    requires
                        digits_val(d.take(i - lo)) > u32::MAX,
                ;
            }
        } else {
            let next = acc * 10 + ((byte - 0x30) as u64);
            if next > u32::MAX as u64 {
                overflowed = true;
            } else {
                acc = next;
            }
        }
        i = i + 1;
    }
    proof {
        assert(d.take(end - lo) =~= d);
    }
    if overflowed {
        return None;
    }
    proof {
        assert(all_ascii_digits(d));
    }
    Some(acc as u32)
}

/// Parses an operating-system product-version string, eg `"17.4.1"`, into its
/// `(major, minor, patch)` triple. Returns all zeroes when major or minor is
/// missing or unparsable; a missing or unparsable patch alone is zero.
pub fn ios_version(os_version: &str) -> (r: (u32, u32, u32))
    ensures
        r == spec_parse_os_version(os_version.spec_bytes()),
{
    let bytes = os_version.as_bytes();
    let n = bytes.len();
    let d1 = match find_dot(bytes, 0) {
        Some(d1) => d1,
        None => {
            return (0, 0, 0);
        },
    };
    let major = match parse_u32_segment(bytes, 0, d1) {
        Some(v) => v,
        None => {
            return (0, 0, 0);
        },
    };
    assert(d1 < n);
    let dot2 = find_dot(bytes, d1 + 1);
    let minor_end = match dot2 {
        Some(d2) => d2,
        None => bytes.len(),
    };
    let minor = match parse_u32_segment(bytes, d1 + 1, minor_end) {
        Some(v) => v,
        None => {
            return (0, 0, 0);
        },
    };
    let patch = match dot2 {
        None => 0,
        Some(d2) => {
            assert(d2 < n);
            let patch_end = match find_dot(bytes, d2 + 1) {
                Some(d3) => d3,
                None => bytes.len(),
            };
            match parse_u32_segment(bytes, d2 + 1, patch_end) {
                Some(v) => v,
                None => 0,
            }
        },
    };
    (major, minor, patch)
}

/// Returns the operating-system build string as captured.
pub fn build_version(system: &SystemInfoFacts) -> (r: &String)
    ensures
        r@ == system.build@,
{
    &system.build
}

// ---------------------------------------------------------------------------
// Writing
// ---------------------------------------------------------------------------

/// The architecture value recorded: AMD64 under the Intel simulator, the
/// older ARM64 value otherwise.
pub open spec fn spec_processor_architecture(system: SystemInfoFacts) -> u16 {
    if system.is_x86_simulator {
        MDCPUArchitecture::ProcessorArchitectureAmd64.spec_value()
    } else {
        MDCPUArchitecture::ProcessorArchitectureArm64Old.spec_value()
    }
}

/// The exact bytes of the system-info record for the given facts, with the
/// build string at `csd_rva`: processor fields, the OS version parsed from
/// the product-version string, the mobile platform id, and a zeroed CPU blob.
pub open spec fn spec_system_info_bytes(system: SystemInfoFacts, csd_rva: u32) -> Seq<u8> {
    let version = spec_parse_os_version(vstd::utf8::encode_utf8(system.os_version@));
    le16(spec_processor_architecture(system)) + le16(((system.cpu_family >> 16) & 0xffff) as u16)
        + le16((system.cpu_family & 0xffff) as u16) + seq![system.number_of_processors, 1u8] + le32(
        version.0,
    ) + le32(version.1) + le32(version.2) + le32(PlatformId::Ios.spec_value()) + le32(csd_rva)
        + le16(0u16) + le16(0u16) + seq![0u8; 24]
}

impl MinidumpWriter {
    /// Writes the system-info stream: the build string, then the 56-byte
    /// record pointing at it.
    ///
    /// Fails if and only if the string and record would push the buffer past
    /// the 32-bit offset space.
    #[verifier::rlimit(100)]
    #[verifier::spinoff_prover]
    pub fn write_system_info(&mut self, buffer: &mut DumpBuf, system: &SystemInfoFacts) -> (r:
        Result<MDRawDirectory, SystemInfoError>)
        requires
            old(buffer).wf(),
        ensures
            final(buffer).wf(),
            buf_extended(old(buffer).bytes(), final(buffer).bytes()),
            *final(self) == *old(self),
            match r {
                Ok(dirent) => {
                    &&& dirent.stream_type == MDStreamType::SystemInfoStream.spec_value()
                    &&& dirent.location.data_size == MD_SYSTEM_INFO_SIZE
                    &&& dirent.location.rva + dirent.location.data_size <= final(buffer).bytes().len()
                    &&& dirent.location.rva == old(buffer).bytes().len() + md_string_bytes(
                        system.build@,
                    ).len()
                    &&& final(buffer).bytes() == old(buffer).bytes() + md_string_bytes(
                        system.build@,
                    ) + spec_system_info_bytes(*system, old(buffer).bytes().len() as u32)
                },
                Err(_) => old(buffer).bytes().len() + md_string_bytes(system.build@).len()
                    + MD_SYSTEM_INFO_SIZE > u32::MAX,
            },
    {
        // Write the OS build version string and remember where it landed.
        let os_version_loc = match write_string_to_location(buffer, system.build.as_str()) {
            Ok(loc) => loc,
            Err(e) => {
                return Err(SystemInfoError::MemoryWriter(e));
            },
        };

        let processor_architecture = if system.is_x86_simulator {
            MDCPUArchitecture::ProcessorArchitectureAmd64
        } else {
            MDCPUArchitecture::ProcessorArchitectureArm64Old
        };
        let family = system.cpu_family;
        let processor_level = ((family >> 16) & 0xffff) as u16;
        let processor_revision = (family & 0xffff) as u16;
        let (major_version, minor_version, build_number) = ios_version(system.os_version.as_str());

        let info = MDRawSystemInfo {
            processor_architecture: processor_architecture.value(),
            processor_level,
            processor_revision,
            number_of_processors: system.number_of_processors,
            product_type: 1,
            major_version,
            minor_version,
            build_number,
            platform_id: PlatformId::Ios.value(),
            csd_version_rva: os_version_loc.rva,
            suite_mask: 0,
            reserved2: 0,
            cpu: CpuInformation { data: [0; 24] },
        };
        let mut encoded: Vec<u8> = Vec::new();
        info.write_into(&mut encoded);
        proof {
            assert(info.cpu.data@ =~= seq![0u8; 24]);
            assert(encoded@ =~= spec_system_info_bytes(
                *system,
                old(buffer).bytes().len() as u32,
            ));
        }
        let rva = match buffer.write_all(encoded.as_slice()) {
            Ok(rva) => rva,
            Err(e) => {
                return Err(SystemInfoError::MemoryWriter(e));
            },
        };
        Ok(MDRawDirectory {
            stream_type: MDStreamType::SystemInfoStream.value(),
            location: MDLocationDescriptor { data_size: encoded.len() as u32, rva },
        })
    }
}

} // verus!
