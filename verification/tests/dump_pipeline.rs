//! End-to-end tests of the writer pipeline: whole dumps are produced from
//! task snapshots and parsed back byte by byte, and the analyzers are
//! exercised on concrete mappings and stacks.

use minidump_writer::crash_context::{IosCrashContext, IosExceptionInfo, ThreadState};
use minidump_writer::linux::maps_reader::{MappingInfo, Permissions, SystemMappingInfo};
use minidump_writer::linux::ptrace_dumper::PtraceDumper;
use minidump_writer::memory_list::ip_memory_range;
use minidump_writer::mem_writer::{write_string_to_location, DumpBuf};
use minidump_writer::minidump_writer::MinidumpWriter;
use minidump_writer::snapshot::{
    ImageCapture, IpMemoryCapture, LoadCommandFact, MiscInfoFacts, SystemInfoFacts, TaskSnapshot,
    ThreadCapture,
};
use minidump_writer::system_info::ios_version;
use minidump_writer::task_dumper::{page_span, string_from_task_bytes, string_read_length};
use minidump_writer::thread_list::calculate_stack_size;
use minidump_writer::types::{ImageInfo, VMRegionInfo, VM_MEMORY_STACK, VM_PROT_READ};

fn u32_le(bytes: &[u8], off: usize) -> u32 {
    u32::from_le_bytes([bytes[off], bytes[off + 1], bytes[off + 2], bytes[off + 3]])
}

fn u64_le(bytes: &[u8], off: usize) -> u64 {
    let mut b = [0u8; 8];
    b.copy_from_slice(&bytes[off..off + 8]);
    u64::from_le_bytes(b)
}

fn sample_system() -> SystemInfoFacts {
    SystemInfoFacts {
        os_version: String::from("17.4.1"),
        build: String::from("21E236"),
        number_of_processors: 6,
        cpu_family: 0x8765_4321,
        is_x86_simulator: false,
    }
}

fn sample_misc() -> MiscInfoFacts {
    MiscInfoFacts {
        process_id: 4242,
        process_create_time: 1_700_000_000,
        process_user_time: 12,
        process_kernel_time: 7,
    }
}

fn stack_region() -> VMRegionInfo {
    VMRegionInfo {
        start: 0x7000_0000,
        end: 0x7000_4000,
        user_tag: VM_MEMORY_STACK,
        protection: VM_PROT_READ,
    }
}

fn sample_thread(tid: u32, sp: u64, stack_bytes: Option<Vec<u8>>) -> ThreadCapture {
    ThreadCapture {
        tid,
        suspend_count: 0,
        priority: 0,
        state: Some(ThreadState {
            sp,
            pc: 0x1000_0000,
            context: vec![0xAA; 32],
        }),
        stack_read: stack_bytes,
    }
}

fn sample_snapshot(threads: Vec<ThreadCapture>) -> TaskSnapshot {
    TaskSnapshot {
        threads,
        regions: vec![stack_region()],
        images: Vec::new(),
        system: sample_system(),
        misc: sample_misc(),
        ip_memory: None,
        time_date_stamp: 1_234_567_890,
    }
}

#[test]
fn test_dump_header_and_directory() {
    let mut writer = MinidumpWriter::new();
    let threads = vec![
        sample_thread(11, 0x7000_1000, Some(vec![0u8; 0x3000])),
        sample_thread(12, 0, None),
    ];
    let out = writer.dump(sample_snapshot(threads)).expect("dump failed");

    // Header: signature, version, stream count, directory offset, timestamp.
    assert_eq!(u32_le(&out, 0), 0x504d444d);
    assert_eq!(u32_le(&out, 4), 0xa793);
    let stream_count = u32_le(&out, 8);
    assert_eq!(stream_count, 7);
    assert_eq!(u32_le(&out, 12), 32);
    assert_eq!(u32_le(&out, 16), 0);
    assert_eq!(u32_le(&out, 20), 1_234_567_890);

    // Directory: entries lie within the dump and never overlap.
    let mut ranges: Vec<(u32, u32)> = Vec::new();
    for i in 0..stream_count as usize {
        let base = 32 + 12 * i;
        let size = u32_le(&out, base + 4);
        let rva = u32_le(&out, base + 8);
        assert!(rva as usize + size as usize <= out.len());
        assert!(rva >= 32 + 12 * stream_count);
        ranges.push((rva, size));
    }
    for i in 0..ranges.len() {
        for j in (i + 1)..ranges.len() {
            let (ra, sa) = ranges[i];
            let (rb, _sb) = ranges[j];
            assert!(ra + sa <= rb, "directory entries must not overlap");
        }
    }

    // No exception stream without a crash context.
    for i in 0..stream_count as usize {
        assert_ne!(u32_le(&out, 32 + 12 * i), 6);
    }
}

#[test]
fn test_dump_thread_list_contents() {
    let mut writer = MinidumpWriter::new();
    let stack = vec![0x5Au8; 0x3000];
    let threads = vec![
        sample_thread(21, 0x7000_1000, Some(stack)),
        sample_thread(22, 0, None),
    ];
    let out = writer.dump(sample_snapshot(threads)).expect("dump failed");

    // Entry 1 is the thread list.
    let base = 32 + 12;
    assert_eq!(u32_le(&out, base), 3);
    let size = u32_le(&out, base + 4);
    let rva = u32_le(&out, base + 8) as usize;
    // The leading count equals the number of retained threads.
    assert_eq!(u32_le(&out, rva), 2);
    assert_eq!(size, 4 + 48 * 2);

    // First thread: real stack, 0x3000 bytes at its stack pointer.
    let t0 = rva + 4;
    assert_eq!(u32_le(&out, t0), 21);
    assert_eq!(u64_le(&out, t0 + 24), 0x7000_1000);
    assert_eq!(u32_le(&out, t0 + 32), 0x3000);

    // Second thread: null stack pointer gives the sentinel with its fixed
    // 16-byte payload — the sentinel value written twice.
    let t1 = rva + 4 + 48;
    assert_eq!(u32_le(&out, t1), 22);
    assert_eq!(u64_le(&out, t1 + 24), 0xdeadbeef);
    assert_eq!(u32_le(&out, t1 + 32), 16);
    let payload_rva = u32_le(&out, t1 + 36) as usize;
    assert_eq!(u64_le(&out, payload_rva), 0xdeadbeef);
    assert_eq!(u64_le(&out, payload_rva + 8), 0xdeadbeef);
}

#[test]
fn test_dump_exception_stream_last() {
    let crash = IosCrashContext {
        task: 1,
        thread: 31,
        handler_thread: 32,
        exception: Some(IosExceptionInfo {
            kind: 1,
            code: 13,
            subcode: Some(0xdead_0000),
        }),
        thread_state: ThreadState {
            sp: 0x7000_2000,
            pc: 0x1000_0400,
            context: vec![0xBB; 16],
        },
    };
    let mut writer = MinidumpWriter::with_crash_context(crash);
    let threads = vec![
        sample_thread(31, 0x7000_2000, Some(vec![1u8; 0x2000])),
        sample_thread(32, 0x7000_1000, Some(vec![2u8; 0x3000])),
    ];
    let out = writer.dump(sample_snapshot(threads)).expect("dump failed");

    let stream_count = u32_le(&out, 8);
    assert_eq!(stream_count, 8);
    // The exception stream is the last directory entry, and only the last.
    assert_eq!(u32_le(&out, 32 + 12 * 7), 6);
    for i in 0..7 {
        assert_ne!(u32_le(&out, 32 + 12 * i), 6);
    }

    // Its record names the crashed thread and the exception.
    let rva = u32_le(&out, 32 + 12 * 7 + 8) as usize;
    assert_eq!(u32_le(&out, rva), 31); // thread id
    assert_eq!(u32_le(&out, rva + 8), 1); // exception code
    assert_eq!(u32_le(&out, rva + 12), 13); // exception flags
    assert_eq!(u64_le(&out, rva + 24), 0xdead_0000); // exception address
}

fn image(load: u64, vm_addr: u64, vm_size: u64) -> ImageCapture {
    ImageCapture {
        info: ImageInfo {
            load_address: load,
            file_path: 0,
            file_mod_date: 0,
        },
        load_commands: vec![
            LoadCommandFact::Segment {
                segment_name: b"__TEXT\0\0".to_vec(),
                vm_addr,
                vm_size,
            },
            LoadCommandFact::Uuid {
                uuid: vec![9u8; 16],
            },
            LoadCommandFact::Dylib {
                current_version: 0x0001_0203,
            },
        ],
        file_path: Some(String::from("/usr/lib/sample.dylib")),
    }
}

#[test]
fn test_dump_module_list_sorted_by_base() {
    let mut snapshot = sample_snapshot(vec![sample_thread(1, 0, None)]);
    snapshot.images = vec![
        image(0x3000_0000, 0x1000, 0x2000),
        image(0x1000_0000, 0x1000, 0x2000),
        image(0x1000_0000, 0x1000, 0x2000), // duplicate, must be dropped
        image(0x2000_0000, 0x4000, 0x1000),
    ];
    let mut writer = MinidumpWriter::new();
    let out = writer.dump(snapshot).expect("dump failed");

    // Entry 3 is the module list.
    let base = 32 + 12 * 3;
    assert_eq!(u32_le(&out, base), 4);
    let rva = u32_le(&out, base + 8) as usize;
    assert_eq!(u32_le(&out, rva), 3); // deduplicated count

    // Modules are sorted by base address, and the base is the actual load
    // address: preferred address plus slide.
    let m0 = rva + 4;
    assert_eq!(u64_le(&out, m0), 0x1000_0000);
    assert_eq!(u64_le(&out, m0 + 108), 0x2000_0000);
    assert_eq!(u64_le(&out, m0 + 216), 0x3000_0000);
    // Sizes come from the text segment.
    assert_eq!(u32_le(&out, m0 + 8), 0x2000);
    assert_eq!(u32_le(&out, m0 + 108 + 8), 0x1000);
}

#[test]
fn test_dump_skips_unresolvable_image() {
    let mut snapshot = sample_snapshot(vec![sample_thread(1, 0, None)]);
    snapshot.images = vec![ImageCapture {
        info: ImageInfo {
            load_address: 0x5000_0000,
            file_path: 0,
            file_mod_date: 0,
        },
        load_commands: vec![LoadCommandFact::Other],
        file_path: None,
    }];
    let mut writer = MinidumpWriter::new();
    let out = writer.dump(snapshot).expect("dump failed");

    let base = 32 + 12 * 3;
    assert_eq!(u32_le(&out, base), 4);
    let rva = u32_le(&out, base + 8) as usize;
    // The image missing its text segment and identifier is skipped, not
    // fatal.
    assert_eq!(u32_le(&out, rva), 0);
}

#[test]
fn test_calculate_stack_size_zero_pointer() {
    let regions = vec![stack_region()];
    assert_eq!(calculate_stack_size(0, &regions), 0);
}

#[test]
fn test_calculate_stack_size_below_region() {
    let regions = vec![stack_region()];
    // The pointer lies below the region the kernel reports: corruption, so 0.
    assert_eq!(calculate_stack_size(0x6fff_0000, &regions), 0);
}

#[test]
fn test_calculate_stack_size_within_region() {
    let regions = vec![stack_region()];
    assert_eq!(
        calculate_stack_size(0x7000_1000, &regions),
        0x7000_4000 - 0x7000_1000
    );
}

#[test]
fn test_calculate_stack_size_coalesces_adjacent_stack_regions() {
    let regions = vec![
        stack_region(),
        VMRegionInfo {
            start: 0x7000_4000,
            end: 0x7000_8000,
            user_tag: VM_MEMORY_STACK,
            protection: VM_PROT_READ,
        },
        // Contiguous but not stack-tagged: the walk stops here.
        VMRegionInfo {
            start: 0x7000_8000,
            end: 0x7000_9000,
            user_tag: 0,
            protection: VM_PROT_READ,
        },
    ];
    assert_eq!(
        calculate_stack_size(0x7000_1000, &regions),
        0x7000_8000 - 0x7000_1000
    );
}

#[test]
fn test_ip_memory_range_clipping() {
    let region = VMRegionInfo {
        start: 0x1000,
        end: 0x2000,
        user_tag: 0,
        protection: VM_PROT_READ,
    };
    // Mid-region: 128 bytes each side.
    assert_eq!(ip_memory_range(0x1800, &region), Some((0x1780, 0x1880)));
    // Near the region start: clipped below.
    assert_eq!(ip_memory_range(0x1010, &region), Some((0x1000, 0x1090)));
    // Near the region end: clipped above.
    assert_eq!(ip_memory_range(0x1ff0, &region), Some((0x1f70, 0x2000)));
    // Outside the region: nothing.
    assert_eq!(ip_memory_range(0x3000, &region), None);
}

#[test]
fn test_ios_version_parsing_exact() {
    assert_eq!(ios_version("17.4.1"), (17, 4, 1));
    assert_eq!(ios_version("12.5"), (12, 5, 0));
    assert_eq!(ios_version("12.5.1.9"), (12, 5, 1));
    assert_eq!(ios_version("17.4.x"), (17, 4, 0));
    assert_eq!(ios_version("17"), (0, 0, 0));
    assert_eq!(ios_version("banana"), (0, 0, 0));
    assert_eq!(ios_version(""), (0, 0, 0));
    assert_eq!(ios_version("+3.4"), (3, 4, 0));
    assert_eq!(ios_version("99999999999.1"), (0, 0, 0));
}

#[test]
fn test_write_string_utf16() {
    let mut buf = DumpBuf::new();
    let loc = write_string_to_location(&mut buf, "ab€").expect("write failed");
    let bytes = buf.into_vec();
    assert_eq!(loc.rva, 0);
    // Length prefix counts UTF-16 bytes: 'a', 'b', and the euro sign, two
    // bytes each.
    assert_eq!(u32_le(&bytes, 0), 6);
    assert_eq!(&bytes[4..10], &[0x61, 0x00, 0x62, 0x00, 0xAC, 0x20]);
}

fn text_mapping(start: usize, size: usize, execute: bool) -> MappingInfo {
    MappingInfo {
        start_address: start,
        size,
        offset: 0,
        permissions: Permissions {
            read: true,
            write: !execute,
            execute,
        },
        name: None,
        system_mapping_info: SystemMappingInfo {
            start_address: start,
            end_address: start + size,
        },
    }
}

fn sample_dumper() -> PtraceDumper {
    let mappings = vec![
        text_mapping(0x0040_0000, 0x1000, true), // executable
        text_mapping(0x7f00_0000, 0x4000, false), // the stack
    ];
    PtraceDumper::new_report_soft_errors(100, 200, Vec::new(), mappings, 4096)
        .expect("construction failed")
}

#[test]
fn test_sanitize_preserves_small_integers() {
    let dumper = sample_dumper();
    let mut stack: Vec<u8> = Vec::new();
    stack.extend_from_slice(&4096u64.to_le_bytes());
    stack.extend_from_slice(&(-8i64).to_le_bytes());
    dumper
        .sanitize_stack_copy(&mut stack, 0x7f00_0100, 0)
        .expect("sanitize failed");
    assert_eq!(u64_le(&stack, 0), 4096, "failed to keep a small integer");
    assert_eq!(
        u64_le(&stack, 8),
        (-8i64) as u64,
        "failed to keep a small negative integer"
    );
}

#[test]
fn test_sanitize_defaces_ascii_text() {
    let dumper = sample_dumper();
    let mut stack: Vec<u8> = b"abcdefghijklmnop".to_vec();
    dumper
        .sanitize_stack_copy(&mut stack, 0x7f00_0100, 0)
        .expect("sanitize failed");
    assert_eq!(u64_le(&stack, 0), 0x0defaced0defaced, "failed to deface text");
    assert_eq!(u64_le(&stack, 8), 0x0defaced0defaced, "failed to deface text");
}

#[test]
fn test_sanitize_keeps_code_and_stack_pointers() {
    let dumper = sample_dumper();
    let mut stack: Vec<u8> = Vec::new();
    stack.extend_from_slice(&0x0040_0800u64.to_le_bytes()); // into the code
    stack.extend_from_slice(&0x7f00_2000u64.to_le_bytes()); // into the stack
    dumper
        .sanitize_stack_copy(&mut stack, 0x7f00_0100, 0)
        .expect("sanitize failed");
    assert_eq!(u64_le(&stack, 0), 0x0040_0800, "failed to keep a code pointer");
    assert_eq!(u64_le(&stack, 8), 0x7f00_2000, "failed to keep a stack pointer");
}

#[test]
fn test_sanitize_zeroes_below_offset_and_partial_word() {
    let dumper = sample_dumper();
    let mut stack: Vec<u8> = vec![0xFF; 21];
    dumper
        .sanitize_stack_copy(&mut stack, 0x7f00_0100, 7)
        .expect("sanitize failed");
    // Bytes below the word-rounded offset are zeroed.
    for (i, b) in stack.iter().enumerate().take(8) {
        assert_eq!(*b, 0, "byte {i} below the offset must be zero");
    }
    // The trailing partial word is zeroed.
    for (i, b) in stack.iter().enumerate().skip(16) {
        assert_eq!(*b, 0, "trailing byte {i} must be zero");
    }
}

#[test]
fn test_get_stack_info_probes_past_guard_page() {
    let dumper = sample_dumper();
    // A pointer below the stack mapping, within the one-mebibyte guard range:
    // probing upward finds the stack.
    let (sp, len) = dumper
        .get_stack_info(0x7eff_f800)
        .expect("stack info failed");
    assert_eq!(sp, 0x7f00_0000);
    assert_eq!(len, 0x4000);

    // Inside the mapping, the rounded pointer is used as is.
    let (sp, len) = dumper
        .get_stack_info(0x7f00_1234)
        .expect("stack info failed");
    assert_eq!(sp, 0x7f00_1000);
    assert_eq!(len, 0x3000);
}

#[test]
fn test_find_mapping_merged_and_system() {
    let dumper = sample_dumper();
    let m = dumper.find_mapping(0x0040_0800).expect("mapping not found");
    assert_eq!(m.start_address, 0x0040_0000);
    assert!(dumper.find_mapping(0x0060_0000).is_none());
    let m = dumper
        .find_mapping_no_bias(0x7f00_0001)
        .expect("mapping not found");
    assert_eq!(m.start_address, 0x7f00_0000);
}

#[test]
fn test_dumper_refuses_own_process() {
    let r = PtraceDumper::new_report_soft_errors(77, 77, Vec::new(), Vec::new(), 4096);
    assert!(r.is_err(), "a process must not trace itself");
}

#[test]
fn test_get_thread_info_by_index_bounds() {
    let dumper = sample_dumper();
    assert!(dumper.get_thread_info_by_index(0).is_err());
}

#[test]
fn test_misc_and_breakpad_contents() {
    let mut writer = MinidumpWriter::new();
    let out = writer
        .dump(sample_snapshot(vec![sample_thread(5, 0, None)]))
        .expect("dump failed");

    // Entry 4 is the misc-info stream.
    let rva = u32_le(&out, 32 + 12 * 4 + 8) as usize;
    assert_eq!(u32_le(&out, rva), 44); // size_of_info
    assert_eq!(u32_le(&out, rva + 4), 3); // process id and times valid
    assert_eq!(u32_le(&out, rva + 8), 4242);
    assert_eq!(u32_le(&out, rva + 12), 1_700_000_000);

    // Entry 5 is the breakpad-info stream; without a crash context both
    // thread ids are zero but marked valid.
    let rva = u32_le(&out, 32 + 12 * 5 + 8) as usize;
    assert_eq!(u32_le(&out, rva), 3);
    assert_eq!(u32_le(&out, rva + 4), 0);
    assert_eq!(u32_le(&out, rva + 8), 0);
}

#[test]
fn test_system_info_stream_contents() {
    let mut writer = MinidumpWriter::new();
    let out = writer
        .dump(sample_snapshot(vec![sample_thread(5, 0, None)]))
        .expect("dump failed");

    // Entry 0 is the system-info stream.
    let size = u32_le(&out, 32 + 4) as usize;
    let rva = u32_le(&out, 32 + 8) as usize;
    assert_eq!(size, 56);
    // Architecture: the older ARM64 value off the simulator.
    assert_eq!(
        u16::from_le_bytes([out[rva], out[rva + 1]]),
        0x8003
    );
    // Version parsed from "17.4.1".
    assert_eq!(u32_le(&out, rva + 8), 17);
    assert_eq!(u32_le(&out, rva + 12), 4);
    assert_eq!(u32_le(&out, rva + 16), 1);
    // Platform id.
    assert_eq!(u32_le(&out, rva + 20), 0x8102);
}

#[test]
fn test_thread_names_stream_excludes_handler() {
    let crash = IosCrashContext {
        task: 1,
        thread: 41,
        handler_thread: 42,
        exception: None,
        thread_state: ThreadState {
            sp: 0,
            pc: 0,
            context: Vec::new(),
        },
    };
    let mut writer = MinidumpWriter::with_crash_context(crash);
    let threads = vec![sample_thread(41, 0, None), sample_thread(42, 0, None)];
    let out = writer.dump(sample_snapshot(threads)).expect("dump failed");

    // Entry 6 is the thread-names stream.
    let rva = u32_le(&out, 32 + 12 * 6 + 8) as usize;
    assert_eq!(u32_le(&out, rva), 1, "the handler thread is excluded");
    assert_eq!(u32_le(&out, rva + 4), 41);
    assert_eq!(u64_le(&out, rva + 8), 0, "names are unavailable");
}

#[test]
fn test_string_from_task_bytes() {
    // Bytes stop at the first NUL.
    let r = string_from_task_bytes(b"hello\0world".to_vec()).expect("decode failed");
    assert_eq!(r.as_deref(), Some("hello"));
    // A leading NUL or no bytes at all is no string, not an error.
    assert_eq!(
        string_from_task_bytes(b"\0abc".to_vec()).expect("decode failed"),
        None
    );
    assert_eq!(
        string_from_task_bytes(Vec::new()).expect("decode failed"),
        None
    );
    // Multibyte text survives decoding.
    let r = string_from_task_bytes("grüß\0".as_bytes().to_vec()).expect("decode failed");
    assert_eq!(r.as_deref(), Some("grüß"));
    // Invalid UTF-8 before the NUL fails, and exactly then.
    assert!(string_from_task_bytes(vec![0xFF, 0xFE, 0x00]).is_err());
}

#[test]
fn test_string_read_length_cap() {
    // The caller's expected size wins, capped at 8 KiB.
    assert_eq!(string_read_length(0x10000, 0x100, Some(64)), 64);
    assert_eq!(string_read_length(0x10000, 0x100, Some(100000)), 8192);
    // Without one, the rest of the region, capped at 8 KiB.
    assert_eq!(string_read_length(0x1100, 0x100, None), 0x1000);
    assert_eq!(string_read_length(0x100000, 0x100, None), 8192);
}

#[test]
fn test_page_span_bounds() {
    assert_eq!(page_span(0x1234, 0x10, 0x1000), (0x1000, 0x2000));
    assert_eq!(page_span(0x1000, 0x1000, 0x1000), (0x1000, 0x2000));
    assert_eq!(page_span(0x1ff0, 0x20, 0x1000), (0x1000, 0x3000));
}

#[test]
fn test_memory_list_includes_exception_memory() {
    let mut snapshot = sample_snapshot(vec![
        sample_thread(51, 0x7000_1000, Some(vec![3u8; 0x100])),
    ]);
    snapshot.ip_memory = Some(IpMemoryCapture {
        base: 0x1000_0380,
        bytes: vec![0xC3; 256],
    });
    let mut writer = MinidumpWriter::new();
    let out = writer.dump(snapshot).expect("dump failed");

    // Entry 2 is the memory list: one thread stack plus the bytes around the
    // faulting instruction pointer.
    let rva = u32_le(&out, 32 + 12 * 2 + 8) as usize;
    assert_eq!(u32_le(&out, rva), 2);
    // The first descriptor is the stack, the second the exception-adjacent
    // block.
    assert_eq!(u64_le(&out, rva + 4), 0x7000_1000);
    assert_eq!(u64_le(&out, rva + 4 + 16), 0x1000_0380);
    let ip_size = u32_le(&out, rva + 4 + 16 + 8);
    assert_eq!(ip_size, 256);
}
