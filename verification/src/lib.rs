//! A verified writer of minidump crash snapshots.
//!
//! The library turns facts extracted from a target task — its threads, memory
//! regions and mappings, loaded images, and an optional crash context — into
//! the exact byte layout that offline crash analyzers consume, and holds the
//! decision logic of the platform dumpers: stack-range recovery, pointer
//! scrubbing, thread suspension bookkeeping, and module resolution. The
//! syscalls and file reads that extract those facts stand at the edge,
//! outside the proofs.

pub mod breakpad_info;
pub mod crash_context;
pub mod dir_section;
pub mod dump;
pub mod errors;
pub mod exception;
pub mod linux;
pub mod mem_writer;
pub mod memory_list;
pub mod minidump_cpu;
pub mod minidump_format;
pub mod minidump_writer;
pub mod misc_info;
pub mod module_list;
pub mod snapshot;
pub mod system_info;
pub mod task_dumper;
pub mod thread_list;
pub mod thread_names;
pub mod types;
