//! The Linux dumper: memory-mapping records and the thread controller and
//! stack sanitizer built on process tracing.

pub mod maps_reader;
pub mod ptrace_dumper;
