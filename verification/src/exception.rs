//! The exception stream: which thread crashed, the exception that was raised,
//! and where that thread's CPU context lies in the dump.

use vstd::prelude::*;

use crate::crash_context::IosCrashContext;
use crate::errors::StreamError;
use crate::mem_writer::DumpBuf;
use crate::minidump_format::{
    le32, le64, le64_seq, lemma_le64_seq_len, MDException, MDLocationDescriptor, MDRawDirectory,
    MDRawExceptionStream, MDStreamType, MD_EXCEPTION_STREAM_SIZE,
};
use crate::minidump_writer::{buf_extended, MinidumpWriter};

verus! {

/// The exception code recorded: the exception kind, or zero without details.
pub open spec fn spec_exception_code(crash: Option<IosCrashContext>) -> u32 {
    match crash {
        Some(cc) => match cc.exception {
            Some(exc) => exc.kind,
            None => 0,
        },
        None => 0,
    }
}

/// The exception flags recorded: the exception's code, truncated to 32 bits.
pub open spec fn spec_exception_flags(crash: Option<IosCrashContext>) -> u32 {
    match crash {
        Some(cc) => match cc.exception {
            Some(exc) => exc.code as u32,
            None => 0,
        },
        None => 0,
    }
}

/// The exception address recorded: the exception's subcode — typically the
/// address that was accessed — or zero.
pub open spec fn spec_exception_address(crash: Option<IosCrashContext>) -> u64 {
    match crash {
        Some(cc) => match cc.exception {
            Some(exc) => match exc.subcode {
                Some(sub) => sub,
                None => 0,
            },
            None => 0,
        },
        None => 0,
    }
}

/// The crashed thread id recorded, zero without a crash context.
pub open spec fn spec_exception_thread(crash: Option<IosCrashContext>) -> u32 {
    match crash {
        Some(cc) => cc.thread,
        None => 0,
    }
}

/// The exact bytes of the exception stream for the given crash context and
/// crashing-thread context location.
pub open spec fn spec_exception_stream_bytes(
    crash: Option<IosCrashContext>,
    thread_context: Option<MDLocationDescriptor>,
) -> Seq<u8> {
    le32(spec_exception_thread(crash)) + le32(0u32) + le32(spec_exception_code(crash)) + le32(
        spec_exception_flags(crash),
    ) + le64(0u64) + le64(spec_exception_address(crash)) + le32(0u32) + le32(0u32) + le64_seq(
        seq![0u64; 15],
    ) + (match thread_context {
        Some(loc) => loc,
        None => MDLocationDescriptor { data_size: 0, rva: 0 },
    }).spec_bytes()
}

impl MinidumpWriter {
    /// Writes the exception stream from the crash context and the crashing
    /// thread's context location recorded by the thread-list writer.
    /// Fails if and only if the record would push the buffer past the 32-bit
    /// offset space; the buffer is then unchanged.
    pub fn write_exception(&mut self, buffer: &mut DumpBuf) -> (r: Result<
        MDRawDirectory,
        StreamError,
    >)
        requires
            old(buffer).wf(),
        ensures
            final(buffer).wf(),
            buf_extended(old(buffer).bytes(), final(buffer).bytes()),
            *final(self) == *old(self),
            match r {
                Ok(dirent) => {
                    &&& dirent.stream_type == MDStreamType::ExceptionStream.spec_value()
                    &&& dirent.location.rva == old(buffer).bytes().len()
                    &&& dirent.location.data_size == MD_EXCEPTION_STREAM_SIZE
                    &&& dirent.location.rva + dirent.location.data_size <= final(buffer).bytes().len()
                    &&& final(buffer).bytes() == old(buffer).bytes()
                        + spec_exception_stream_bytes(
                        old(self).crash_context,
                        old(self).crashing_thread_context,
                    )
                    &&& final(buffer).bytes().len() == old(buffer).bytes().len()
                        + MD_EXCEPTION_STREAM_SIZE
                },
                Err(_) => {
                    &&& final(buffer).bytes() == old(buffer).bytes()
                    &&& old(buffer).bytes().len() + MD_EXCEPTION_STREAM_SIZE > u32::MAX
                },
            },
    {
        let exception_record = match &self.crash_context {
            Some(cc) => match &cc.exception {
                Some(exc) => MDException {
                    exception_code: exc.kind,
                    exception_flags: exc.code as u32,
                    exception_record: 0,
                    exception_address: match exc.subcode {
                        Some(sub) => sub,
                        None => 0,
                    },
                    number_parameters: 0,
                    __align: 0,
                    exception_information: [0; 15],
                },
                None => MDException::default(),
            },
            None => MDException::default(),
        };
        let crashed_thread_id = match &self.crash_context {
            Some(cc) => cc.thread,
            None => 0,
        };
        let thread_context = match &self.crashing_thread_context {
            Some(loc) => *loc,
            None => MDLocationDescriptor::default(),
        };
        let stream = MDRawExceptionStream {
            thread_id: crashed_thread_id,
            __align: 0,
            exception_record,
            thread_context,
        };
        proof {
            assert(stream.exception_record.exception_information@ =~= seq![0u64; 15]);
            lemma_le64_seq_len(stream.exception_record.exception_information@);
        }
        let mut encoded: Vec<u8> = Vec::new();
        stream.write_into(&mut encoded);
        assert(encoded@ =~= spec_exception_stream_bytes(
            old(self).crash_context,
            old(self).crashing_thread_context,
        ));
        let rva = match buffer.write_all(encoded.as_slice()) {
            Ok(rva) => rva,
            Err(e) => {
                return Err(StreamError::MemoryWriterError(e));
            },
        };
        Ok(MDRawDirectory {
            stream_type: MDStreamType::ExceptionStream.value(),
            location: MDLocationDescriptor { data_size: encoded.len() as u32, rva },
        })
    }
}

} // verus!
