//! The breakpad-info stream: records which thread wrote the dump and which
//! thread raised the exception, so analyzers can deprioritize the handler's
//! own stack.

use vstd::prelude::*;

use crate::errors::StreamError;
use crate::mem_writer::DumpBuf;
use crate::minidump_format::{
    MDLocationDescriptor, MDRawBreakpadInfo, MDRawDirectory, MDStreamType,
    BREAKPAD_INFO_VALID_DUMP_THREAD_ID, BREAKPAD_INFO_VALID_REQUESTING_THREAD_ID,
};
use crate::minidump_writer::{buf_extended, MinidumpWriter};

verus! {

/// A writer that can say which thread handled the exception and which thread
/// raised it.
pub trait BreakpadInfoStream {
    /// The thread where the exception port handled the exception.
    spec fn spec_handler_thread(&self) -> u32;

    /// The thread where the exception was raised.
    spec fn spec_requesting_thread(&self) -> u32;

    /// Returns the handler thread id, zero when none is known.
    fn handler_thread(&self) -> (r: u32)
        ensures
            r == self.spec_handler_thread(),
    ;

    /// Returns the requesting thread id, zero when none is known.
    fn requesting_thread(&self) -> (r: u32)
        ensures
            r == self.spec_requesting_thread(),
    ;
}

impl BreakpadInfoStream for MinidumpWriter {
    open spec fn spec_handler_thread(&self) -> u32 {
        match self.handler_thread {
            Some(h) => h,
            None => 0,
        }
    }

    open spec fn spec_requesting_thread(&self) -> u32 {
        match self.crash_context {
            Some(cc) => cc.thread,
            None => 0,
        }
    }

    fn handler_thread(&self) -> (r: u32) {
        match self.handler_thread {
            Some(h) => h,
            None => 0,
        }
    }

    fn requesting_thread(&self) -> (r: u32) {
        match &self.crash_context {
            Some(cc) => cc.thread,
            None => 0,
        }
    }
}

/// The breakpad-info record this writer emits.
pub open spec fn spec_breakpad_info(w: MinidumpWriter) -> MDRawBreakpadInfo {
    MDRawBreakpadInfo {
        validity: BREAKPAD_INFO_VALID_DUMP_THREAD_ID | BREAKPAD_INFO_VALID_REQUESTING_THREAD_ID,
        dump_thread_id: w.spec_handler_thread(),
        requesting_thread_id: w.spec_requesting_thread(),
    }
}

impl MinidumpWriter {
    /// Writes the breakpad-info stream: the handler thread as the dump thread,
    /// the crashed thread as the requesting thread, both marked valid.
    /// Fails if and only if the record would push the buffer past the 32-bit
    /// offset space; the buffer is then unchanged.
    pub fn write_breakpad_info(&mut self, buffer: &mut DumpBuf) -> (r: Result<
        MDRawDirectory,
        StreamError,
    >)
        requires
            old(buffer).wf(),
        ensures
            final(buffer).wf(),
            buf_extended(old(buffer).bytes(), final(buffer).bytes()),
            *final(self) == *old(self),
            match r {
                Ok(dirent) => {
                    &&& dirent.stream_type == MDStreamType::BreakpadInfoStream.spec_value()
                    &&& dirent.location.rva == old(buffer).bytes().len()
                    &&& dirent.location.data_size == 12
                    &&& dirent.location.rva + dirent.location.data_size <= final(buffer).bytes().len()
                    &&& final(buffer).bytes() == old(buffer).bytes() + spec_breakpad_info(
                        *old(self),
                    ).spec_bytes()
                },
                Err(_) => {
                    &&& final(buffer).bytes() == old(buffer).bytes()
                    &&& old(buffer).bytes().len() + 12 > u32::MAX
                },
            },
    {
        let info = MDRawBreakpadInfo {
            validity: BREAKPAD_INFO_VALID_DUMP_THREAD_ID | BREAKPAD_INFO_VALID_REQUESTING_THREAD_ID,
            dump_thread_id: self.handler_thread(),
            requesting_thread_id: self.requesting_thread(),
        };
        let mut encoded: Vec<u8> = Vec::new();
        info.write_into(&mut encoded);
        let rva = match buffer.write_all(encoded.as_slice()) {
            Ok(rva) => rva,
            Err(e) => {
                return Err(StreamError::MemoryWriterError(e));
            },
        };
        Ok(MDRawDirectory {
            stream_type: MDStreamType::BreakpadInfoStream.value(),
            location: MDLocationDescriptor { data_size: encoded.len() as u32, rva },
        })
    }
}

} // verus!
