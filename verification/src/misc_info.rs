//! The misc-info stream: process identity and the process's user and kernel
//! time at second granularity. Processor-frequency fields are left zero.

use vstd::prelude::*;

use crate::errors::StreamError;
use crate::mem_writer::DumpBuf;
use crate::minidump_format::{
    MDLocationDescriptor, MDMiscInfo2, MDRawDirectory, MDStreamType, MD_MISC_INFO_2_SIZE,
    MISC_INFO_FLAG_PROCESS_ID, MISC_INFO_FLAG_PROCESS_TIMES,
};
use crate::minidump_writer::{buf_extended, MinidumpWriter};
use crate::snapshot::MiscInfoFacts;

verus! {

/// The misc-info record written for the given process facts: its id and times
/// marked valid, frequency fields zero.
pub open spec fn spec_misc_info(misc: MiscInfoFacts) -> MDMiscInfo2 {
    MDMiscInfo2 {
        size_of_info: MD_MISC_INFO_2_SIZE,
        flags1: MISC_INFO_FLAG_PROCESS_ID | MISC_INFO_FLAG_PROCESS_TIMES,
        process_id: misc.process_id,
        process_create_time: misc.process_create_time,
        process_user_time: misc.process_user_time,
        process_kernel_time: misc.process_kernel_time,
        processor_max_mhz: 0,
        processor_current_mhz: 0,
        processor_mhz_limit: 0,
        processor_max_idle_state: 0,
        processor_current_idle_state: 0,
    }
}

impl MinidumpWriter {
    /// Writes the misc-info stream from the captured process facts.
    /// Fails if and only if the record would push the buffer past the 32-bit
    /// offset space; the buffer is then unchanged.
    pub fn write_misc_info(&mut self, buffer: &mut DumpBuf, misc: &MiscInfoFacts) -> (r: Result<
        MDRawDirectory,
        StreamError,
    >)
        requires
            old(buffer).wf(),
        ensures
            final(buffer).wf(),
            buf_extended(old(buffer).bytes(), final(buffer).bytes()),
            *final(self) == *old(self),
            match r {
                Ok(dirent) => {
                    &&& dirent.stream_type == MDStreamType::MiscInfoStream.spec_value()
                    &&& dirent.location.rva == old(buffer).bytes().len()
                    &&& dirent.location.data_size == MD_MISC_INFO_2_SIZE
                    &&& dirent.location.rva + dirent.location.data_size <= final(buffer).bytes().len()
                    &&& final(buffer).bytes() == old(buffer).bytes() + spec_misc_info(
                        *misc,
                    ).spec_bytes()
                },
                Err(_) => {
                    &&& final(buffer).bytes() == old(buffer).bytes()
                    &&& old(buffer).bytes().len() + MD_MISC_INFO_2_SIZE > u32::MAX
                },
            },
    {
        let info = MDMiscInfo2 {
            size_of_info: MD_MISC_INFO_2_SIZE,
            flags1: MISC_INFO_FLAG_PROCESS_ID | MISC_INFO_FLAG_PROCESS_TIMES,
            process_id: misc.process_id,
            process_create_time: misc.process_create_time,
            process_user_time: misc.process_user_time,
            process_kernel_time: misc.process_kernel_time,
            processor_max_mhz: 0,
            processor_current_mhz: 0,
            processor_mhz_limit: 0,
            processor_max_idle_state: 0,
            processor_current_idle_state: 0,
        };
        let mut encoded: Vec<u8> = Vec::new();
        info.write_into(&mut encoded);
        let rva = match buffer.write_all(encoded.as_slice()) {
            Ok(rva) => rva,
            Err(e) => {
                return Err(StreamError::MemoryWriterError(e));
            },
        };
        Ok(MDRawDirectory {
            stream_type: MDStreamType::MiscInfoStream.value(),
            location: MDLocationDescriptor { data_size: encoded.len() as u32, rva },
        })
    }
}

} // verus!
