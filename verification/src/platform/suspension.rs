//! The job-object freeze record and the classification of freeze failures.
use vstd::prelude::*;

use crate::text::decimal;
use crate::text::decimal_string;

verus! {

/// The information class of the job freeze operation.
pub const JOB_OBJECT_FREEZE_INFORMATION_CLASS: i32 = 18;

/// The flag that selects the freeze operation.
pub const JOB_OBJECT_FREEZE_OPERATION: u32 = 1;

/// Win32 `ERROR_NOT_SUPPORTED`.
pub const ERROR_NOT_SUPPORTED: u32 = 50;

/// The freeze request as the job object takes it (16 bytes, 4-aligned).
#[derive(Debug, Clone, Copy, PartialEq, Eq, Structural)]
pub struct JobObjectFreezeInformation {
    pub flags: u32,
    pub freeze: u8,
    pub swap: u8,
    pub spare: u16,
    pub wake_filter_high: u32,
    pub wake_filter_low: u32,
}

/// How a job-object operation failed.
#[derive(Debug, Clone, PartialEq, Eq)]
pub enum JobObjectError {
    Unsupported,
    Failed(String),
}

impl JobObjectFreezeInformation {
    /// A request to freeze (`true`) or thaw the job's processes.
    pub fn new(frozen: bool) -> (r: Self)
        ensures
            r.flags == JOB_OBJECT_FREEZE_OPERATION,
            r.freeze == (if frozen { 1u8 } else { 0u8 }),
            r.swap == 0 && r.spare == 0 && r.wake_filter_high == 0 && r.wake_filter_low == 0,
    {
        JobObjectFreezeInformation {
            flags: JOB_OBJECT_FREEZE_OPERATION,
            freeze: if frozen { 1 } else { 0 },
            swap: 0,
            spare: 0,
            wake_filter_high: 0,
            wake_filter_low: 0,
        }
    }
}

/// Classifies a failed freeze: an invalid parameter or unsupported request
/// means freezing is unsupported; anything else is a failure.
pub fn freeze_error(frozen: bool, error: u32) -> (r: JobObjectError)
    ensures
        (error == crate::gpu_priority::ERROR_INVALID_PARAMETER || error == ERROR_NOT_SUPPORTED) ==> r
            == JobObjectError::Unsupported,
        !(error == crate::gpu_priority::ERROR_INVALID_PARAMETER || error == ERROR_NOT_SUPPORTED) ==> r is Failed
            && r->Failed_0@ == "SetInformationJobObject freeze="@ + (if frozen { "true"@ } else { "false"@ })
            + " failed with error "@ + decimal(error as nat) + "."@,
{
    if error == crate::gpu_priority::ERROR_INVALID_PARAMETER || error == ERROR_NOT_SUPPORTED {
        JobObjectError::Unsupported
    } else {
        let mut s = String::from_str("SetInformationJobObject freeze=");
        s.append(if frozen { "true" } else { "false" });
        s.append(" failed with error ");
        s.append(decimal_string(error as u64).as_str());
        s.append(".");
        JobObjectError::Failed(s)
    }
}

} // verus!
