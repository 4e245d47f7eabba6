//! Classification of the status codes of process property calls.
use vstd::prelude::*;

use crate::gpu_priority::{status_bits, STATUS_INVALID_PARAMETER, STATUS_PROCESS_IS_TERMINATING};

verus! {

/// How a GPU scheduling call failed.
#[derive(Debug, Clone, Copy, PartialEq, Eq, Structural)]
pub enum GpuStatusError {
    ProcessExited,
    ContextUnavailable,
    NtStatus(u32),
}

/// How an I/O priority call failed.
#[derive(Debug, Clone, Copy, PartialEq, Eq, Structural)]
pub enum IoStatusError {
    ProcessExited,
    NtStatus(u32),
}

/// Classifies a GPU scheduling status: success, a terminating process, no GPU
/// context yet, or the raw failure code.
pub fn gpu_status_result(status: i32) -> (r: Result<(), GpuStatusError>)
    ensures
        status >= 0 ==> r is Ok,
        status < 0 ==> r == Err::<(), GpuStatusError>(
            if status_bits(status) == STATUS_PROCESS_IS_TERMINATING {
                GpuStatusError::ProcessExited
            } else if status_bits(status) == STATUS_INVALID_PARAMETER {
                GpuStatusError::ContextUnavailable
            } else {
                GpuStatusError::NtStatus(status_bits(status) as u32)
            },
        ),
{
    if status >= 0 {
        return Ok(());
    }
    let bits: u32 = (status as i64 + 0x1_0000_0000) as u32;
    if bits == STATUS_PROCESS_IS_TERMINATING {
        Err(GpuStatusError::ProcessExited)
    } else if bits == STATUS_INVALID_PARAMETER {
        Err(GpuStatusError::ContextUnavailable)
    } else {
        Err(GpuStatusError::NtStatus(bits))
    }
}

/// Classifies an I/O priority status: success, a terminating process, or the
/// raw failure code.
pub fn io_status_result(status: i32) -> (r: Result<(), IoStatusError>)
    ensures
        status >= 0 ==> r is Ok,
        status < 0 ==> r == Err::<(), IoStatusError>(
            if status_bits(status) == STATUS_PROCESS_IS_TERMINATING {
                IoStatusError::ProcessExited
            } else {
                IoStatusError::NtStatus(status_bits(status) as u32)
            },
        ),
{
    if status >= 0 {
        return Ok(());
    }
    let bits: u32 = (status as i64 + 0x1_0000_0000) as u32;
    if bits == STATUS_PROCESS_IS_TERMINATING {
        Err(IoStatusError::ProcessExited)
    } else {
        Err(IoStatusError::NtStatus(bits))
    }
}

} // verus!
