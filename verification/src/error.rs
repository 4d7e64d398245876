//! Error values of the collector.

use vstd::prelude::*;

verus! {

/// Status of the native path formatter when the buffer handed to it is too
/// small to hold the path: the expected sentinel of the sizing phase, and the
/// failure of a fill into an undersized buffer (0x800007D2).
pub const PDH_MORE_DATA: i32 = -2147481646;

/// Status of a native call made through a handle that is no longer valid,
/// here the outcome of using a controller after its query was released
/// (0xC0000BBC).
pub const PDH_INVALID_HANDLE: i32 = -1073738820;

/// The system error code for arguments a call cannot accept, here text that
/// cannot be carried in a nul-terminated wide string.
pub const ERROR_BAD_ARGUMENTS: i32 = 160;

/// A failure around the counter query: a status code of the counter
/// subsystem (signed, negative when failed), a general system error code,
/// or a described failure.
#[derive(Debug, PartialEq)]
pub enum PdhCollectError {
    PdhStatus(i32),
    WinError(i32),
    Other(String),
}

} // verus!
