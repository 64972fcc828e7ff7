//! Constants of the Everything SDK header (`Everything.h`).

use vstd::prelude::*;

verus! {

pub const EVERYTHING_OK: u32 = 0;
pub const EVERYTHING_ERROR_MEMORY: u32 = 1;
pub const EVERYTHING_ERROR_IPC: u32 = 2;
pub const EVERYTHING_ERROR_REGISTERCLASSEX: u32 = 3;
pub const EVERYTHING_ERROR_CREATEWINDOW: u32 = 4;
pub const EVERYTHING_ERROR_CREATETHREAD: u32 = 5;
pub const EVERYTHING_ERROR_INVALIDINDEX: u32 = 6;
pub const EVERYTHING_ERROR_INVALIDCALL: u32 = 7;
pub const EVERYTHING_ERROR_INVALIDREQUEST: u32 = 8;
pub const EVERYTHING_ERROR_INVALIDPARAMETER: u32 = 9;

pub const EVERYTHING_REQUEST_FILE_NAME: u32 = 0x0000_0001;
pub const EVERYTHING_REQUEST_PATH: u32 = 0x0000_0002;
pub const EVERYTHING_REQUEST_FULL_PATH_AND_FILE_NAME: u32 = 0x0000_0004;
pub const EVERYTHING_REQUEST_EXTENSION: u32 = 0x0000_0008;
pub const EVERYTHING_REQUEST_SIZE: u32 = 0x0000_0010;
pub const EVERYTHING_REQUEST_DATE_CREATED: u32 = 0x0000_0020;
pub const EVERYTHING_REQUEST_DATE_MODIFIED: u32 = 0x0000_0040;
pub const EVERYTHING_REQUEST_DATE_ACCESSED: u32 = 0x0000_0080;
pub const EVERYTHING_REQUEST_ATTRIBUTES: u32 = 0x0000_0100;

/// Win32 `BOOL`.
pub type BOOL = i32;

/// Win32 `FILETIME`: 100 ns ticks since 1601-01-01 UTC, in two halves.
#[allow(non_snake_case)]
#[derive(Debug, Clone, Copy, PartialEq, Eq, Structural)]
pub struct FILETIME {
    pub dwLowDateTime: u32,
    pub dwHighDateTime: u32,
}

} // verus!
