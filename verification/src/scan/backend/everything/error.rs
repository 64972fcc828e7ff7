//! Structured Everything SDK errors: one variant per `EVERYTHING_ERROR_*`
//! code, plus `Unknown` for codes this library does not know.

use vstd::prelude::*;
use super::ffi::sys;

verus! {

#[derive(Debug, Clone, Copy, PartialEq, Eq, Structural)]
pub enum EverythingError {
    /// Out of memory inside the SDK.
    Memory,
    /// The Everything service is not running.
    Ipc,
    /// The SDK could not register its listening window class.
    RegisterClassEx,
    /// The SDK could not create its listening window.
    CreateWindow,
    /// The SDK could not create its listening thread.
    CreateThread,
    /// A result accessor got an out-of-range index (a backend bug).
    InvalidIndex,
    /// SDK calls were made in the wrong order (a backend bug).
    InvalidCall,
    /// An accessor asked for a field the request flags did not include.
    InvalidRequest,
    /// A bad argument was passed (a backend bug).
    InvalidParameter,
    /// Any other code.
    Unknown(u32),
}

/// The variant that stands for a raw SDK error code.
pub open spec fn error_of_code(code: u32) -> EverythingError {
    if code == sys::EVERYTHING_ERROR_MEMORY {
        EverythingError::Memory
    } else if code == sys::EVERYTHING_ERROR_IPC {
        EverythingError::Ipc
    } else if code == sys::EVERYTHING_ERROR_REGISTERCLASSEX {
        EverythingError::RegisterClassEx
    } else if code == sys::EVERYTHING_ERROR_CREATEWINDOW {
        EverythingError::CreateWindow
    } else if code == sys::EVERYTHING_ERROR_CREATETHREAD {
        EverythingError::CreateThread
    } else if code == sys::EVERYTHING_ERROR_INVALIDINDEX {
        EverythingError::InvalidIndex
    } else if code == sys::EVERYTHING_ERROR_INVALIDCALL {
        EverythingError::InvalidCall
    } else if code == sys::EVERYTHING_ERROR_INVALIDREQUEST {
        EverythingError::InvalidRequest
    } else if code == sys::EVERYTHING_ERROR_INVALIDPARAMETER {
        EverythingError::InvalidParameter
    } else {
        EverythingError::Unknown(code)
    }
}

/// Whether the error means that Everything is simply not available.
pub open spec fn unavailable(e: EverythingError) -> bool {
    e is Ipc || e is RegisterClassEx || e is CreateWindow || e is CreateThread
}

/// The message shown for each error.
pub open spec fn message_text(e: EverythingError) -> Seq<char> {
    match e {
        EverythingError::Memory => "Everything SDK reported out-of-memory"@,
        EverythingError::Ipc => "Everything service is not running — start Everything and retry"@,
        EverythingError::RegisterClassEx => "Everything SDK could not register its listening window class"@,
        EverythingError::CreateWindow => "Everything SDK could not create its listening window"@,
        EverythingError::CreateThread => "Everything SDK could not create its listening thread"@,
        EverythingError::InvalidIndex => "Everything SDK call used an out-of-range result index (bug)"@,
        EverythingError::InvalidCall => "Everything SDK call sequenced incorrectly (bug)"@,
        EverythingError::InvalidRequest => "Everything SDK accessor asked for a field that wasn't in SetRequestFlags (bug)"@,
        EverythingError::InvalidParameter => "Everything SDK call passed a bad parameter (bug)"@,
        EverythingError::Unknown(code) => "Everything SDK returned unknown error code "@ + crate::text::decimal_spec(code as nat),
    }
}

impl EverythingError {
    /// Map a raw `Everything_GetLastError` code to its variant.
    pub fn from_last_error(code: u32) -> (r: Self)
        ensures
            r == error_of_code(code),
    {
        if code == sys::EVERYTHING_ERROR_MEMORY {
            EverythingError::Memory
        } else if code == sys::EVERYTHING_ERROR_IPC {
            EverythingError::Ipc
        } else if code == sys::EVERYTHING_ERROR_REGISTERCLASSEX {
            EverythingError::RegisterClassEx
        } else if code == sys::EVERYTHING_ERROR_CREATEWINDOW {
            EverythingError::CreateWindow
        } else if code == sys::EVERYTHING_ERROR_CREATETHREAD {
            EverythingError::CreateThread
        } else if code == sys::EVERYTHING_ERROR_INVALIDINDEX {
            EverythingError::InvalidIndex
        } else if code == sys::EVERYTHING_ERROR_INVALIDCALL {
            EverythingError::InvalidCall
        } else if code == sys::EVERYTHING_ERROR_INVALIDREQUEST {
            EverythingError::InvalidRequest
        } else if code == sys::EVERYTHING_ERROR_INVALIDPARAMETER {
            EverythingError::InvalidParameter
        } else {
            EverythingError::Unknown(code)
        }
    }

    /// True exactly when Everything is not available (not running, or its
    /// listener could not be set up); the caller should fall back to walking
    /// the file system rather than report a failure.
    pub fn is_unavailable(self) -> (r: bool)
        ensures
            r == unavailable(self),
    {
        match self {
            EverythingError::Ipc
            | EverythingError::RegisterClassEx
            | EverythingError::CreateWindow
            | EverythingError::CreateThread => true,
            _ => false,
        }
    }

    /// The message shown for this error.
    pub fn message(&self) -> (s: String)
        ensures
            s@ == message_text(*self),
    {
        match self {
            EverythingError::Memory => String::from_str("Everything SDK reported out-of-memory"),
            EverythingError::Ipc => String::from_str("Everything service is not running — start Everything and retry"),
            EverythingError::RegisterClassEx => String::from_str("Everything SDK could not register its listening window class"),
            EverythingError::CreateWindow => String::from_str("Everything SDK could not create its listening window"),
            EverythingError::CreateThread => String::from_str("Everything SDK could not create its listening thread"),
            EverythingError::InvalidIndex => String::from_str("Everything SDK call used an out-of-range result index (bug)"),
            EverythingError::InvalidCall => String::from_str("Everything SDK call sequenced incorrectly (bug)"),
            EverythingError::InvalidRequest => String::from_str("Everything SDK accessor asked for a field that wasn't in SetRequestFlags (bug)"),
            EverythingError::InvalidParameter => String::from_str("Everything SDK call passed a bad parameter (bug)"),
            EverythingError::Unknown(code) => {
                let mut s = String::from_str("Everything SDK returned unknown error code ");
                let d = crate::text::decimal(*code as u64);
                crate::text::push_str(&mut s, d.as_str());
                s
            },
        }
    }
}

} // verus!
