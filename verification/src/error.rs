//! Typed errors for clipboard operations.
//!
//! Every failure keeps the raw platform status code so that a caller can
//! branch on it; the common "the requested format is simply not there"
//! outcome is kept apart from genuine platform failures.

use vstd::prelude::*;

verus! {

/// Raw status code reported when an operation needs an open session and none is open.
pub const ERROR_CLIPBOARD_NOT_OPEN: u32 = 1418;

/// Raw status code reported when a caller hands an operation an invalid argument.
pub const ERROR_INVALID_PARAMETER: u32 = 87;

/// Raw status code reported when a payload cannot be decoded as claimed.
pub const ERROR_INVALID_DATA: u32 = 13;

/// Raw status code reported when the session is already held.
pub const ERROR_ACCESS_DENIED: u32 = 5;

/// Error taxonomy of the clipboard core.
#[derive(Clone, Copy, Debug, PartialEq, Eq, Structural)]
pub enum ErrorKind {
    /// An underlying platform call failed; carries the raw platform status code.
    PlatformFailure(u32),
    /// The requested clipboard format is not currently present.
    ///
    /// This is an expected, common outcome, kept apart from `PlatformFailure`
    /// so that call sites can branch on it without treating it as exceptional.
    FormatUnavailable,
    /// A text transcoding step reported zero required size or failed outright.
    EncodingFailure,
}

/// The most recent platform status code of the calling thread.
///
/// Relies on `error_code::ErrorCode::last_system`, which reads the calling
/// thread's last platform status code, and on `ErrorCode::raw_code`, which
/// hands the raw integer back. The value depends on ambient thread state, so
/// nothing is promised of it.
#[verifier::external_body]
pub fn last_system_code() -> u32 {
    error_code::ErrorCode::last_system().raw_code() as u32
}

/// A human-readable rendering of a platform status code.
///
/// Relies on `error_code::ErrorCode::new_system` and its `Display` rendering:
/// the code is looked up in the system's message facility (on the native
/// platform with inserts ignored and the trailing line terminator stripped;
/// through the C error string elsewhere). The text depends on the host system
/// and locale, so nothing is promised of it.
#[verifier::external_body]
pub fn system_message(code: u32) -> String {
    format!("{}", error_code::ErrorCode::new_system(code as _))
}

impl ErrorKind {
    /// A human-readable description of the error, with the raw platform
    /// status code rendered through the platform's message facility.
    pub fn message(&self) -> String {
        match *self {
            ErrorKind::PlatformFailure(code) => system_message(code),
            ErrorKind::FormatUnavailable => String::from_str("requested clipboard format is not available"),
            ErrorKind::EncodingFailure => String::from_str("text transcoding failed"),
        }
    }

    /// The raw platform status code carried by a platform failure.
    pub fn raw_code(&self) -> (r: Option<u32>)
        ensures
            r == (match *self {
                ErrorKind::PlatformFailure(code) => Some(code),
                _ => None::<u32>,
            }),
    {
        match *self {
            ErrorKind::PlatformFailure(code) => Some(code),
            _ => None,
        }
    }
}

} // verus!
