//! The single error taxonomy shared by every component of the bootloader.

use vstd::prelude::*;

verus! {

/// Error kinds raised across the core. Each fallible operation reports one of
/// these; callers either recover locally or surface the error upward.
#[derive(Clone, Copy, Debug, PartialEq, Eq, Structural)]
pub enum ErrorCode {
    /// Catch-all for internal invariant violations.
    Unspecified,
    /// Operation or device class not supported.
    Unsupported,
    /// Index or offset outside the allowed range.
    OutOfBounds,
    /// Allocation or enqueue refused for lack of space.
    NoSpace,
    /// Configuration version is not the supported one.
    UnsupportedConfig,
    /// Configuration file is not valid UTF-8 or cannot be parsed.
    ConfigFormatError,
    /// No executable format matched the initial chunk.
    UnsupportedExecFmt,
    /// Wrong executable class, endianness, machine, type or entry point.
    UnsupportedExecOptions,
    /// Path does not resolve to a file.
    FileNotFound,
    /// Filename exceeds the 11-byte 8.3 limit.
    FileUnsupported,
    /// Device read retries exhausted, or carry set on a non-retriable call.
    ReadFailure,
}

impl ErrorCode {
    /// Stable numeric code of the error, as reported in diagnostics.
    pub open spec fn spec_code(self) -> u8 {
        match self {
            ErrorCode::Unspecified => 0,
            ErrorCode::Unsupported => 1,
            ErrorCode::OutOfBounds => 2,
            ErrorCode::NoSpace => 3,
            ErrorCode::UnsupportedConfig => 4,
            ErrorCode::ConfigFormatError => 5,
            ErrorCode::UnsupportedExecFmt => 6,
            ErrorCode::UnsupportedExecOptions => 7,
            ErrorCode::FileNotFound => 8,
            ErrorCode::FileUnsupported => 9,
            ErrorCode::ReadFailure => 10,
        }
    }

    /// Numeric code of the error, printed as `[ErrorCode N]` by diagnostics.
    pub fn code(self) -> (r: u8)
        ensures
            r == self.spec_code(),
    {
        match self {
            ErrorCode::Unspecified => 0,
            ErrorCode::Unsupported => 1,
            ErrorCode::OutOfBounds => 2,
            ErrorCode::NoSpace => 3,
            ErrorCode::UnsupportedConfig => 4,
            ErrorCode::ConfigFormatError => 5,
            ErrorCode::UnsupportedExecFmt => 6,
            ErrorCode::UnsupportedExecOptions => 7,
            ErrorCode::FileNotFound => 8,
            ErrorCode::FileUnsupported => 9,
            ErrorCode::ReadFailure => 10,
        }
    }
}

} // verus!
