use vstd::prelude::*;

use crate::decimal::dec_u64;

verus! {

/// Typed failures of the archive reader. Every fallible operation of the
/// library reports one of these; no partial results are returned.
#[derive(Debug, Clone, Copy, PartialEq, Eq, Structural)]
pub enum ZipError {
    /// No valid End of Central Directory record was found in the source.
    NotAZipFile,
    /// An End of Central Directory record was too short or had a bad signature.
    InvalidEocd,
    /// A ZIP64 locator or ZIP64 End of Central Directory record was too short
    /// or had a bad signature.
    InvalidZip64,
    /// A Central Directory File Header was truncated or had a bad signature.
    InvalidCdfh,
    /// A Local File Header was truncated or had a bad signature.
    InvalidLfh,
    /// An entry's data lies outside the bounds a 64-bit offset can address.
    EntryOutOfBounds,
    /// The entry uses a compression method the extractor cannot decode.
    UnsupportedMethod(u16),
    /// The DEFLATE stream of an entry was invalid or truncated.
    DecodeFailed,
    /// The underlying source could not be read.
    ReadFailed,
    /// A HEAD probe of a remote source failed with this HTTP status.
    HeadStatus(u16),
    /// The remote server does not advertise byte-range support.
    NoRangeSupport,
    /// The remote server did not report a content length.
    NoContentLength,
    /// A ranged request was answered with a status other than 206.
    BadStatus(u16),
    /// A transient transport failure persisted through the whole retry budget.
    MaxRetriesExceeded,
    /// A non-transient transport failure.
    Transport,
}

impl ZipError {
    /// Whether this error reports a failure of the underlying source rather
    /// than a defect of the archive's bytes. Reader implementations report
    /// only these from their reads.
    pub open spec fn spec_is_io(self) -> bool {
        ||| self is ReadFailed
        ||| self is BadStatus
        ||| self is MaxRetriesExceeded
        ||| self is Transport
    }

    /// A human-readable diagnostic for this error.
    pub fn message(&self) -> String {
        match self {
            ZipError::NotAZipFile => "Not a valid ZIP file".to_owned(),
            ZipError::InvalidEocd => "Invalid End of Central Directory".to_owned(),
            ZipError::InvalidZip64 => "Invalid ZIP64 format".to_owned(),
            ZipError::InvalidCdfh => "Invalid Central Directory File Header".to_owned(),
            ZipError::InvalidLfh => "Invalid Local File Header".to_owned(),
            ZipError::EntryOutOfBounds => "Entry data lies beyond the end of the source".to_owned(),
            ZipError::UnsupportedMethod(m) => {
                let s = "Unsupported compression method: ".to_owned();
                s.concat(dec_u64(*m as u64).as_str())
            },
            ZipError::DecodeFailed => "Invalid DEFLATE stream".to_owned(),
            ZipError::ReadFailed => "Failed to read from the source".to_owned(),
            ZipError::HeadStatus(c) => {
                let s = "HTTP request failed with status: ".to_owned();
                s.concat(dec_u64(*c as u64).as_str())
            },
            ZipError::NoRangeSupport => "Remote server does not support Range requests".to_owned(),
            ZipError::NoContentLength => {
                "Remote server did not return Content-Length".to_owned()
            },
            ZipError::BadStatus(c) => {
                let s = "HTTP request failed with status: ".to_owned();
                s.concat(dec_u64(*c as u64).as_str())
            },
            ZipError::MaxRetriesExceeded => "Max retries exceeded".to_owned(),
            ZipError::Transport => "Network transport failed".to_owned(),
        }
    }
}

} // verus!
