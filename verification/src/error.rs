//! Errors of the station metadata reader.
use crate::numbers::{FloatErrorKind, IntErrorKind};
use vstd::prelude::*;

verus! {

/// Maximum number of digits that can be behind the seconds part of a time.
pub const MAXIMUM_SECONDS_DECIMAL: u32 = 6;

/// Syntax errors in the attribute list of an XML start tag.
#[derive(Clone, Copy, Debug, PartialEq, Eq)]
pub enum NameSyntaxError {
    ExpectedEquals { got: char },
    NoIdentifierFound,
    NoValueFound,
}

/// Everything that can go wrong while reading FDSN station metadata.
#[derive(Clone, Debug)]
pub enum StationError {
    /// The XML reader failed.
    XMLError,
    /// The text was not UTF-8.
    UTF8Error,
    XMLStructureError,
    TimeParseError,
    ParseIntError(IntErrorKind),
    ParseFloatError(FloatErrorKind),
    ToManySeconds { number_digits: u32 },
    NeedNameQuotes,
    InvalidNameSyntax(NameSyntaxError),
    NetworkMissingCode,
    MissingStationCode,
    MissingLongitude { station_code: String },
    MissingLatitude { station_code: String },
    MissingElevation { station_code: String },
    InvalidTimeFormat,
    MissingStationName,
    MissingStartTime { station_code: String },
    /// The web request failed.
    RequestFailed,
    /// The document holds a tag or a text that the reader's states do not read.
    UnsupportedContent,
}

} // verus!
