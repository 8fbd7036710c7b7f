//! The error taxonomy of the batch: configuration faults, an empty
//! selection, malformed documents, and the fixed-point range limit.

use vstd::prelude::*;

verus! {

/// Everything that can go wrong while assembling a configuration or
/// shifting a batch of path files. File-handling faults stay with the
/// caller, which owns the reading and the writing.
#[derive(Clone, Copy, Debug, PartialEq, Eq)]
pub enum PathError {
    /// The comma-separated list of target filename prefixes was not given.
    MissingTargets,
    /// The translation amount was not given.
    MissingAmount,
    /// No regular file in the directory starts with any configured prefix.
    NoMatchingFiles,
    /// A path file's content does not form a well-formed path document.
    MalformedDocument,
    /// A translated coordinate would leave the representable fixed-point
    /// range.
    CoordinateOverflow,
}

/// The diagnostic line each error variant reports.
pub open spec fn message_spec(e: PathError) -> Seq<char> {
    match e {
        PathError::MissingTargets => "didn't get a target path phrase"@,
        PathError::MissingAmount => "didn't get an amount input"@,
        PathError::NoMatchingFiles => "no path files match the input strings"@,
        PathError::MalformedDocument => "path file content is not a well-formed path document"@,
        PathError::CoordinateOverflow => "translated coordinate is out of fixed-point range"@,
    }
}

impl PathError {
    /// A diagnostic line for the caller to report.
    pub fn message(&self) -> (r: String)
        ensures
            r@ == message_spec(*self),
    {
        match self {
            PathError::MissingTargets => "didn't get a target path phrase".to_owned(),
            PathError::MissingAmount => "didn't get an amount input".to_owned(),
            PathError::NoMatchingFiles => "no path files match the input strings".to_owned(),
            PathError::MalformedDocument => "path file content is not a well-formed path document".to_owned(),
            PathError::CoordinateOverflow => "translated coordinate is out of fixed-point range".to_owned(),
        }
    }
}

} // verus!
