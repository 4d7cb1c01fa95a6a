//! Errors that can occur during version parsing and comparison.

use vstd::prelude::*;
use vstd::string::StringExecFns;

use crate::model::SpecVersionError;

verus! {

/// Errors that can occur during version parsing and comparison.
#[derive(Debug, PartialEq, Eq, Clone)]
pub enum VersionError {
    /// An error occurred during parsing, with a specific message.
    ParseError(String),
    /// The format of the version range is invalid.
    InvalidRangeFormat,
    /// An error occurred while parsing the major version component.
    MajorVersionError,
    /// An error occurred while parsing the minor version component.
    MinorVersionError,
    /// An error occurred while parsing the patch version component.
    PatchVersionError,
}

impl View for VersionError {
    type V = SpecVersionError;

    open spec fn view(&self) -> SpecVersionError {
        match self {
            VersionError::ParseError(msg) => SpecVersionError::ParseError(msg@),
            VersionError::InvalidRangeFormat => SpecVersionError::InvalidRangeFormat,
            VersionError::MajorVersionError => SpecVersionError::MajorVersionError,
            VersionError::MinorVersionError => SpecVersionError::MinorVersionError,
            VersionError::PatchVersionError => SpecVersionError::PatchVersionError,
        }
    }
}

/// The human-readable rendering of each error.
pub open spec fn error_message(e: SpecVersionError) -> Seq<char> {
    match e {
        SpecVersionError::ParseError(msg) => "Parse error: "@ + msg,
        SpecVersionError::InvalidRangeFormat => {
            "Unsupported range format, only '^' or '~' are supported"@
        },
        SpecVersionError::MajorVersionError => "Major version parsing error"@,
        SpecVersionError::MinorVersionError => "Minor version parsing error"@,
        SpecVersionError::PatchVersionError => "Patch version parsing error"@,
    }
}

impl VersionError {
    /// Renders the error as a human-readable message.
    pub fn message(&self) -> (r: String)
        ensures
            r@ == error_message(self@),
    {
        match self {
            VersionError::ParseError(msg) => {
                let mut s = String::from_str("Parse error: ");
                s.append(msg.as_str());
                s
            },
            VersionError::InvalidRangeFormat => {
                String::from_str("Unsupported range format, only '^' or '~' are supported")
            },
            VersionError::MajorVersionError => String::from_str("Major version parsing error"),
            VersionError::MinorVersionError => String::from_str("Minor version parsing error"),
            VersionError::PatchVersionError => String::from_str("Patch version parsing error"),
        }
    }
}

} // verus!
