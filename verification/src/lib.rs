//! A library for comparing semantic-version strings and checking version
//! compatibility against caret (`^`) and tilde (`~`) ranges.
//!
//! A version string has the form `major.minor.patch` with an optional
//! `-pre_release` suffix on the patch segment. Every public operation is a
//! pure function of its string arguments and returns a typed result; no
//! failure is ever reported by panicking.

pub mod compare;
pub mod error;
pub mod laws;
pub mod model;
pub mod outcome;
pub mod text;
pub mod version;

pub use compare::CompareVersion;
pub use compare::compare_versions;
pub use compare::matches_version_range;
pub use error::VersionError;
pub use outcome::VersionComparison;
pub use outcome::VersionLevel;
