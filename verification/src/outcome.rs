//! The three-way outcomes of a version comparison.

use vstd::prelude::*;

verus! {

/// Result of comparing two versions.
///
/// Indicates whether the first version is greater than, less than, or equal
/// to the second version.
#[derive(Clone, Copy, Debug, PartialEq, Eq, Structural)]
pub enum VersionComparison {
    /// The first version is greater than the second version.
    Greater,
    /// The first version is less than the second version.
    Less,
    /// The two versions are equal.
    Equal,
}

/// Result of comparing two versions, as reported by
/// [`crate::compare::CompareVersion::compare_version`].
///
/// Indicates whether the first version is greater than, less than, or equal
/// to the second version.
#[derive(Clone, Copy, Debug, PartialEq, Eq, Structural)]
pub enum VersionLevel {
    /// The first version is greater than the second version.
    Greater,
    /// The first version is less than the second version.
    Less,
    /// The two versions are equal.
    Equal,
}

/// The `VersionLevel` that reports the same outcome as a `VersionComparison`.
pub open spec fn level_of(c: VersionComparison) -> VersionLevel {
    match c {
        VersionComparison::Greater => VersionLevel::Greater,
        VersionComparison::Less => VersionLevel::Less,
        VersionComparison::Equal => VersionLevel::Equal,
    }
}

/// The outcome with the roles of the two compared versions exchanged.
pub open spec fn flip(c: VersionComparison) -> VersionComparison {
    match c {
        VersionComparison::Greater => VersionComparison::Less,
        VersionComparison::Less => VersionComparison::Greater,
        VersionComparison::Equal => VersionComparison::Equal,
    }
}

} // verus!
