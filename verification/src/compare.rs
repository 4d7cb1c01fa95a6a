//! The public operations: total-order comparison of two version strings and
//! range-compatibility matching against caret (`^`) and tilde (`~`) ranges.

use vstd::prelude::*;
use vstd::string::StrSliceExecFns;

use crate::error::VersionError;
use crate::model::SpecVersionError;
use crate::model::caret_matches;
use crate::model::compare_versions_spec;
use crate::model::matches_range_spec;
use crate::model::tilde_matches;
use crate::model::version_cmp;
use crate::model::version_ge;
use crate::outcome::VersionComparison;
use crate::outcome::VersionLevel;
use crate::outcome::level_of;
use crate::text::lex_cmp;
use crate::version::Version;

verus! {

/// Lexicographic comparison of two strings, character by character.
fn lex_cmp_str(a: &str, b: &str) -> (c: VersionComparison)
    ensures
        c == lex_cmp(a@, b@),
{
    let an = a.unicode_len();
    let bn = b.unicode_len();
    let mut i: usize = 0;
    proof {
        assert(a@.skip(0) =~= a@);
        assert(b@.skip(0) =~= b@);
    }
    while i < an && i < bn
        invariant
            i <= an,
            i <= bn,
            an == a@.len(),
            bn == b@.len(),
            lex_cmp(a@, b@) == lex_cmp(a@.skip(i as int), b@.skip(i as int)),
        decreases an - i,
    {
        let ca = a.get_char(i);
        let cb = b.get_char(i);
        proof {
            assert(a@.skip(i as int)[0] == ca);
            assert(b@.skip(i as int)[0] == cb);
        }
        if (ca as u32) < (cb as u32) {
            return VersionComparison::Less;
        }
        if (ca as u32) > (cb as u32) {
            return VersionComparison::Greater;
        }
        proof {
            assert(a@.skip(i as int).skip(1) =~= a@.skip(i + 1));
            assert(b@.skip(i as int).skip(1) =~= b@.skip(i + 1));
        }
        i = i + 1;
    }
    if an == bn {
        VersionComparison::Equal
    } else if an < bn {
        VersionComparison::Less
    } else {
        VersionComparison::Greater
    }
}

impl Version {
    /// The total-order comparison of two parsed versions: major, then minor,
    /// then patch, then the pre-release tie-break.
    pub(crate) fn compare_to(&self, other: &Version) -> (c: VersionComparison)
        ensures
            c == version_cmp(self@, other@),
    {
        if self.major < other.major {
            VersionComparison::Less
        } else if self.major > other.major {
            VersionComparison::Greater
        } else if self.minor < other.minor {
            VersionComparison::Less
        } else if self.minor > other.minor {
            VersionComparison::Greater
        } else if self.patch < other.patch {
            VersionComparison::Less
        } else if self.patch > other.patch {
            VersionComparison::Greater
        } else {
            match (&self.pre_release, &other.pre_release) {
                (Option::None, Option::None) => VersionComparison::Equal,
                (Option::None, Option::Some(_)) => VersionComparison::Less,
                (Option::Some(_), Option::None) => VersionComparison::Greater,
                (Option::Some(x), Option::Some(y)) => lex_cmp_str(x.as_str(), y.as_str()),
            }
        }
    }

    /// Whether this version is at least `other` under the total order.
    fn is_at_least(&self, other: &Version) -> (r: bool)
        ensures
            r == version_ge(self@, other@),
    {
        let c = self.compare_to(other);
        !(c == VersionComparison::Less)
    }
}

/// Compares two version strings and returns a `VersionComparison`.
///
/// Both strings are parsed; the first parse failure propagates. On success
/// the result is the total order of the two versions: major, then minor,
/// then patch, then the pre-release tie-break (at equal numeric components a
/// version without a tag is less than one with a tag, and two tags compare
/// lexicographically as plain strings).
pub fn compare_versions(version1: &str, version2: &str) -> (r: Result<
    VersionComparison,
    VersionError,
>)
    ensures
        (match r {
            Ok(c) => compare_versions_spec(version1@, version2@) == Ok::<
                VersionComparison,
                SpecVersionError,
            >(c),
            Err(e) => compare_versions_spec(version1@, version2@) == Err::<
                VersionComparison,
                SpecVersionError,
            >(e@),
        }),
{
    let v1 = match Version::parse(version1) {
        Ok(v) => v,
        Err(e) => {
            return Err(e);
        },
    };
    let v2 = match Version::parse(version2) {
        Ok(v) => v,
        Err(e) => {
            return Err(e);
        },
    };
    Ok(v1.compare_to(&v2))
}

/// Checks whether a version matches a range, supporting `^` and `~` ranges.
///
/// The version string and the base version written after the range's `^` or
/// `~` prefix are parsed; either parse failure propagates. A caret range
/// matches within the same major version at or above the base; a tilde range
/// matches within the same major and minor version at or above the base. A
/// range with any other prefix is rejected with
/// [`VersionError::InvalidRangeFormat`].
pub fn matches_version_range(version: &str, range: &str) -> (r: Result<bool, VersionError>)
    ensures
        (match r {
            Ok(m) => matches_range_spec(version@, range@) == Ok::<bool, SpecVersionError>(m),
            Err(e) => matches_range_spec(version@, range@) == Err::<bool, SpecVersionError>(e@),
        }),
{
    let target = match Version::parse(version) {
        Ok(v) => v,
        Err(e) => {
            return Err(e);
        },
    };
    let rn = range.unicode_len();
    if rn > 0 && range.get_char(0) == '^' {
        let base_str = range.substring_char(1, rn);
        proof {
            assert(base_str@ =~= range@.skip(1));
        }
        let base = match Version::parse(base_str) {
            Ok(v) => v,
            Err(e) => {
                return Err(e);
            },
        };
        let m = target.major == base.major && (target.minor > base.minor || (target.minor
            == base.minor && target.is_at_least(&base)));
        proof {
            assert(m == caret_matches(target@, base@));
        }
        Ok(m)
    } else if rn > 0 && range.get_char(0) == '~' {
        let base_str = range.substring_char(1, rn);
        proof {
            assert(base_str@ =~= range@.skip(1));
        }
        let base = match Version::parse(base_str) {
            Ok(v) => v,
            Err(e) => {
                return Err(e);
            },
        };
        let m = target.major == base.major && target.minor == base.minor && target.is_at_least(
            &base,
        );
        proof {
            assert(m == tilde_matches(target@, base@));
        }
        Ok(m)
    } else {
        Err(VersionError::InvalidRangeFormat)
    }
}

/// Utility for comparing version strings.
///
/// Provides methods for version comparison and range matching.
#[derive(Clone)]
pub struct CompareVersion;

impl CompareVersion {
    /// Compares two version strings and returns a `VersionLevel`.
    ///
    /// Behaves exactly as [`compare_versions`], reporting the outcome as a
    /// [`VersionLevel`].
    pub fn compare_version(version1: &str, version2: &str) -> (r: Result<
        VersionLevel,
        VersionError,
    >)
        ensures
            (match r {
                Ok(l) => (match compare_versions_spec(version1@, version2@) {
                    Ok(c) => l == level_of(c),
                    Err(_) => false,
                }),
                Err(e) => compare_versions_spec(version1@, version2@) == Err::<
                    VersionComparison,
                    SpecVersionError,
                >(e@),
            }),
    {
        match compare_versions(version1, version2) {
            Ok(c) => {
                let l = match c {
                    VersionComparison::Greater => VersionLevel::Greater,
                    VersionComparison::Less => VersionLevel::Less,
                    VersionComparison::Equal => VersionLevel::Equal,
                };
                Ok(l)
            },
            Err(e) => Err(e),
        }
    }

    /// Checks whether a version matches a range, supporting `^` and `~`
    /// ranges. Behaves exactly as [`matches_version_range`].
    pub fn matches_version_range(version: &str, range: &str) -> (r: Result<bool, VersionError>)
        ensures
            (match r {
                Ok(m) => matches_range_spec(version@, range@) == Ok::<bool, SpecVersionError>(m),
                Err(e) => matches_range_spec(version@, range@) == Err::<bool, SpecVersionError>(
                    e@,
                ),
            }),
    {
        matches_version_range(version, range)
    }
}

} // verus!
