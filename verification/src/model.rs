//! The mathematical model of versions: what parsing a version string yields,
//! how two versions are ordered, and what the range operators mean. The
//! executable functions' contracts all speak in terms of these definitions.

use vstd::prelude::*;

use crate::outcome::VersionComparison;
use crate::outcome::flip;
use crate::text::after_first;
use crate::text::before_first;
use crate::text::is_u32_string;
use crate::text::lex_cmp;
use crate::text::lemma_lex_cmp_flip;
use crate::text::lemma_lex_cmp_refl;
use crate::text::lemma_lex_cmp_trans;
use crate::text::split_on;
use crate::text::u32_string_value;

verus! {

/// The model of a parsed version: the three numeric components and the
/// optional pre-release tag.
pub ghost struct SpecVersion {
    pub major: int,
    pub minor: int,
    pub patch: int,
    pub pre_release: Option<Seq<char>>,
}

/// The model of a parsing or range-matching failure.
pub ghost enum SpecVersionError {
    /// Malformed overall structure, with a diagnostic message.
    ParseError(Seq<char>),
    /// The range string has no recognized `^` or `~` prefix.
    InvalidRangeFormat,
    /// The major component is not an unsigned 32-bit integer.
    MajorVersionError,
    /// The minor component is not an unsigned 32-bit integer.
    MinorVersionError,
    /// The patch component is not an unsigned 32-bit integer.
    PatchVersionError,
}

/// The diagnostic carried by the structural parse failure on empty input.
pub open spec fn version_format_message() -> Seq<char> {
    "Version format error, should be in the form 'x.y.z'."@
}

/// What parsing a version string yields.
///
/// The string is split on `.`; the last segment is split at its first `-`
/// into the patch numeral and the optional pre-release tag (everything after
/// that `-`, as-is, possibly empty). The first two remaining segments are
/// the major and minor numerals, each defaulting to `0` when absent;
/// segments beyond the second are ignored. Each numeral must be an unsigned
/// 32-bit integer; the first one that is not determines the error. An empty
/// input is a structural failure.
pub open spec fn parse_spec(s: Seq<char>) -> Result<SpecVersion, SpecVersionError> {
    if s.len() == 0 {
        Err(SpecVersionError::ParseError(version_format_message()))
    } else {
        let parts = split_on(s, '.');
        let head = parts.drop_last();
        let tail = parts.last();
        let patch_str = before_first(tail, '-');
        let pre_release = after_first(tail, '-');
        let major_str = if head.len() >= 1 {
            head[0]
        } else {
            seq!['0']
        };
        let minor_str = if head.len() >= 2 {
            head[1]
        } else {
            seq!['0']
        };
        if !is_u32_string(major_str) {
            Err(SpecVersionError::MajorVersionError)
        } else if !is_u32_string(minor_str) {
            Err(SpecVersionError::MinorVersionError)
        } else if !is_u32_string(patch_str) {
            Err(SpecVersionError::PatchVersionError)
        } else {
            Ok(
                SpecVersion {
                    major: u32_string_value(major_str),
                    minor: u32_string_value(minor_str),
                    patch: u32_string_value(patch_str),
                    pre_release: pre_release,
                },
            )
        }
    }
}

/// The total order on versions: major, then minor, then patch, then the
/// pre-release tie-break. At equal numeric components a version with a
/// pre-release tag is greater than the same version without one, and two
/// tags are compared lexicographically as plain character sequences.
pub open spec fn version_cmp(a: SpecVersion, b: SpecVersion) -> VersionComparison {
    if a.major < b.major {
        VersionComparison::Less
    } else if a.major > b.major {
        VersionComparison::Greater
    } else if a.minor < b.minor {
        VersionComparison::Less
    } else if a.minor > b.minor {
        VersionComparison::Greater
    } else if a.patch < b.patch {
        VersionComparison::Less
    } else if a.patch > b.patch {
        VersionComparison::Greater
    } else {
        match (a.pre_release, b.pre_release) {
            (Option::None, Option::None) => VersionComparison::Equal,
            (Option::None, Option::Some(_)) => VersionComparison::Less,
            (Option::Some(_), Option::None) => VersionComparison::Greater,
            (Option::Some(x), Option::Some(y)) => lex_cmp(x, y),
        }
    }
}

/// Whether `a` is at least `b` under the total order.
pub open spec fn version_ge(a: SpecVersion, b: SpecVersion) -> bool {
    version_cmp(a, b) != VersionComparison::Less
}

/// Caret compatibility: same major, and at least the base version (a higher
/// minor suffices; at equal minor the full order, pre-release included,
/// decides).
pub open spec fn caret_matches(target: SpecVersion, base: SpecVersion) -> bool {
    target.major == base.major && (target.minor > base.minor || (target.minor == base.minor
        && version_ge(target, base)))
}

/// Tilde compatibility: same major and minor, and at least the base version
/// under the full order.
pub open spec fn tilde_matches(target: SpecVersion, base: SpecVersion) -> bool {
    target.major == base.major && target.minor == base.minor && version_ge(target, base)
}

/// What comparing two version strings yields: the ordering of the two parsed
/// versions, or the first parse failure.
pub open spec fn compare_versions_spec(a: Seq<char>, b: Seq<char>) -> Result<
    VersionComparison,
    SpecVersionError,
> {
    match parse_spec(a) {
        Err(e) => Err(e),
        Ok(va) => match parse_spec(b) {
            Err(e) => Err(e),
            Ok(vb) => Ok(version_cmp(va, vb)),
        },
    }
}

/// What matching a version string against a range string yields: caret or
/// tilde compatibility with the base version written after the `^` or `~`
/// prefix; a parse failure of either string propagates, and a range with any
/// other prefix is an invalid-range failure.
pub open spec fn matches_range_spec(version: Seq<char>, range: Seq<char>) -> Result<
    bool,
    SpecVersionError,
> {
    match parse_spec(version) {
        Err(e) => Err(e),
        Ok(target) => if range.len() > 0 && range[0] == '^' {
            match parse_spec(range.skip(1)) {
                Err(e) => Err(e),
                Ok(base) => Ok(caret_matches(target, base)),
            }
        } else if range.len() > 0 && range[0] == '~' {
            match parse_spec(range.skip(1)) {
                Err(e) => Err(e),
                Ok(base) => Ok(tilde_matches(target, base)),
            }
        } else {
            Err(SpecVersionError::InvalidRangeFormat)
        },
    }
}

/// Every version compares equal to itself.
pub proof fn lemma_version_cmp_refl(a: SpecVersion)
    ensures
        version_cmp(a, a) == VersionComparison::Equal,
{
    if a.pre_release is Some {
        lemma_lex_cmp_refl(a.pre_release.unwrap());
    }
}

/// Exchanging the operands exchanges `Less` and `Greater`.
pub proof fn lemma_version_cmp_flip(a: SpecVersion, b: SpecVersion)
    ensures
        version_cmp(b, a) == flip(version_cmp(a, b)),
{
    if a.pre_release is Some && b.pre_release is Some {
        lemma_lex_cmp_flip(a.pre_release.unwrap(), b.pre_release.unwrap());
    }
}

/// The order on versions is transitive.
pub proof fn lemma_version_cmp_trans(a: SpecVersion, b: SpecVersion, c: SpecVersion)
    requires
        version_cmp(a, b) == VersionComparison::Less,
        version_cmp(b, c) == VersionComparison::Less,
    ensures
        version_cmp(a, c) == VersionComparison::Less,
{
    if a.major == c.major && a.minor == c.minor && a.patch == c.patch {
        if a.pre_release is Some && b.pre_release is Some && c.pre_release is Some {
            lemma_lex_cmp_trans(
                a.pre_release.unwrap(),
                b.pre_release.unwrap(),
                c.pre_release.unwrap(),
            );
        }
    }
}

} // verus!
