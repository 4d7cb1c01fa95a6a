//! Laws of the comparison and range operations, proved once and for all
//! version strings: reflexivity, antisymmetry and transitivity of the
//! induced order, that every version matches the caret and tilde ranges
//! built from itself, and that a range without a recognized prefix is
//! always rejected.

use vstd::prelude::*;

use crate::model::SpecVersionError;
use crate::model::caret_matches;
use crate::model::compare_versions_spec;
use crate::model::lemma_version_cmp_flip;
use crate::model::lemma_version_cmp_refl;
use crate::model::lemma_version_cmp_trans;
use crate::model::matches_range_spec;
use crate::model::parse_spec;
use crate::model::tilde_matches;
use crate::model::version_ge;
use crate::outcome::VersionComparison;

verus! {

/// Comparing any valid version string with itself yields `Equal`.
pub proof fn lemma_compare_reflexive(a: Seq<char>)
    requires
        parse_spec(a) is Ok,
    ensures
        compare_versions_spec(a, a) == Ok::<VersionComparison, SpecVersionError>(
            VersionComparison::Equal,
        ),
{
    lemma_version_cmp_refl(parse_spec(a)->Ok_0);
}

/// Antisymmetry: whenever one string compares `Greater` than another, the
/// comparison with the operands exchanged yields `Less`, and vice versa;
/// an `Equal` outcome is symmetric.
pub proof fn lemma_compare_antisymmetric(a: Seq<char>, b: Seq<char>)
    ensures
        compare_versions_spec(a, b) == Ok::<VersionComparison, SpecVersionError>(
            VersionComparison::Greater,
        ) ==> compare_versions_spec(b, a) == Ok::<VersionComparison, SpecVersionError>(
            VersionComparison::Less,
        ),
        compare_versions_spec(a, b) == Ok::<VersionComparison, SpecVersionError>(
            VersionComparison::Less,
        ) ==> compare_versions_spec(b, a) == Ok::<VersionComparison, SpecVersionError>(
            VersionComparison::Greater,
        ),
        compare_versions_spec(a, b) == Ok::<VersionComparison, SpecVersionError>(
            VersionComparison::Equal,
        ) ==> compare_versions_spec(b, a) == Ok::<VersionComparison, SpecVersionError>(
            VersionComparison::Equal,
        ),
{
    if parse_spec(a) is Ok && parse_spec(b) is Ok {
        lemma_version_cmp_flip(parse_spec(a)->Ok_0, parse_spec(b)->Ok_0);
    }
}

/// Transitivity of the induced order over major, then minor, then patch,
/// then the pre-release tie-break.
pub proof fn lemma_compare_transitive(a: Seq<char>, b: Seq<char>, c: Seq<char>)
    requires
        compare_versions_spec(a, b) == Ok::<VersionComparison, SpecVersionError>(
            VersionComparison::Less,
        ),
        compare_versions_spec(b, c) == Ok::<VersionComparison, SpecVersionError>(
            VersionComparison::Less,
        ),
    ensures
        compare_versions_spec(a, c) == Ok::<VersionComparison, SpecVersionError>(
            VersionComparison::Less,
        ),
{
    lemma_version_cmp_trans(
        parse_spec(a)->Ok_0,
        parse_spec(b)->Ok_0,
        parse_spec(c)->Ok_0,
    );
}

/// Every valid version matches the caret range built from itself.
pub proof fn lemma_matches_caret_range_of_self(v: Seq<char>)
    requires
        parse_spec(v) is Ok,
    ensures
        matches_range_spec(v, seq!['^'] + v) == Ok::<bool, SpecVersionError>(true),
{
    let range = seq!['^'] + v;
    assert(range[0] == '^');
    assert(range.skip(1) =~= v);
    let t = parse_spec(v)->Ok_0;
    lemma_version_cmp_refl(t);
    assert(version_ge(t, t));
    assert(caret_matches(t, t));
}

/// Every valid version matches the tilde range built from itself.
pub proof fn lemma_matches_tilde_range_of_self(v: Seq<char>)
    requires
        parse_spec(v) is Ok,
    ensures
        matches_range_spec(v, seq!['~'] + v) == Ok::<bool, SpecVersionError>(true),
{
    let range = seq!['~'] + v;
    assert(range[0] == '~');
    assert(range[0] != '^');
    assert(range.skip(1) =~= v);
    let t = parse_spec(v)->Ok_0;
    lemma_version_cmp_refl(t);
    assert(version_ge(t, t));
    assert(tilde_matches(t, t));
}

/// For any valid version, a range string that does not begin with `^` or `~`
/// is rejected as an invalid range format.
pub proof fn lemma_unrecognized_range_prefix(v: Seq<char>, range: Seq<char>)
    requires
        parse_spec(v) is Ok,
        range.len() == 0 || (range[0] != '^' && range[0] != '~'),
    ensures
        matches_range_spec(v, range) == Err::<bool, SpecVersionError>(
            SpecVersionError::InvalidRangeFormat,
        ),
{
}

} // verus!
