use compare_version::CompareVersion;
use compare_version::VersionComparison;
use compare_version::VersionError;
use compare_version::VersionLevel;
use compare_version::compare_versions;
use compare_version::matches_version_range;

#[test]
fn comparing_a_version_with_itself_is_equal() {
    for v in ["0.0.0", "1.2.3", "1.2.3-alpha", "10.20.30-rc.1", "4294967295.0.0"] {
        assert_eq!(compare_versions(v, v).unwrap(), VersionComparison::Equal);
    }
}

#[test]
fn comparison_is_antisymmetric() {
    let pairs = [
        ("1.2.3", "1.2.4"),
        ("1.2.3", "2.0.0"),
        ("1.2.3", "1.3.0"),
        ("1.2.3", "1.2.3-alpha"),
        ("1.2.3-alpha", "1.2.3-beta"),
    ];
    for (a, b) in pairs {
        assert_eq!(compare_versions(a, b).unwrap(), VersionComparison::Less);
        assert_eq!(compare_versions(b, a).unwrap(), VersionComparison::Greater);
    }
}

#[test]
fn comparison_is_transitive() {
    let a = "1.2.3";
    let b = "1.2.3-alpha";
    let c = "1.2.4";
    assert_eq!(compare_versions(a, b).unwrap(), VersionComparison::Less);
    assert_eq!(compare_versions(b, c).unwrap(), VersionComparison::Less);
    assert_eq!(compare_versions(a, c).unwrap(), VersionComparison::Less);
}

#[test]
fn every_version_matches_the_caret_range_of_itself() {
    for v in ["0.0.0", "1.2.3", "1.2.3-alpha", "4294967295.4294967295.4294967295"] {
        let range = format!("^{}", v);
        assert_eq!(matches_version_range(v, &range).unwrap(), true);
    }
}

#[test]
fn every_version_matches_the_tilde_range_of_itself() {
    for v in ["0.0.0", "1.2.3", "1.2.3-alpha", "4294967295.4294967295.4294967295"] {
        let range = format!("~{}", v);
        assert_eq!(matches_version_range(v, &range).unwrap(), true);
    }
}

#[test]
fn ranges_without_caret_or_tilde_prefix_are_invalid() {
    for range in ["1.2.0", ">=1.0.0", "=1.2.3", "", "*"] {
        assert_eq!(
            matches_version_range("1.2.3", range),
            Err(VersionError::InvalidRangeFormat)
        );
    }
}

#[test]
fn untagged_version_is_less_than_the_tagged_one() {
    assert_eq!(
        compare_versions("1.2.3", "1.2.3-alpha").unwrap(),
        VersionComparison::Less
    );
}

#[test]
fn patch_numbers_order_versions() {
    assert_eq!(
        compare_versions("1.2.4", "1.2.5").unwrap(),
        VersionComparison::Less
    );
}

#[test]
fn literal_range_scenarios() {
    assert_eq!(matches_version_range("1.2.3-alpha", "^1.2.0"), Ok(true));
    assert_eq!(matches_version_range("1.3.0", "~1.2.3"), Ok(false));
    assert_eq!(matches_version_range("2.0.0", "^1.2.0"), Ok(false));
    assert_eq!(matches_version_range("1.0.0", "^1.2.0"), Ok(false));
}

#[test]
fn empty_input_is_a_structural_parse_failure() {
    let result = compare_versions("", "1.0.0");
    assert_eq!(
        result,
        Err(VersionError::ParseError(
            "Version format error, should be in the form 'x.y.z'.".to_string()
        ))
    );
}

#[test]
fn pre_release_tags_compare_lexicographically() {
    assert_eq!(
        compare_versions("1.2.3-alpha", "1.2.3-beta").unwrap(),
        VersionComparison::Less
    );
    assert_eq!(
        compare_versions("1.2.3-alpha", "1.2.3-alphaa").unwrap(),
        VersionComparison::Less
    );
    assert_eq!(
        compare_versions("1.2.3-rc", "1.2.3-alpha").unwrap(),
        VersionComparison::Greater
    );
}

#[test]
fn a_trailing_dash_yields_an_empty_tag_distinct_from_no_tag() {
    assert_eq!(
        compare_versions("1.2.3-", "1.2.3").unwrap(),
        VersionComparison::Greater
    );
    assert_eq!(
        compare_versions("1.2.3-", "1.2.3-").unwrap(),
        VersionComparison::Equal
    );
    assert_eq!(matches_version_range("1.2.3-", "~1.2.3"), Ok(true));
}

#[test]
fn segments_beyond_the_second_are_silently_dropped() {
    assert_eq!(
        compare_versions("1.2.9.4", "1.2.4").unwrap(),
        VersionComparison::Equal
    );
    assert_eq!(
        compare_versions("1.2.3.4.5-alpha", "1.2.5-alpha").unwrap(),
        VersionComparison::Equal
    );
}

#[test]
fn missing_segments_default_to_zero() {
    assert_eq!(
        compare_versions("5", "0.0.5").unwrap(),
        VersionComparison::Equal
    );
    assert_eq!(
        compare_versions("1.2", "1.0.2").unwrap(),
        VersionComparison::Equal
    );
}

#[test]
fn each_numeric_component_reports_its_own_error() {
    assert_eq!(
        compare_versions("a.2.3", "1.0.0"),
        Err(VersionError::MajorVersionError)
    );
    assert_eq!(
        compare_versions("1.b.3", "1.0.0"),
        Err(VersionError::MinorVersionError)
    );
    assert_eq!(
        compare_versions("1.2.c", "1.0.0"),
        Err(VersionError::PatchVersionError)
    );
    assert_eq!(
        compare_versions("abc", "1.0.0"),
        Err(VersionError::PatchVersionError)
    );
    assert_eq!(
        compare_versions("1.0.0", "1.2."),
        Err(VersionError::PatchVersionError)
    );
}

#[test]
fn components_must_fit_in_32_bits() {
    assert_eq!(
        compare_versions("4294967296.0.0", "1.0.0"),
        Err(VersionError::MajorVersionError)
    );
    assert_eq!(
        compare_versions("0.4294967296.0", "1.0.0"),
        Err(VersionError::MinorVersionError)
    );
    assert_eq!(
        compare_versions("0.0.4294967296", "1.0.0"),
        Err(VersionError::PatchVersionError)
    );
    assert_eq!(
        compare_versions("4294967295.0.0", "4294967295.0.0").unwrap(),
        VersionComparison::Equal
    );
}

#[test]
fn a_leading_plus_sign_is_accepted_in_numerals() {
    assert_eq!(
        compare_versions("+1.2.3", "1.2.3").unwrap(),
        VersionComparison::Equal
    );
    assert_eq!(
        compare_versions("1.+2.+3", "1.2.3").unwrap(),
        VersionComparison::Equal
    );
    assert_eq!(
        compare_versions("+.2.3", "1.0.0"),
        Err(VersionError::MajorVersionError)
    );
}

#[test]
fn parse_failures_inside_a_range_propagate() {
    assert_eq!(
        matches_version_range("1.2.3", "^x.2.3"),
        Err(VersionError::MajorVersionError)
    );
    assert_eq!(
        matches_version_range("1.2.3", "~1.2.x"),
        Err(VersionError::PatchVersionError)
    );
    assert_eq!(
        matches_version_range("", "^1.2.3"),
        Err(VersionError::ParseError(
            "Version format error, should be in the form 'x.y.z'.".to_string()
        ))
    );
    assert_eq!(
        matches_version_range("1.2.3", "^"),
        Err(VersionError::ParseError(
            "Version format error, should be in the form 'x.y.z'.".to_string()
        ))
    );
}

#[test]
fn caret_ranges_use_the_full_order_at_equal_minor() {
    assert_eq!(matches_version_range("1.2.0-alpha", "^1.2.0"), Ok(true));
    assert_eq!(matches_version_range("1.2.0", "^1.2.0-alpha"), Ok(false));
    assert_eq!(matches_version_range("1.2.1", "^1.2.2"), Ok(false));
    assert_eq!(matches_version_range("1.3.0-alpha", "^1.2.9"), Ok(true));
}

#[test]
fn tilde_ranges_require_equal_minor() {
    assert_eq!(matches_version_range("1.2.4", "~1.2.3"), Ok(true));
    assert_eq!(matches_version_range("1.2.2", "~1.2.3"), Ok(false));
    assert_eq!(matches_version_range("1.2.3-alpha", "~1.2.3-alpha"), Ok(true));
    assert_eq!(matches_version_range("1.2.3-alpha", "~1.2.3-beta"), Ok(false));
}

#[test]
fn compare_version_reports_levels() {
    assert_eq!(
        CompareVersion::compare_version("2.0.0", "1.9.9").unwrap(),
        VersionLevel::Greater
    );
    assert_eq!(
        CompareVersion::compare_version("1.9.9", "2.0.0").unwrap(),
        VersionLevel::Less
    );
    assert_eq!(
        CompareVersion::compare_version("0.1.0", "0.1.0").unwrap(),
        VersionLevel::Equal
    );
    assert_eq!(
        CompareVersion::compare_version("", "1.0.0"),
        Err(VersionError::ParseError(
            "Version format error, should be in the form 'x.y.z'.".to_string()
        ))
    );
}

#[test]
fn error_messages_render_as_documented() {
    assert_eq!(
        VersionError::ParseError("broken".to_string()).message(),
        "Parse error: broken"
    );
    assert_eq!(
        VersionError::InvalidRangeFormat.message(),
        "Unsupported range format, only '^' or '~' are supported"
    );
    assert_eq!(
        VersionError::MajorVersionError.message(),
        "Major version parsing error"
    );
    assert_eq!(
        VersionError::MinorVersionError.message(),
        "Minor version parsing error"
    );
    assert_eq!(
        VersionError::PatchVersionError.message(),
        "Patch version parsing error"
    );
}
