use gavin::task::TaskValidState;
use gavin::gitversion::GitVersionState;
use gavin::version::{agree, equivalent, normalize, ParsedVersion, VersionCompare};

#[test]
fn test_version_comparison() {
    let versions = vec![
        ("1", "1.0.0"),
        ("1.0", "1.0.0"),
        ("1.0.0", "1.0.0"),
        ("2", "2.0.0"),
        ("2.0", "2.0.0"),
    ];

    for (v1, v2) in versions {
        assert!(
            v1.to_string().version_eq(v2),
            "Expected {} to equal {}",
            v1,
            v2
        );
    }
}

#[test]
fn test_invalid_version_comparison() {
    // Invalid versions fall back to string comparison
    assert!("invalid".to_string().version_eq("invalid"));
    assert!(!"invalid".to_string().version_eq("other"));
}

#[test]
fn normalize_pads_towards_three_components() {
    assert_eq!(normalize("1"), "1.0.0");
    assert_eq!(normalize("17"), "17.0.0");
    assert_eq!(normalize("1.2"), "1.2.0");
    assert_eq!(normalize("1.2.3"), "1.2.3");
    assert_eq!(normalize("1.2.3.4"), "1.2.3.4");
    assert_eq!(normalize("v1"), "v1");
    assert_eq!(normalize("v1.2"), "v1.2.0");
    // A text without any character consists of digits alone.
    assert_eq!(normalize(""), ".0.0");
}

#[test]
fn paddings_of_one_number_are_equivalent() {
    for n in ["0", "1", "6", "10", "18446744073709551615"] {
        let one = n.to_string();
        let two = format!("{}.0", n);
        let three = format!("{}.0.0", n);
        assert!(equivalent(&one, &two));
        assert!(equivalent(&two, &one));
        assert!(equivalent(&one, &three));
        assert!(equivalent(&three, &one));
        assert!(equivalent(&two, &three));
        assert!(equivalent(&one, &one));
    }
}

#[test]
fn different_numbers_are_not_equivalent() {
    assert!(!equivalent("1", "2"));
    assert!(!equivalent("1", "1.1"));
    assert!(!equivalent("1.0", "1.0.1"));
    assert!(!equivalent("3", "4.0.0"));
    assert!(!equivalent("6.0.3", "6.0.4"));
    assert!(equivalent("6.0.3", "6.0.3"));
}

#[test]
fn numbers_that_do_not_parse_are_compared_as_texts() {
    // A leading zero is no version number.
    assert!(!equivalent("01", "01.0.0"));
    assert!(equivalent("01", "01"));
    // Nor is a number beyond 64 bits.
    assert!(!equivalent("18446744073709551616", "18446744073709551616.0.0"));
    assert!(equivalent("18446744073709551616", "18446744073709551616"));
    assert!(!equivalent("", ".0.0"));
    assert!(equivalent("", ""));
}

#[test]
fn texts_that_begin_with_no_digit_are_compared_literally() {
    assert!(equivalent("v1", "v1"));
    assert!(!equivalent("v1", "1"));
    assert!(!equivalent("v1", "v1.0"));
    assert!(!equivalent("?", "3"));
    assert!(equivalent("?", "?"));
    assert!(!equivalent(" 1", "1"));
}

#[test]
fn components_that_are_missing_count_as_zero() {
    assert!(equivalent("1.2", "1.2.0"));
    assert!(equivalent("1.2.0", "1.2"));
    assert!(equivalent("10.20", "10.20.0"));
    assert!(!equivalent("1.2", "1.2.1"));
    assert!(!equivalent("1.2", "1.3"));
    assert!(!equivalent("1.2", "1"));
    assert!(!equivalent("1.2.3", "1.2.4"));
    assert!(equivalent("1.2.3", "1.2.3"));
    assert!(!equivalent("2", "1"));
}

#[test]
fn texts_that_are_no_numbers_are_compared_literally() {
    assert!(equivalent("1.x", "1.x"));
    assert!(!equivalent("1.x", "1.x.0"));
    assert!(!equivalent("1.x", "1"));
    assert!(!equivalent("1.0.0.0", "1"));
    assert!(equivalent("1.0.0.0", "1.0.0.0"));
    assert!(!equivalent("1.", "1"));
    assert!(!equivalent("1.0.", "1.0"));
    assert!(!equivalent(".1", "0.1"));
    assert!(!equivalent("1.0.0-rc.1", "1.0.0-rc.2"));
    assert!(equivalent("1.0.0-rc.1+b7", "1.0.0-rc.1+b7"));
    assert!(!equivalent("1.0.0-rc.1+b7", "1.0.0-rc.1"));
    assert!(!equivalent("1.0-rc", "1.0.0-rc"));
}

#[test]
fn pre_release_and_build_count() {
    assert!(equivalent("1.0.0-alpha", "1.0.0-alpha"));
    assert!(!equivalent("1.0.0-alpha", "1.0.0"));
    assert!(!equivalent("1.0.0-alpha", "1.0.0-beta"));
    assert!(!equivalent("1.0.0+a", "1.0.0+b"));
    assert!(!equivalent("1.0.0+a", "1"));
}

#[test]
fn equivalence_is_reflexive_and_symmetric_on_samples() {
    let samples = ["1", "1.0", "1.0.0", "2", "v1", "", "01", "1.0.0-rc.1", "x.y.z"];
    for a in samples {
        assert!(equivalent(a, a));
        for b in samples {
            assert_eq!(equivalent(a, b), equivalent(b, a));
        }
    }
}

fn parsed(major: u64, minor: u64, patch: u64, pre: &str, build: &str) -> Option<ParsedVersion> {
    Some(ParsedVersion {
        major,
        minor,
        patch,
        pre: pre.to_string(),
        build: build.to_string(),
    })
}

#[test]
fn agree_compares_parsed_versions_or_texts() {
    assert!(agree(&parsed(1, 0, 0, "", ""), &parsed(1, 0, 0, "", ""), "a", "b"));
    assert!(!agree(&parsed(1, 0, 0, "", ""), &parsed(1, 0, 1, "", ""), "a", "a"));
    assert!(!agree(&parsed(1, 0, 0, "", ""), &parsed(1, 1, 0, "", ""), "a", "a"));
    assert!(!agree(&parsed(1, 0, 0, "", ""), &parsed(2, 0, 0, "", ""), "a", "a"));
    assert!(!agree(&parsed(1, 0, 0, "rc", ""), &parsed(1, 0, 0, "", ""), "a", "a"));
    assert!(!agree(&parsed(1, 0, 0, "", "x"), &parsed(1, 0, 0, "", "y"), "a", "a"));
    assert!(agree(&None, &parsed(1, 0, 0, "", ""), "same", "same"));
    assert!(!agree(&None, &parsed(1, 0, 0, "", ""), "one", "other"));
    assert!(agree(&None, &None, "same", "same"));
    assert!(!agree(&parsed(1, 0, 0, "", ""), &None, "one", "other"));
}

#[test]
fn valid_states_are_equal_by_version_equivalence() {
    let a = TaskValidState::Default("2".to_string());
    let b = TaskValidState::Default("2.0.0".to_string());
    let c = TaskValidState::Default("3".to_string());
    assert!(a == b);
    assert!(a != c);
    let g = TaskValidState::Gitversion(GitVersionState::new("3", "3", "6.0.3"));
    let h = TaskValidState::Gitversion(GitVersionState::new("3.0", "3.0.0", "6.0.3"));
    let i = TaskValidState::Gitversion(GitVersionState::new("3", "4", "6.0.3"));
    assert!(g == h);
    assert!(g != i);
    assert!(g != a);
    assert!(a != g);
}
