use abletime::{extract_version, is_session_boundary, Version};

#[test]
fn test_is_session_boundary() {
    // session boundary: the next project file is one minor version greater than the current
    let mut current_version: Option<Version> = Version::parse("0.1.0");
    let mut next_version: Option<Version> = Version::parse("0.2.0");
    assert_eq!(is_session_boundary(&current_version, &next_version, false), true);
    assert_eq!(is_session_boundary(&current_version, &next_version, true), true);

    // session boundary: the next project file is one major version greater than the current
    next_version = Version::parse("1.0.0");
    assert_eq!(is_session_boundary(&current_version, &next_version, false), true);
    assert_eq!(is_session_boundary(&current_version, &next_version, true), true);

    // not a session boundary: the next project file is one patch version greater than the current
    next_version = Version::parse("0.1.1");
    assert_eq!(is_session_boundary(&current_version, &next_version, false), false);
    assert_eq!(is_session_boundary(&current_version, &next_version, true), false);

    // session boundary: current version is none, next version is some
    current_version = None;
    assert_eq!(is_session_boundary(&current_version, &next_version, false), true);

    // not a session boundary: current version is none, next version is some, but versions are required
    assert_eq!(is_session_boundary(&current_version, &next_version, true), false);

    // session boundary: current version is some, next version is none
    current_version = Version::parse("0.1.0");
    next_version = None;
    assert_eq!(is_session_boundary(&current_version, &next_version, false), true);

    // not a session boundary: current version is none, next version is some, but versions are required
    current_version = None;
    next_version = Version::parse("0.1.0");
    assert_eq!(is_session_boundary(&current_version, &next_version, true), false);

    // not a session boundary: both versions are none
    current_version = None;
    next_version = None;
    assert_eq!(is_session_boundary(&current_version, &next_version, true), false);
    assert_eq!(is_session_boundary(&current_version, &next_version, false), false);
}

#[test]
fn session_boundary_needs_both_versions_where_they_are_required() {
    let versioned = Some(Version::new(0, 1, 0));
    assert_eq!(is_session_boundary(&versioned, &None, true), false);
    assert_eq!(is_session_boundary(&None, &versioned, true), false);
}

#[test]
fn session_boundary_compares_minor_and_major_each_by_itself() {
    // the major number grows while the minor number drops
    let current = Some(Version::new(1, 5, 0));
    let next = Some(Version::new(2, 0, 0));
    assert!(is_session_boundary(&current, &next, true));
    // the minor number grows while the major number drops
    let current = Some(Version::new(2, 0, 0));
    let next = Some(Version::new(1, 5, 0));
    assert!(is_session_boundary(&current, &next, true));
    // both drop
    let current = Some(Version::new(2, 5, 0));
    let next = Some(Version::new(1, 4, 9));
    assert!(!is_session_boundary(&current, &next, false));
    // the same version twice
    let current = Some(Version::new(2, 5, 1));
    let next = Some(Version::new(2, 5, 1));
    assert!(!is_session_boundary(&current, &next, false));
}

#[test]
fn version_new_is_a_release() {
    let v = Version::new(1, 2, 3);
    assert_eq!(v.major, 1);
    assert_eq!(v.minor, 2);
    assert_eq!(v.patch, 3);
    assert_eq!(v.pre, "");
    assert_eq!(v.build, "");
    assert_eq!(Some(v), Version::parse("1.2.3"));
}

#[test]
fn version_parse_reads_every_part() {
    let v = Version::parse("10.20.30-alpha.1+build.5").unwrap();
    assert_eq!(v.major, 10);
    assert_eq!(v.minor, 20);
    assert_eq!(v.patch, 30);
    assert_eq!(v.pre, "alpha.1");
    assert_eq!(v.build, "build.5");
}

#[test]
fn version_parse_rejects_what_is_no_version() {
    assert_eq!(Version::parse(""), None);
    assert_eq!(Version::parse("1.0"), None);
    assert_eq!(Version::parse("1.0.01"), None);
    assert_eq!(Version::parse("1.0.unknown"), None);
    assert_eq!(Version::parse("1.0.0-"), None);
    assert_eq!(Version::parse("1.0.0+"), None);
    assert_eq!(Version::parse("abletime 0.1.0.als"), None);
    assert_eq!(Version::parse("23456789999999999999.0.0"), None);
}

#[test]
fn extract_version_finds_the_version_in_a_name() {
    assert_eq!(extract_version("abletime 0.1.0.als"), Some(Version::new(0, 1, 0)));
    assert_eq!(extract_version("abletime 0.1.1.als"), Some(Version::new(0, 1, 1)));
    assert_eq!(extract_version("song-12.34.56"), Some(Version::new(12, 34, 56)));
    assert_eq!(extract_version("1.2.3"), Some(Version::new(1, 2, 3)));
}

#[test]
fn extract_version_takes_the_first_match() {
    assert_eq!(extract_version("a 1.2.3 b 4.5.6.als"), Some(Version::new(1, 2, 3)));
}

#[test]
fn extract_version_skips_a_leading_zero() {
    assert_eq!(extract_version("take 01.2.3"), Some(Version::new(1, 2, 3)));
}

#[test]
fn extract_version_reads_pre_release_and_build() {
    let v = extract_version("mix 1.0.0-rc.1+exp.sha.5114f85 final").unwrap();
    assert_eq!((v.major, v.minor, v.patch), (1, 0, 0));
    assert_eq!(v.pre, "rc.1");
    assert_eq!(v.build, "exp.sha.5114f85");
}

#[test]
fn extract_version_finds_none() {
    assert_eq!(extract_version(""), None);
    assert_eq!(extract_version("untitled.als"), None);
    assert_eq!(extract_version("draft 1.2.als"), None);
    assert_eq!(extract_version("v1"), None);
}

#[test]
fn extract_version_gives_none_for_a_number_too_large() {
    assert_eq!(extract_version("big 23456789999999999999.0.0.als"), None);
}
