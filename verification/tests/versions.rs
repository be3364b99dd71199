use server_side::data::error::Error;
use server_side::data::version::Version;
use server_side::server::version::{version_weight, Version as AppVersion};
use std::cmp::Ordering;

#[test]
fn version_test_versions_comparator() {
    let version1 = Version::new("1.0.0".to_string()).unwrap();
    let version2 = Version::new("1.0.0".to_string()).unwrap();
    assert_eq!(version1.cmp(&version2), Ordering::Equal);

    let version1 = Version::new("1.0.0".to_string()).unwrap();
    let version2 = Version::new("1.0.1".to_string()).unwrap();
    assert!(version1 < version2);

    let version1 = Version::new("1.0.0".to_string()).unwrap();
    let version2 = Version::new("0.1.28".to_string()).unwrap();
    assert_eq!(version1.cmp(&version2), Ordering::Greater);

    let version1 = Version::new("1.1.9".to_string()).unwrap();
    let version2 = Version::new("1.1.10".to_string()).unwrap();
    assert_eq!(version1.cmp(&version2), Ordering::Less);
}

#[test]
fn lib_test_versions_comparator() {
    let version1 = AppVersion::new("1.0.0".to_string());
    let version2 = AppVersion::new("1.0.0".to_string());
    assert_eq!(version1.cmp(&version2), Ordering::Equal);

    let version1 = AppVersion::new("1.0.0".to_string());
    let version2 = AppVersion::new("1.0.1".to_string());
    assert_eq!(version1.cmp(&version2), Ordering::Less);

    let version1 = AppVersion::new("1.0.0".to_string());
    let version2 = AppVersion::new("1.0.0-SNAPSHOT".to_string());
    assert_eq!(version1.cmp(&version2), Ordering::Greater);

    let version1 = AppVersion::new("1.0.0".to_string());
    let version2 = AppVersion::new("1.0.0-ALPHA".to_string());
    assert_eq!(version1.cmp(&version2), Ordering::Greater);

    let version1 = AppVersion::new("1.0.0".to_string());
    let version2 = AppVersion::new("1.0.0-BETA".to_string());
    assert_eq!(version1.cmp(&version2), Ordering::Greater);

    let version1 = AppVersion::new("1.0.0".to_string());
    let version2 = AppVersion::new("1.0.0-RC".to_string());
    assert_eq!(version1.cmp(&version2), Ordering::Greater);

    let version1 = AppVersion::new("1.0.0".to_string());
    let version2 = AppVersion::new("1.0.0-PRERELEASE".to_string());
    assert_eq!(version1.cmp(&version2), Ordering::Greater);

    let version1 = AppVersion::new("1.0.0".to_string());
    let version2 = AppVersion::new("1.0.0-RELEASE".to_string());
    assert_eq!(version1.cmp(&version2), Ordering::Equal);

    let version1 = AppVersion::new("1.0.0".to_string());
    let version2 = AppVersion::new("0.1.28".to_string());
    assert_eq!(version1.cmp(&version2), Ordering::Greater);

    let version1 = AppVersion::new("1.1.9".to_string());
    let version2 = AppVersion::new("1.1.10".to_string());
    assert_eq!(version1.cmp(&version2), Ordering::Less);
}

#[test]
fn version_parse_accepts_whitespace_and_plus() {
    let v = Version::parse("  +1.02.3\n").unwrap();
    assert_eq!(v, Version { major: 1, minor: 2, patch: 3 });
    assert_eq!(Version::parse("4294967295.0.0").unwrap().major, u32::MAX);
}

#[test]
fn version_parse_errors() {
    assert!(matches!(Version::parse("1.0"), Err(Error::InvalidStringFormat(m)) if m == "Version must have major, minor and patch"));
    assert!(matches!(Version::parse("1.0.0.0"), Err(Error::InvalidStringFormat(m)) if m == "Version must have major, minor and patch"));
    assert!(matches!(Version::parse("x.0.0"), Err(Error::InvalidStringFormat(m)) if m == "Major version is not a number"));
    assert!(matches!(Version::parse("1.-1.0"), Err(Error::InvalidStringFormat(m)) if m == "Minor version is not a number"));
    assert!(matches!(Version::parse("1.0.4294967296"), Err(Error::InvalidStringFormat(m)) if m == "Patch version is not a number"));
    assert!(matches!(Version::parse("1.+.0"), Err(Error::InvalidStringFormat(m)) if m == "Minor version is not a number"));
    assert!(Version::parse("").is_err());
}

#[test]
fn version_to_string_roundtrip() {
    let v = Version { major: 12, minor: 0, patch: 305 };
    assert_eq!(v.to_string(), "12.0.305");
    assert_eq!(Version::parse(&v.to_string()).unwrap(), v);
    let w = Version { major: u32::MAX, minor: 7, patch: 0 };
    assert_eq!(Version::parse(&w.to_string()).unwrap(), w);
}

#[test]
fn version_order_laws_on_values() {
    let a = Version::parse("1.2.3").unwrap();
    let b = Version::parse("1.10.0").unwrap();
    let c = Version::parse("2.0.0").unwrap();
    assert_eq!(a.cmp(&a), Ordering::Equal);
    assert_eq!(a.cmp(&b), Ordering::Less);
    assert_eq!(b.cmp(&a), Ordering::Greater);
    assert!(a < b && b < c && a < c);
    assert_eq!(Version::default(), Version { major: 0, minor: 0, patch: 0 });
}

#[test]
fn version_try_from_str() {
    let v: Version = "3.4.5".try_into().unwrap();
    assert_eq!(v, Version { major: 3, minor: 4, patch: 5 });
    let e: Result<Version, Error> = "3.4".try_into();
    assert!(e.is_err());
}

#[test]
fn app_version_weights() {
    assert_eq!(version_weight("SNAPSHOT"), Some(0));
    assert_eq!(version_weight("ALPHA"), Some(1));
    assert_eq!(version_weight("BETA"), Some(2));
    assert_eq!(version_weight("RC"), Some(3));
    assert_eq!(version_weight("PRERELEASE"), Some(4));
    assert_eq!(version_weight("RELEASE"), Some(5));
    assert_eq!(version_weight("release"), None);
}

#[test]
fn app_version_edge_cases() {
    let v = |s: &str| AppVersion::new(s.to_string());
    assert_eq!(v("1.0.0-ALPHA").cmp(&v("1.0.0-BETA")), Ordering::Less);
    assert_eq!(v("1.0.0-UNKNOWN").cmp(&v("1.0.0")), Ordering::Equal);
    assert_eq!(v("1.0").cmp(&v("1.0.0")), Ordering::Less);
    assert_eq!(v("-1.0.0").cmp(&v("0.0.0")), Ordering::Less);
    assert_eq!(v("x.0").cmp(&v("1.0")), Ordering::Less);
    assert_eq!(v("1.0").cmp(&v("x.0")), Ordering::Greater);
    // Both sides unreadable at the same place: each is "less" than the other.
    assert_eq!(v("a").cmp(&v("b")), Ordering::Less);
    assert_eq!(v("b").cmp(&v("a")), Ordering::Less);
    assert!(v("1.0.0") == v("1.0.0"));
    assert!(v("1.0.0") != v("1.0.0-RELEASE"));
    assert!(v("1.0.0") < v("1.0.1"));
}

#[test]
fn data_error_message() {
    let e = Version::parse("1.2").unwrap_err();
    assert_eq!(e.to_string(), "invalid string format: Version must have major, minor and patch");
}

#[test]
fn app_version_order_laws_on_values() {
    let v = |s: &str| AppVersion::new(s.to_string());
    let list = ["1.0.0-SNAPSHOT", "1.0.0-RC", "1.0.0", "1.0.1", "1.1", "x", "1.x", "2"];
    for a in list {
        assert_eq!(v(a).cmp(&v(a)), Ordering::Equal);
        for b in list {
            if v(a).cmp(&v(b)) == Ordering::Greater {
                assert_eq!(v(b).cmp(&v(a)), Ordering::Less);
            }
            for c in list {
                if v(a).cmp(&v(b)) != Ordering::Greater && v(b).cmp(&v(c)) != Ordering::Greater {
                    assert_ne!(v(a).cmp(&v(c)), Ordering::Greater);
                }
            }
        }
    }
    assert_eq!(v("1.2").cmp(&v("1.10")), Ordering::Less);
    assert_eq!(v("1.10").cmp(&v("1.2")), Ordering::Greater);
}

#[test]
fn data_version_equality_is_equal_order() {
    let a = Version::parse("1.2.3").unwrap();
    let b = Version::parse(" 1.2.3 ").unwrap();
    let c = Version::parse("1.2.4").unwrap();
    assert!(a == b);
    assert_eq!(a.cmp(&b), Ordering::Equal);
    assert!(a != c);
    assert_ne!(a.cmp(&c), Ordering::Equal);
}
