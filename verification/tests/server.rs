use std::io::Write;
use server_side::clock::{timestamp_of, Timestamp};
use server_side::data::error::Error;
use server_side::server::entities::{
    check_license_at, check_login, Account, License, LicenseError, LoginError, PluginData,
};
use server_side::server::update::{jar_version, JarVersionError, POM_PROPERTIES, find_property, update_available, update_needed, version_from_properties};
use server_side::server::version::Version;
use server_side::repo::jar::{plugin_data_json, JarError};

fn license(secs: i64, nanos: u32) -> License {
    License {
        id: "L-1".to_string(),
        license_type: "pro".to_string(),
        end_date: Timestamp { secs, nanos },
        owner_account_id: 7,
    }
}

#[test]
fn properties_version_is_found() {
    let text = "#Generated by Maven\ngroupId=org.lebastudios\nversion = 2.3.1 \r\nartifactId=desktop-app\n";
    assert_eq!(version_from_properties(text), Some("2.3.1".to_string()));
}

#[test]
fn properties_last_line_wins_and_value_keeps_equals() {
    let text = "version=1.0.0\nversion=a=b\n";
    assert_eq!(version_from_properties(text), Some("a=b".to_string()));
    assert_eq!(find_property("k=v\nversion\nother=1", "version"), None);
    assert_eq!(find_property("", "version"), None);
    assert_eq!(find_property(" key =  \n", "key"), Some(String::new()));
}

#[test]
fn update_available_decisions() {
    assert_eq!(update_available("1.0.0", "1.0.1").unwrap(), true);
    assert_eq!(update_available("1.0.1", "1.0.1").unwrap(), false);
    assert_eq!(update_available("2.0.0", "1.9.9").unwrap(), false);
    assert!(matches!(update_available("1.0", "1.0.1"), Err(Error::InvalidStringFormat(_))));
}

#[test]
fn update_needed_decisions() {
    let last = Version::new("1.2.0".to_string());
    assert!(update_needed("1.1.9", &last));
    assert!(!update_needed("1.2.0", &last));
    assert!(update_needed("1.2.0-BETA", &last));
    assert!(!update_needed("1.3", &last));
}

#[test]
fn license_validity_at_a_time() {
    let l = license(1_000, 5);
    assert!(l.is_valid_at(Timestamp { secs: 999, nanos: 999 }));
    assert!(l.is_valid_at(Timestamp { secs: 1_000, nanos: 4 }));
    assert!(!l.is_valid_at(Timestamp { secs: 1_000, nanos: 5 }));
    assert!(!l.is_valid_at(Timestamp { secs: 1_001, nanos: 0 }));
    assert_eq!(check_license_at(None, Timestamp { secs: 0, nanos: 0 }), Err(LicenseError::NotFound));
    assert_eq!(check_license_at(Some(&l), Timestamp { secs: 2_000, nanos: 0 }), Err(LicenseError::Expired));
    assert_eq!(check_license_at(Some(&l), Timestamp { secs: 10, nanos: 0 }), Ok(()));
}

#[test]
fn license_against_clock() {
    // Far in the past and far in the future.
    assert_eq!(license(0, 0).is_valid(), Some(false));
    assert_eq!(license(i64::MAX, 0).is_valid(), Some(true));
    assert_eq!(server_side::server::entities::check_license(Some(&license(-5, 0))), Err(LicenseError::Expired));
    assert_eq!(server_side::server::entities::check_license(Some(&license(i64::MAX, 0))), Ok(()));
    assert_eq!(server_side::server::entities::check_license(None), Err(LicenseError::NotFound));
}

#[test]
fn login_checks_password() {
    let a = Account { id: 1, password: "s3cret".to_string(), email: "a@b.c".to_string() };
    assert!(a.validate_password("s3cret"));
    assert!(!a.validate_password("s3cre"));
    assert_eq!(check_login(Some(&a), "s3cret"), Ok(()));
    assert_eq!(check_login(Some(&a), "nope"), Err(LoginError::InvalidCredentials));
    assert_eq!(check_login(None, "s3cret"), Err(LoginError::InvalidCredentials));
}

#[test]
fn plugin_data_version_and_equality() {
    let make = |name: &str, version: &str| PluginData {
        plugin_name: name.to_string(),
        plugin_icon: "table".to_string(),
        plugin_id: "plugin-table-drawing".to_string(),
        plugin_description: "Draw tables".to_string(),
        plugin_version: version.to_string(),
        plugin_vendor_url: "https://lebastudios.org".to_string(),
        plugin_required_core_version: "2.0.0".to_string(),
        plugin_dependency: vec![],
    };
    let a = make("Table Drawing", "1.0.0");
    let b = make("Table Drawing", "2.0.0");
    let c = make("Other", "1.0.0");
    assert!(a == b);
    assert!(a != c);
    assert_eq!(a.version().as_str(), "1.0.0");
}

fn zip_of(files: &[(&str, &[u8])]) -> Vec<u8> {
    let mut cursor = std::io::Cursor::new(Vec::new());
    {
        let mut w = zip::ZipWriter::new(&mut cursor);
        let opts = zip::write::SimpleFileOptions::default();
        for (name, content) in files {
            w.start_file(*name, opts).unwrap();
            w.write_all(content).unwrap();
        }
        w.finish().unwrap();
    }
    cursor.into_inner()
}

#[test]
fn jar_version_reads_pom_properties() {
    let jar = zip_of(&[("a.class", b"\xca\xfe"), (POM_PROPERTIES, b"groupId=x\nversion=3.1.4\n")]);
    assert_eq!(jar_version(&jar).unwrap(), "3.1.4");
}

#[test]
fn jar_version_failures() {
    assert!(matches!(jar_version(b"no zip"), Err(JarVersionError::Unreadable(_))));
    let other = zip_of(&[("pom.properties", b"version=1.0.0")]);
    assert!(matches!(jar_version(&other), Err(JarVersionError::MissingEntry)));
    let no_version = zip_of(&[(POM_PROPERTIES, b"groupId=x\n")]);
    assert!(matches!(jar_version(&no_version), Err(JarVersionError::NoVersion)));
    let binary = zip_of(&[(POM_PROPERTIES, b"\xff\xfe")]);
    assert!(matches!(jar_version(&binary), Err(JarVersionError::UnreadableEntry)));
}

/// Marks every entry of a zip as compressed with a method this build
/// cannot read (bzip2), in its local header and in the central directory.
fn with_unreadable_method(mut zip: Vec<u8>) -> Vec<u8> {
    let mut i = 0;
    while i + 12 <= zip.len() {
        if zip[i..i + 4] == [0x50, 0x4b, 0x03, 0x04] {
            zip[i + 8] = 12;
            zip[i + 9] = 0;
        } else if zip[i..i + 4] == [0x50, 0x4b, 0x01, 0x02] {
            zip[i + 10] = 12;
            zip[i + 11] = 0;
        }
        i += 1;
    }
    zip
}

#[test]
fn jar_version_unopenable_entry_is_unreadable() {
    let jar = with_unreadable_method(zip_of(&[(POM_PROPERTIES, b"version=3.1.4\n")]));
    assert!(matches!(jar_version(&jar), Err(JarVersionError::Unreadable(_))));
}

#[test]
fn unopenable_entries_still_open_the_archive() {
    let broken = with_unreadable_method(zip_of(&[("x/plugin-data.json", b"{\"a\":1}")]));
    assert!(matches!(plugin_data_json(&broken), Err(JarError::NoPluginData)));
}

#[test]
fn timestamp_of_fits_signed_seconds() {
    assert_eq!(timestamp_of(1_700_000_000, 5), Some(Timestamp { secs: 1_700_000_000, nanos: 5 }));
    assert_eq!(timestamp_of(i64::MAX as u64, 0), Some(Timestamp { secs: i64::MAX, nanos: 0 }));
    assert_eq!(timestamp_of(i64::MAX as u64 + 1, 0), None);
}
