//! What the update server stores: plugin descriptors, accounts, licenses,
//! installations and remote support requests.

use std::hash::{Hash, Hasher};
use crate::text::hash_string;
use vstd::prelude::*;
use vstd::std_specs::cmp::PartialEqSpecImpl;
use crate::clock::{clock_time, is_after, utc_now, Timestamp};
use crate::server::version::Version;

verus! {

/// A plugin's descriptor as the update server reads it.
pub struct PluginData {
    pub plugin_name: String,
    pub plugin_icon: String,
    pub plugin_id: String,
    pub plugin_description: String,
    pub plugin_version: String,
    pub plugin_vendor_url: String,
    pub plugin_required_core_version: String,
    pub plugin_dependency: Vec<PluginDependency>,
}

impl PluginData {
    /// The plugin's version.
    pub fn version(&self) -> (res: Version)
        ensures
            res@ == self.plugin_version@,
    {
        Version::new(self.plugin_version.clone())
    }
}

impl PartialEq for PluginData {
    fn eq(&self, other: &Self) -> (res: bool) {
        self.plugin_name == other.plugin_name
    }
}

impl PartialEqSpecImpl for PluginData {
    open spec fn obeys_eq_spec() -> bool {
        true
    }

    /// Two descriptors are equal when they name the same plugin.
    open spec fn eq_spec(&self, other: &Self) -> bool {
        self.plugin_name@ == other.plugin_name@
    }
}

impl Hash for PluginData {
    /// Hashes the plugin's name, as equality compares names.
    fn hash<H: Hasher>(&self, state: &mut H) {
        hash_string(&self.plugin_name, state)
    }
}

/// A plugin that another plugin needs, in a given version.
pub struct PluginDependency {
    pub plugin_name: String,
    pub plugin_version: String,
}

/// A user account.
pub struct Account {
    pub id: i32,
    pub password: String,
    pub email: String,
}

impl Account {
    /// Whether `password` is this account's password.
    pub fn validate_password(&self, password: &str) -> (res: bool)
        ensures
            res == (self.password@ == password@),
    {
        self.password.as_str().to_owned() == password.to_owned()
    }
}

/// A license of an account, valid until its end date.
pub struct License {
    pub id: String,
    pub license_type: String,
    pub end_date: Timestamp,
    pub owner_account_id: i32,
}

impl License {
    /// Whether the license is still valid at `now`: its end date lies after
    /// `now`.
    pub fn is_valid_at(&self, now: Timestamp) -> (res: bool)
        ensures
            res == is_after(self.end_date, now),
    {
        self.end_date.after(&now)
    }

    /// Whether the license is still valid now, by the UTC clock: whether
    /// it is valid at the time that the clock gives, `None` where the clock
    /// gives none (it is set before the Unix epoch).
    pub fn is_valid(&self) -> (res: Option<bool>)
        ensures
            res matches Some(b) ==> exists|now: Timestamp|
                clock_time(now) && b == #[trigger] is_after(self.end_date, now),
    {
        match utc_now() {
            Some(now) => {
                let b = self.is_valid_at(now);
                assert(clock_time(now) && b == is_after(self.end_date, now));
                Some(b)
            },
            None => None,
        }
    }
}

/// Why a license check failed.
#[derive(Debug, Clone, Copy, PartialEq, Eq, Structural)]
pub enum LicenseError {
    /// No license was found.
    NotFound,
    /// The license has expired.
    Expired,
    /// The clock gives no time to check the license against.
    ClockUnavailable,
}

/// The outcome of checking a license that a lookup found, or did not find,
/// at `now`: `NotFound` where there is none, else valid exactly when its
/// end date lies after `now`.
pub open spec fn license_outcome(license: Option<&License>, now: Timestamp) -> Result<(), LicenseError> {
    match license {
        None => Err(LicenseError::NotFound),
        Some(l) => if is_after(l.end_date, now) {
            Ok(())
        } else {
            Err(LicenseError::Expired)
        },
    }
}

/// Checks a license that a lookup found, or did not find, at `now`.
pub fn check_license_at(license: Option<&License>, now: Timestamp) -> (res: Result<(), LicenseError>)
    ensures
        res == license_outcome(license, now),
{
    match license {
        None => Err(LicenseError::NotFound),
        Some(l) => if l.is_valid_at(now) {
            Ok(())
        } else {
            Err(LicenseError::Expired)
        },
    }
}

/// Checks a license that a lookup found, or did not find, against the UTC
/// clock: `NotFound` exactly when there is none (the clock is not read
/// then); otherwise the outcome at the time that the clock gives, or
/// `ClockUnavailable` where it gives none.
pub fn check_license(license: Option<&License>) -> (res: Result<(), LicenseError>)
    ensures
        license is None <==> res == Err::<(), LicenseError>(LicenseError::NotFound),
        license is Some ==> res == Err::<(), LicenseError>(LicenseError::ClockUnavailable) || exists|
            now: Timestamp,
        | clock_time(now) && res == #[trigger] license_outcome(license, now),
{
    if license.is_none() {
        return Err(LicenseError::NotFound);
    }
    match utc_now() {
        Some(now) => {
            let res = check_license_at(license, now);
            assert(clock_time(now) && res == license_outcome(license, now));
            res
        },
        None => Err(LicenseError::ClockUnavailable),
    }
}

/// Why a login failed.
#[derive(Debug, Clone, Copy, PartialEq, Eq, Structural)]
pub enum LoginError {
    /// No such account, or the wrong password.
    InvalidCredentials,
}

/// Checks a login: the account that a lookup by e-mail found, if any, must
/// have the given password.
pub fn check_login(account: Option<&Account>, password: &str) -> (res: Result<(), LoginError>)
    ensures
        res == match account {
            None => Err(LoginError::InvalidCredentials),
            Some(a) => if a.password@ == password@ {
                Ok(())
            } else {
                Err(LoginError::InvalidCredentials)
            },
        },
{
    match account {
        None => Err(LoginError::InvalidCredentials),
        Some(a) => if a.validate_password(password) {
            Ok(())
        } else {
            Err(LoginError::InvalidCredentials)
        },
    }
}

/// The state of a remote support request.
#[derive(Debug, Clone, Copy, PartialEq, Eq, Structural)]
pub enum Status {
    Pending,
    Accepted,
    Rejected,
    Cancelled,
    Finished,
}

/// A request for remote support.
pub struct RemoteSuppRequest {
    pub id: u32,
    pub uuid: String,
    pub created_at: Timestamp,
    pub status: Status,
}

/// An installation of the desktop application.
pub struct AppInstallation {
    pub uuid: String,
    pub version: crate::data::version::Version,
    pub license_id: License,
    pub last_used_at: Timestamp,
}

} // verus!
