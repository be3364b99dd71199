//! The metadata that the repository keeps per plugin: every version
//! published, the latest one, and when it last changed.

use std::cmp::Ordering;
use vstd::prelude::*;
use crate::clock::{unix_secs_now, ClockError};
use crate::data::version::{version_order, Version};

verus! {

/// The versions of a plugin: the latest and all that were published.
pub struct Versioning {
    pub last: Version,
    pub versions: Vec<Version>,
}

/// The metadata of a plugin.
pub struct Metadata {
    pub plugin_id: String,
    pub versioning: Versioning,
    pub last_updated: u64,
}

/// The latest of `last` and `version`: `version` where it comes after
/// `last`, `last` otherwise.
pub open spec fn later_version(last: Version, version: Version) -> Version {
    if version_order(version, last) == Ordering::Greater {
        version
    } else {
        last
    }
}

/// `last` is no earlier than every version in `versions`, and is either
/// one of them or `0.0.0`.
pub open spec fn latest_is_last(last: Version, versions: Seq<Version>) -> bool {
    &&& forall|i: int| 0 <= i < versions.len()
        ==> version_order(#[trigger] versions[i], last) != Ordering::Greater
    &&& (versions.contains(last) || last == Version { major: 0, minor: 0, patch: 0 })
}

impl Versioning {
    /// The latest version.
    pub fn last(&self) -> (res: &Version)
        ensures
            res == &self.last,
    {
        &self.last
    }

    /// All published versions, in the order of publication.
    pub fn versions(&self) -> (res: &Vec<Version>)
        ensures
            res == &self.versions,
    {
        &self.versions
    }
}

impl Metadata {
    /// The metadata of a plugin of which nothing was published yet: latest
    /// version `0.0.0`, no versions, never updated.
    pub fn default(plugin_id: &str) -> (res: Self)
        ensures
            res.plugin_id@ == plugin_id@,
            res.versioning.last == (Version { major: 0, minor: 0, patch: 0 }),
            res.versioning.versions@ == Seq::<Version>::empty(),
            res.last_updated == 0,
    {
        Metadata {
            plugin_id: plugin_id.to_owned(),
            versioning: Versioning { last: Version::default(), versions: Vec::new() },
            last_updated: 0,
        }
    }

    /// The plugin's identifier.
    pub fn plugin_id(&self) -> (res: &String)
        ensures
            res == &self.plugin_id,
    {
        &self.plugin_id
    }

    /// The plugin's versions.
    pub fn versioning(&self) -> (res: &Versioning)
        ensures
            res == &self.versioning,
    {
        &self.versioning
    }

    /// When the metadata last changed, in seconds since the Unix epoch.
    pub fn last_updated(&self) -> (res: &u64)
        ensures
            res == &self.last_updated,
    {
        &self.last_updated
    }

    /// Records a newly published version at time `now`: it joins the
    /// versions, becomes the latest where it comes after the latest, and
    /// `now` becomes the time of the last change.
    pub fn add_version_at(&mut self, version: Version, now: u64)
        ensures
            final(self).plugin_id == old(self).plugin_id,
            final(self).versioning.versions@ == old(self).versioning.versions@.push(version),
            final(self).versioning.last == later_version(old(self).versioning.last, version),
            final(self).last_updated == now,
    {
        if version > self.versioning.last {
            self.versioning.last = version.clone();
        }
        self.versioning.versions.push(version);
        self.last_updated = now;
    }

    /// Records a newly published version now: as `add_version_at` at the
    /// system clock's time in whole seconds since the Unix epoch; where the
    /// clock is set before the epoch, a `ClockError` and the metadata left
    /// as it was.
    pub fn add_version(&mut self, version: Version) -> (res: Result<(), ClockError>)
        ensures
            final(self).plugin_id == old(self).plugin_id,
            res is Ok ==> final(self).versioning.versions@ == old(self).versioning.versions@.push(
                version,
            ),
            res is Ok ==> final(self).versioning.last == later_version(
                old(self).versioning.last,
                version,
            ),
            res is Err ==> final(self).versioning.versions@ == old(self).versioning.versions@,
            res is Err ==> final(self).versioning.last == old(self).versioning.last,
            res is Err ==> final(self).last_updated == old(self).last_updated,
    {
        match unix_secs_now() {
            Some(now) => {
                self.add_version_at(version, now);
                Ok(())
            },
            None => Err(ClockError),
        }
    }
}

/// Adding a version keeps the latest version the greatest of all published
/// ones (or `0.0.0` while there are none greater).
pub proof fn lemma_add_version_keeps_latest(last: Version, versions: Seq<Version>, version: Version)
    requires
        latest_is_last(last, versions),
    ensures
        latest_is_last(later_version(last, version), versions.push(version)),
{
    let nl = later_version(last, version);
    let nv = versions.push(version);
    assert forall|i: int| 0 <= i < nv.len() implies version_order(#[trigger] nv[i], nl)
        != Ordering::Greater by {
        if i < versions.len() {
            assert(nv[i] == versions[i]);
            assert(version_order(versions[i], last) != Ordering::Greater);
        }
    }
    if nl == version {
        assert(nv.last() == version);
    } else if versions.contains(last) {
        let j = choose|j: int| 0 <= j < versions.len() && versions[j] == last;
        assert(nv[j] == last);
    }
}

/// A plugin of which nothing was published has `0.0.0` as its latest
/// version, consistently.
pub proof fn lemma_default_latest_is_last()
    ensures
        latest_is_last(Version { major: 0, minor: 0, patch: 0 }, Seq::<Version>::empty()),
{
}

} // verus!
