//! The rows that the repository's database keeps, and the decision of how
//! publishing a plugin version changes them.

use std::cmp::Ordering;
use vstd::prelude::*;
use crate::data::error::Error;
use crate::data::plugin::PluginData;
use crate::data::version::{parse_version, version_order, version_text, Version};
use crate::text::{append_str, push_char};

verus! {

/// A category that plugins can belong to.
pub struct Category {
    pub name: String,
}

impl Category {
    /// The category called `name`.
    pub fn new(name: &str) -> (res: Self)
        ensures
            res.name@ == name@,
    {
        Category { name: name.to_owned() }
    }

    /// The category's name.
    pub fn name(&self) -> (res: &String)
        ensures
            res == &self.name,
    {
        &self.name
    }
}

/// A tag that plugins can carry.
pub struct Tag {
    pub name: String,
}

impl Tag {
    /// The tag called `name`.
    pub fn new(name: &str) -> (res: Self)
        ensures
            res.name@ == name@,
    {
        Tag { name: name.to_owned() }
    }

    /// The tag's name.
    pub fn name(&self) -> (res: &String)
        ensures
            res == &self.name,
    {
        &self.name
    }
}

/// A plugin and its latest version.
pub struct Plugin {
    pub id: String,
    pub name: String,
    pub last_version: String,
}

impl Plugin {
    /// Plugin `id` called `name`, latest at `version`.
    pub fn new(id: &str, name: &str, version: &Version) -> (res: Self)
        ensures
            res.id@ == id@,
            res.name@ == name@,
            res.last_version@ == version_text(*version),
    {
        Plugin { id: id.to_owned(), name: name.to_owned(), last_version: version.to_string() }
    }

    /// The plugin's identifier.
    pub fn id(&self) -> (res: &String)
        ensures
            res == &self.id,
    {
        &self.id
    }

    /// The plugin's name.
    pub fn name(&self) -> (res: &String)
        ensures
            res == &self.name,
    {
        &self.name
    }

    /// The text of the plugin's latest version.
    pub fn last_version(&self) -> (res: &String)
        ensures
            res == &self.last_version,
    {
        &self.last_version
    }
}

/// A published version of a plugin.
pub struct PluginVersion {
    pub id: String,
    pub version: String,
}

impl PluginVersion {
    /// Version `version` of plugin `id`.
    pub fn new(id: &str, version: &Version) -> (res: Self)
        ensures
            res.id@ == id@,
            res.version@ == version_text(*version),
    {
        PluginVersion { id: id.to_owned(), version: version.to_string() }
    }

    /// The plugin's identifier.
    pub fn id(&self) -> (res: &String)
        ensures
            res == &self.id,
    {
        &self.id
    }

    /// The version's text.
    pub fn version(&self) -> (res: &String)
        ensures
            res == &self.version,
    {
        &self.version
    }
}

/// How publishing a plugin version changes the plugin's row.
#[derive(Debug, Clone, Copy, PartialEq, Eq, Structural)]
pub enum PluginChange {
    /// There is no row yet: insert one.
    Insert,
    /// The new version comes after the stored latest one: update the row
    /// and the plugin's tags and categories.
    Update,
    /// The stored latest version is the same or later: leave the row.
    Keep,
}

/// Decides how publishing version `version` changes the plugin's row,
/// given the stored text of its latest version where there is a row; an
/// error where that text is no valid version.
pub fn plan_plugin_change(stored_last_version: Option<&str>, version: &Version) -> (res: Result<
    PluginChange,
    Error,
>)
    ensures
        res == match stored_last_version {
            None => Ok(PluginChange::Insert),
            Some(s) => match parse_version(s@) {
                Err(e) => Err(e),
                Ok(old) => if version_order(old, *version) == Ordering::Less {
                    Ok(PluginChange::Update)
                } else {
                    Ok(PluginChange::Keep)
                },
            },
        },
{
    match stored_last_version {
        None => Ok(PluginChange::Insert),
        Some(s) => {
            let old = Version::parse(s)?;
            if old < *version {
                Ok(PluginChange::Update)
            } else {
                Ok(PluginChange::Keep)
            }
        },
    }
}

/// How a published plugin is named in messages: `id:version`.
pub fn plugin_label(data: &PluginData) -> (res: String)
    ensures
        res@ == data.id@ + seq![':'] + version_text(data.version),
{
    let mut s = data.id.clone();
    push_char(&mut s, ':');
    let v = data.version.to_string();
    append_str(&mut s, v.as_str());
    s
}

} // verus!
