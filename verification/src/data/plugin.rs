//! The descriptor that every plugin jar carries.

use vstd::prelude::*;
use vstd::std_specs::cmp::PartialEqSpecImpl;
use std::hash::{Hash, Hasher};
use crate::text::hash_string;
use crate::data::version::Version;

verus! {

/// A plugin's descriptor: its identity, version, vendor, labels and
/// dependencies.
pub struct PluginData {
    pub name: String,
    pub id: String,
    pub description: String,
    pub version: Version,
    pub vendor: String,
    pub vendor_url: String,
    pub tags: Option<Vec<String>>,
    pub categories: Option<Vec<String>>,
    pub dependencies: Vec<PluginDependency>,
}

/// A plugin that another plugin needs, in a given version.
pub struct PluginDependency {
    pub plugin_id: String,
    pub plugin_version: String,
}

impl PluginData {
    /// The plugin's name.
    pub fn name(&self) -> (res: &String)
        ensures
            res == &self.name,
    {
        &self.name
    }

    /// The plugin's identifier.
    pub fn id(&self) -> (res: &String)
        ensures
            res == &self.id,
    {
        &self.id
    }

    /// The plugin's description.
    pub fn description(&self) -> (res: &String)
        ensures
            res == &self.description,
    {
        &self.description
    }

    /// The plugin's version.
    pub fn version(&self) -> (res: &Version)
        ensures
            res == &self.version,
    {
        &self.version
    }

    /// The plugin's vendor.
    pub fn vendor(&self) -> (res: &String)
        ensures
            res == &self.vendor,
    {
        &self.vendor
    }

    /// The vendor's web address.
    pub fn vendor_url(&self) -> (res: &String)
        ensures
            res == &self.vendor_url,
    {
        &self.vendor_url
    }

    /// The plugin's tags, if it names any.
    pub fn tags(&self) -> (res: &Option<Vec<String>>)
        ensures
            res == &self.tags,
    {
        &self.tags
    }

    /// The plugin's categories, if it names any.
    pub fn categories(&self) -> (res: &Option<Vec<String>>)
        ensures
            res == &self.categories,
    {
        &self.categories
    }

    /// The plugins that this one needs.
    pub fn dependencies(&self) -> (res: &Vec<PluginDependency>)
        ensures
            res == &self.dependencies,
    {
        &self.dependencies
    }
}

impl PartialEq for PluginData {
    fn eq(&self, other: &Self) -> (res: bool) {
        self.name == other.name
    }
}

impl PartialEqSpecImpl for PluginData {
    open spec fn obeys_eq_spec() -> bool {
        true
    }

    /// Two descriptors are equal when they carry the same name.
    open spec fn eq_spec(&self, other: &Self) -> bool {
        self.name@ == other.name@
    }
}

impl Hash for PluginData {
    /// Hashes the plugin's identifier.
    fn hash<H: Hasher>(&self, state: &mut H) {
        hash_string(&self.id, state)
    }
}

} // verus!
