//! The resources of a published plugin version (its jar, icon and data
//! file) and where the repository keeps them.

use vstd::prelude::*;
use vstd::std_specs::convert::TryFromSpecImpl;
use crate::data::version::{version_text, Version};
use crate::text::{append_str, push_char, str_equal};

verus! {

/// A resource of a published plugin version.
#[derive(Debug, Clone, Copy, PartialEq, Eq, Structural)]
pub enum PluginResourceType {
    Jar,
    Icon,
    Data,
}

/// The name of a resource, which is also its file name in the repository.
pub open spec fn resource_name(t: PluginResourceType) -> Seq<char> {
    match t {
        PluginResourceType::Jar => "jar"@,
        PluginResourceType::Icon => "icon"@,
        PluginResourceType::Data => "data"@,
    }
}

/// The resource that a name denotes, if any.
pub open spec fn resource_of_name(s: Seq<char>) -> Option<PluginResourceType> {
    if s == "jar"@ {
        Some(PluginResourceType::Jar)
    } else if s == "icon"@ {
        Some(PluginResourceType::Icon)
    } else if s == "data"@ {
        Some(PluginResourceType::Data)
    } else {
        None
    }
}

/// A name that denotes no resource.
#[derive(Debug, Clone, Copy, PartialEq, Eq, Structural)]
pub enum ResourceTypeError {
    /// The name is none of `jar`, `icon` and `data`.
    InvalidResource,
}

impl ResourceTypeError {
    /// The message for a request that named resource `value`:
    /// `Invalid resource: <value>. expected jar, icon or data`.
    pub fn message(&self, value: &str) -> (res: String)
        ensures
            res@ == "Invalid resource: "@ + value@ + ". expected jar, icon or data"@,
    {
        let mut s = "Invalid resource: ".to_owned();
        append_str(&mut s, value);
        append_str(&mut s, ". expected jar, icon or data");
        s
    }
}

/// The folder of a plugin version inside the repository folder `dir`:
/// `dir/id/version`.
pub open spec fn folder_path(dir: Seq<char>, id: Seq<char>, version: Seq<char>) -> Seq<char> {
    dir + seq!['/'] + id + seq!['/'] + version
}

impl PluginResourceType {
    /// The name of the resource.
    pub fn to_string(&self) -> (res: String)
        ensures
            res@ == resource_name(*self),
    {
        match self {
            PluginResourceType::Jar => "jar".to_owned(),
            PluginResourceType::Icon => "icon".to_owned(),
            PluginResourceType::Data => "data".to_owned(),
        }
    }

    /// The resource that `value` names.
    pub fn from_name(value: &str) -> (res: Result<PluginResourceType, ResourceTypeError>)
        ensures
            res == match resource_of_name(value@) {
                Some(t) => Ok(t),
                None => Err(ResourceTypeError::InvalidResource),
            },
    {
        if str_equal(value, "jar") {
            Ok(PluginResourceType::Jar)
        } else if str_equal(value, "icon") {
            Ok(PluginResourceType::Icon)
        } else if str_equal(value, "data") {
            Ok(PluginResourceType::Data)
        } else {
            Err(ResourceTypeError::InvalidResource)
        }
    }
}

impl TryFrom<&str> for PluginResourceType {
    type Error = ResourceTypeError;

    fn try_from(value: &str) -> (res: Result<Self, Self::Error>) {
        PluginResourceType::from_name(value)
    }
}

impl TryFromSpecImpl<&str> for PluginResourceType {
    open spec fn obeys_try_from_spec() -> bool {
        true
    }

    open spec fn try_from_spec(v: &str) -> Result<Self, Self::Error> {
        match resource_of_name(v@) {
            Some(t) => Ok(t),
            None => Err(ResourceTypeError::InvalidResource),
        }
    }
}

/// Every resource's name denotes that resource.
pub proof fn lemma_resource_name_roundtrip(t: PluginResourceType)
    ensures
        resource_of_name(resource_name(t)) == Some(t),
{
    reveal_strlit("jar");
    reveal_strlit("icon");
    reveal_strlit("data");
    assert("jar"@.len() == 3 && "icon"@.len() == 4 && "data"@.len() == 4);
    assert("icon"@[0] == 'i' && "data"@[0] == 'd');
}

/// A name denotes a resource exactly when it is that resource's name.
pub proof fn lemma_resource_of_name_exact(s: Seq<char>, t: PluginResourceType)
    ensures
        resource_of_name(s) == Some(t) <==> s == resource_name(t),
{
    reveal_strlit("jar");
    reveal_strlit("icon");
    reveal_strlit("data");
    assert("jar"@.len() == 3 && "icon"@.len() == 4 && "data"@.len() == 4);
    assert("icon"@[0] == 'i' && "data"@[0] == 'd');
}

/// The folder of a plugin version in the repository folder `dir`.
pub fn get_plugin_folder_path(dir: &str, id: &str, version: &str) -> (res: String)
    ensures
        res@ == folder_path(dir@, id@, version@),
{
    let mut s = dir.to_owned();
    push_char(&mut s, '/');
    append_str(&mut s, id);
    push_char(&mut s, '/');
    append_str(&mut s, version);
    s
}

/// A resource of a plugin version, addressed by the plugin's identifier,
/// the version's text and the resource's name.
pub struct PluginResource {
    pub plugin_id: String,
    pub version: String,
    pub resource: String,
}

impl PluginResource {
    /// The address of `resource` of `version` of plugin `plugin_id`.
    pub fn new(plugin_id: &str, version: &Version, resource: &PluginResourceType) -> (res: Self)
        ensures
            res.plugin_id@ == plugin_id@,
            res.version@ == version_text(*version),
            res.resource@ == resource_name(*resource),
    {
        PluginResource {
            plugin_id: plugin_id.to_owned(),
            version: version.to_string(),
            resource: resource.to_string(),
        }
    }

    /// The plugin's identifier.
    pub fn plugin_id(&self) -> (res: &String)
        ensures
            res == &self.plugin_id,
    {
        &self.plugin_id
    }

    /// The version's text.
    pub fn version(&self) -> (res: &String)
        ensures
            res == &self.version,
    {
        &self.version
    }

    /// The resource's name.
    pub fn resource(&self) -> (res: &String)
        ensures
            res == &self.resource,
    {
        &self.resource
    }

    /// Whether the address asks for the plugin's latest version: its
    /// version's text is `last`.
    pub fn wants_latest(&self) -> (res: bool)
        ensures
            res == (self.version@ == "last"@),
    {
        str_equal(self.version.as_str(), "last")
    }

    /// Replaces the version's text.
    pub fn set_version(&mut self, version: String)
        ensures
            final(self).version == version,
            final(self).plugin_id == old(self).plugin_id,
            final(self).resource == old(self).resource,
    {
        self.version = version;
    }

    /// Where the resource lies in the repository folder `dir`:
    /// `dir/plugin_id/version/resource`.
    pub fn get_path(&self, dir: &str) -> (res: String)
        ensures
            res@ == folder_path(dir@, self.plugin_id@, self.version@) + seq!['/'] + self.resource@,
    {
        let mut s = get_plugin_folder_path(dir, self.plugin_id.as_str(), self.version.as_str());
        push_char(&mut s, '/');
        append_str(&mut s, self.resource.as_str());
        s
    }
}

} // verus!
