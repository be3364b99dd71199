//! Data shared by the plugin repository and the update server: semantic
//! versions and the plugin descriptor.

pub mod error;
pub mod plugin;
pub mod version;
