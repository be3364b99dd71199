//! Plugin repository and update server logic: version strings, plugin
//! metadata, resource paths, search queries, publishing authorisation and
//! plugin jar inspection.

pub mod clock;
pub mod text;
pub mod data;
pub mod server;
pub mod repo;
