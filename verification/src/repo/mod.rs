//! The plugin repository: where published plugins are kept, their
//! metadata, the search over them, and who may publish.

pub mod auth;
pub mod entities;
pub mod jar;
pub mod metadata;
pub mod publish;
pub mod resource;
pub mod search;
