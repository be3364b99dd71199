//! The update server: application versions with release qualifiers, the
//! entities it stores and the decisions behind its endpoints.

pub mod entities;
pub mod update;
pub mod version;
