//! The editor's own model of projects, packs, resources and versions.
pub mod pack_info;
pub mod project;
pub mod resource;
pub mod versions;
pub mod version;
