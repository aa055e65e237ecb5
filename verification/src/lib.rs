//! Gaea: the data model of a Minecraft resource and data pack editor.
//!
//! Minecraft versions and pack formats, project settings and pack metadata,
//! resource locations, the conversions between serialized and domain data,
//! translations, undo stacks, and the decisions the editor's services make
//! around file and archive I/O.
use vstd::prelude::*;

pub mod text;
pub mod version;
pub mod editor;
pub mod header;
pub mod app_context;
pub mod mc_version;
pub mod version_macro;
pub mod version_definitions;
pub mod mc_versions;
pub mod data;
pub mod json;
pub mod repositories;
pub mod services;

verus! {

} // verus!
