//! The editor's services: translations, undo stacks, and the decisions
//! taken around file, archive and project I/O.
pub mod translation_service;
pub mod undo_service;
pub mod filesystem_service;
pub mod path_names;
pub mod zip_service;
pub mod project_service;
