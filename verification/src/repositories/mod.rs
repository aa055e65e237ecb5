//! Stores of the editor's data: the adapter registry's errors and the
//! in-memory projects.
pub mod adapter_repo;
pub mod project_repo;
