//! Domain data, its serialized forms, and the adapters between them.
pub mod adapters;
pub mod domain;
pub mod serialization;
