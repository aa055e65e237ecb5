//! The stages an application context is assembled in, each a type of its
//! own, so that a context is only used once every service is in place.
use vstd::prelude::*;

verus! {

/// No service is in place yet.
#[derive(Debug, Clone, Copy, PartialEq, Eq, Structural)]
pub struct Uninitialized;

/// The file service is in place.
#[derive(Debug, Clone, Copy, PartialEq, Eq, Structural)]
pub struct FilesystemInitialized;

/// The project service is in place.
#[derive(Debug, Clone, Copy, PartialEq, Eq, Structural)]
pub struct ProjectServiceInitialized;

/// The undo service is in place.
#[derive(Debug, Clone, Copy, PartialEq, Eq, Structural)]
pub struct UndoServiceInitialized;

/// Every service is in place.
#[derive(Debug, Clone, Copy, PartialEq, Eq, Structural)]
pub struct Finalized;

/// Access to the adapters; they are plain functions, so it holds nothing.
#[derive(Debug, Clone, Copy, PartialEq, Eq, Structural)]
pub struct AdapterRepoContext;

impl AdapterRepoContext {
    pub fn new() -> (r: Self) {
        AdapterRepoContext
    }
}

} // verus!
