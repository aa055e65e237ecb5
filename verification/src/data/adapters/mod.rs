//! Conversions between serialized data and the domain model.
use vstd::prelude::*;
use crate::repositories::adapter_repo::AdapterFailure;
use std::sync::Arc;

pub mod pack_info;
pub mod project;
pub mod resource_location;

verus! {

/// An error an adapter can report.
pub trait AdapterError: Sized {
    /// The failure the error is reported as.
    spec fn spec_failure(self) -> AdapterFailure;

    fn into_failure(self) -> (r: AdapterFailure)
        ensures
            r == self.spec_failure(),
    ;
}

/// The value handed to an adapter, shared.
#[derive(Debug)]
pub struct AdapterInput<T>(pub Arc<T>);

impl<T> AdapterInput<T> {
    pub fn new(inner: T) -> (r: Self)
        ensures
            *r.0 == inner,
    {
        AdapterInput(Arc::new(inner))
    }

    pub fn with_arc(arc: Arc<T>) -> (r: Self)
        ensures
            r.0 == arc,
    {
        AdapterInput(arc)
    }

    pub fn get(&self) -> (r: &T)
        ensures
            *r == *self.0,
    {
        &*self.0
    }
}

} // verus!
