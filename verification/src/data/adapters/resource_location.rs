//! Between a resource location's text and the domain resource location.
use vstd::prelude::*;
use crate::data::adapters::AdapterError;
use crate::data::domain::resource::{
    parse_location_spec, invalid_location_message, ResourceLocation as DomainResourceLocation,
    ResourceLocationError,
};
use crate::data::serialization::ResourceLocation as SerializationResourceLocation;
use crate::repositories::adapter_repo::AdapterFailure;

verus! {

/// Converts resource locations.
pub struct ResourceLocationAdapter;

impl AdapterError for ResourceLocationError {
    open spec fn spec_failure(self) -> AdapterFailure {
        AdapterFailure::ResourceLocation(self)
    }

    fn into_failure(self) -> (r: AdapterFailure) {
        AdapterFailure::ResourceLocation(self)
    }
}

impl ResourceLocationAdapter {
    /// Reads the location its text names (namespace `minecraft` when none
    /// is given).
    pub fn deserialize(serialized: &SerializationResourceLocation) -> (r: Result<
        DomainResourceLocation,
        ResourceLocationError,
    >)
        ensures
            match (r, parse_location_spec(serialized.0@)) {
                (Ok(loc), Some((ns, v))) => loc.namespace@ == ns && loc.value@ == v,
                (Err(e), None) => e.0@ == invalid_location_message(serialized.0@),
                _ => false,
            },
    {
        let text = serialized.to_string();
        DomainResourceLocation::from_str(text.as_str())
    }

    /// Writes a location as `namespace:value`.
    pub fn serialize(domain: &DomainResourceLocation) -> (r: Result<SerializationResourceLocation, ()>)
        ensures
            match r {
                Ok(s) => s.0@ == domain.display(),
                Err(_) => false,
            },
    {
        let text = domain.to_string();
        Ok(SerializationResourceLocation::new(text.as_str()))
    }
}

} // verus!
