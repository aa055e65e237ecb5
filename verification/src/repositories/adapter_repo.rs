//! The registry of adapters: which conversions between serialized data and
//! the domain model are available, converting through them, and the errors
//! of doing so.
use vstd::prelude::*;
use crate::data::adapters::AdapterError;
use crate::data::adapters::pack_info::{
    deserialize_pack_info_spec, serialize_pack_info_spec, PackInfoAdapter,
    PackInfoDeserializationError, PackInfoSerializationError, PackInfoSerializationInput,
};
use crate::data::adapters::project::{
    deserialize_project_spec, deserialized_as, has_formats, serialized_from, ProjectAdapter,
    ProjectDeserializeError, ProjectSerializeError, SerializedProjectData,
};
use crate::data::adapters::resource_location::ResourceLocationAdapter;
use crate::data::domain::project::Project as DomainProject;
use crate::data::domain::resource::{
    invalid_location_message, parse_location_spec, ResourceLocation as DomainResourceLocation,
    ResourceLocationError,
};
use crate::data::serialization::pack_info::{PackFormat, PackInfo as SerializedPackInfo};
use crate::text::{dec_nat, push_dec_u128};
use crate::data::serialization::ResourceLocation as SerializedResourceLocation;

verus! {

/// The error an adapter reported.
#[derive(Debug)]
pub enum AdapterFailure {
    PackInfoDeserialization(PackInfoDeserializationError),
    PackInfoSerialization(PackInfoSerializationError),
    ResourceLocation(ResourceLocationError),
    ProjectDeserialization(Box<ProjectDeserializeError>),
    ProjectSerialization(Box<ProjectSerializeError>),
}

/// Why a conversion through the adapters failed.
#[derive(Debug)]
pub enum AdapterRepoError {
    /// No adapter converts between the two types.
    NoAdapterFound,
    /// The adapter failed to serialize.
    SerializationError(AdapterFailure),
    /// The adapter failed to deserialize.
    DeserializationError(AdapterFailure),
}

impl AdapterRepoError {
    /// The error of a failed serialization, reporting the adapter's error.
    pub fn serialization_error<E: AdapterError>(err: E) -> (r: Self)
        ensures
            r == AdapterRepoError::SerializationError(err.spec_failure()),
    {
        AdapterRepoError::SerializationError(err.into_failure())
    }

    /// The error of a failed deserialization, reporting the adapter's error.
    pub fn deserialization_error<E: AdapterError>(err: E) -> (r: Self)
        ensures
            r == AdapterRepoError::DeserializationError(err.spec_failure()),
    {
        AdapterRepoError::DeserializationError(err.into_failure())
    }
}

/// How a pack format is written in messages: as Rust's derived `Debug`
/// writes it.
pub open spec fn pack_format_debug(f: PackFormat) -> Seq<char> {
    match f {
        PackFormat::Single(n) => "Single("@ + dec_nat(n as nat) + ")"@,
        PackFormat::Range(a, b) => "Range("@ + dec_nat(a as nat) + ", "@ + dec_nat(b as nat) + ")"@,
        PackFormat::Object { min_inclusive, max_inclusive } => "Object { min_inclusive: "@ + dec_nat(
            min_inclusive as nat,
        ) + ", max_inclusive: "@ + dec_nat(max_inclusive as nat) + " }"@,
    }
}

/// The message a registry error reads as.
pub open spec fn repo_error_message(e: AdapterRepoError) -> Seq<char>
    decreases e,
{
    match e {
        AdapterRepoError::NoAdapterFound => "No adapter found for conversion"@,
        AdapterRepoError::SerializationError(f) => "Serialization error: "@ + failure_message(f),
        AdapterRepoError::DeserializationError(f) => "Deserialization error: "@ + failure_message(f),
    }
}

/// The message an adapter's error reads as.
pub open spec fn failure_message(f: AdapterFailure) -> Seq<char>
    decreases f,
{
    match f {
        AdapterFailure::PackInfoDeserialization(PackInfoDeserializationError::NoValidFormatFound(n)) =>
            "No valid format found for pack format "@ + dec_nat(n as nat) + "!"@,
        AdapterFailure::PackInfoDeserialization(PackInfoDeserializationError::InvalidPackFormat(n, pf)) =>
            "Pack format "@ + dec_nat(n as nat) + " is not within supported formats "@ + pack_format_debug(pf)
            + "!"@,
        AdapterFailure::PackInfoSerialization(_) => "Unknown version type is not allowed in serialization!"@,
        AdapterFailure::ResourceLocation(e) => e.0@,
        AdapterFailure::ProjectDeserialization(b) => match *b {
            ProjectDeserializeError::PackInfo(e) => "Error deserializing pack info! "@ + repo_error_message(e),
            ProjectDeserializeError::InvalidVersion(m) => "Invalid pack format! "@ + m@,
            ProjectDeserializeError::MismatchedType(m) => "Mismatched project type! "@ + m@,
        },
        AdapterFailure::ProjectSerialization(b) => match *b {
            ProjectSerializeError::PackInfo(e) => "Error serializing pack info! "@ + repo_error_message(e),
        },
    }
}

/// Appends how a pack format is written in messages.
fn push_pack_format(out: &mut String, f: PackFormat)
    ensures
        final(out)@ == old(out)@ + pack_format_debug(f),
{
    match f {
        PackFormat::Single(n) => {
            out.append("Single(");
            push_dec_u128(out, n as u128);
            out.append(")");
        },
        PackFormat::Range(a, b) => {
            out.append("Range(");
            push_dec_u128(out, a as u128);
            out.append(", ");
            push_dec_u128(out, b as u128);
            out.append(")");
        },
        PackFormat::Object { min_inclusive, max_inclusive } => {
            out.append("Object { min_inclusive: ");
            push_dec_u128(out, min_inclusive as u128);
            out.append(", max_inclusive: ");
            push_dec_u128(out, max_inclusive as u128);
            out.append(" }");
        },
    }
    assert(final(out)@ =~= old(out)@ + pack_format_debug(f));
}

impl AdapterRepoError {
    /// The message the error reads as.
    pub fn to_string(&self) -> (r: String)
        ensures
            r@ == repo_error_message(*self),
    {
        let mut out = String::new();
        self.push_message(&mut out);
        assert(out@ =~= repo_error_message(*self));
        out
    }

    /// Appends the message the error reads as.
    fn push_message(&self, out: &mut String)
        ensures
            final(out)@ == old(out)@ + repo_error_message(*self),
        decreases self,
    {
        match self {
            AdapterRepoError::NoAdapterFound => out.append("No adapter found for conversion"),
            AdapterRepoError::SerializationError(f) => {
                out.append("Serialization error: ");
                f.push_message(out);
            },
            AdapterRepoError::DeserializationError(f) => {
                out.append("Deserialization error: ");
                f.push_message(out);
            },
        }
        assert(final(out)@ =~= old(out)@ + repo_error_message(*self));
    }
}

impl AdapterFailure {
    /// The message the error reads as.
    pub fn to_string(&self) -> (r: String)
        ensures
            r@ == failure_message(*self),
    {
        let mut out = String::new();
        self.push_message(&mut out);
        assert(out@ =~= failure_message(*self));
        out
    }

    /// Appends the message the error reads as.
    fn push_message(&self, out: &mut String)
        ensures
            final(out)@ == old(out)@ + failure_message(*self),
        decreases self,
    {
        match self {
            AdapterFailure::PackInfoDeserialization(PackInfoDeserializationError::NoValidFormatFound(n)) => {
                out.append("No valid format found for pack format ");
                push_dec_u128(out, *n as u128);
                out.append("!");
            },
            AdapterFailure::PackInfoDeserialization(PackInfoDeserializationError::InvalidPackFormat(n, pf)) => {
                out.append("Pack format ");
                push_dec_u128(out, *n as u128);
                out.append(" is not within supported formats ");
                push_pack_format(out, *pf);
                out.append("!");
            },
            AdapterFailure::PackInfoSerialization(_) => {
                out.append("Unknown version type is not allowed in serialization!");
            },
            AdapterFailure::ResourceLocation(e) => out.append(e.0.as_str()),
            AdapterFailure::ProjectDeserialization(b) => match &**b {
                ProjectDeserializeError::PackInfo(e) => {
                    out.append("Error deserializing pack info! ");
                    e.push_message(out);
                },
                ProjectDeserializeError::InvalidVersion(m) => {
                    out.append("Invalid pack format! ");
                    out.append(m.as_str());
                },
                ProjectDeserializeError::MismatchedType(m) => {
                    out.append("Mismatched project type! ");
                    out.append(m.as_str());
                },
            },
            AdapterFailure::ProjectSerialization(b) => match &**b {
                ProjectSerializeError::PackInfo(e) => {
                    out.append("Error serializing pack info! ");
                    e.push_message(out);
                },
            },
        }
        assert(final(out)@ =~= old(out)@ + failure_message(*self));
    }
}

/// A conversion between a serialized type and a domain type.
#[derive(Debug, Clone, Copy, PartialEq, Eq, Structural, Hash)]
pub enum AdapterType {
    /// `pack.mcmeta` content and a pack's description and format.
    PackInfo,
    /// Packs read from archives and projects.
    Project,
    /// Resource location texts and resource locations.
    ResourceLocation,
}

/// The conversions registered, each once.
pub struct AdapterRepository {
    adapters: Vec<AdapterType>,
}

impl AdapterRepository {
    /// The conversions registered.
    pub closed spec fn view(&self) -> Set<AdapterType> {
        Set::new(|k: AdapterType| self.adapters@.contains(k))
    }

    /// No conversion registered.
    pub fn new() -> (r: Self)
        ensures
            r.view() == Set::<AdapterType>::empty(),
    {
        let r = AdapterRepository { adapters: Vec::new() };
        assert(r.view() =~= Set::<AdapterType>::empty());
        r
    }

    /// Whether a conversion is registered.
    pub fn has(&self, adapter: AdapterType) -> (r: bool)
        ensures
            r == self.view().contains(adapter),
    {
        let mut i: usize = 0;
        while i < self.adapters.len()
            invariant
                i <= self.adapters@.len(),
                forall|k: int| 0 <= k < i ==> self.adapters@[k] != adapter,
            decreases self.adapters@.len() - i,
        {
            if self.adapters[i] == adapter {
                assert(self.adapters@.contains(adapter));
                return true;
            }
            i = i + 1;
        }
        false
    }

    /// Registers a conversion; registering one again changes nothing.
    pub fn register(&mut self, adapter: AdapterType)
        ensures
            final(self).view() == old(self).view().insert(adapter),
    {
        if !self.has(adapter) {
            self.adapters.push(adapter);
        }
        proof {
            assert forall|k: AdapterType| #[trigger] self.adapters@.contains(k) <==> (old(self).adapters@.contains(k) || k == adapter) by {
                if old(self).adapters@.contains(k) {
                    let j = choose|j: int| 0 <= j < old(self).adapters@.len() && old(self).adapters@[j] == k;
                    assert(self.adapters@[j] == k);
                }
                if k == adapter && !old(self).adapters@.contains(k) {
                    assert(self.adapters@.last() == k);
                }
            }
            assert(self.view() =~= old(self).view().insert(adapter));
        }
    }

    /// Writes a pack's description and format as `pack.mcmeta` content.
    pub fn serialize_pack_info(&self, input: &PackInfoSerializationInput) -> (r: Result<
        SerializedPackInfo,
        AdapterRepoError,
    >)
        ensures
            !self.view().contains(AdapterType::PackInfo) ==> r matches Err(AdapterRepoError::NoAdapterFound),
            self.view().contains(AdapterType::PackInfo) ==> r == Ok::<SerializedPackInfo, AdapterRepoError>(
                serialize_pack_info_spec(*input),
            ),
    {
        if !self.has(AdapterType::PackInfo) {
            return Err(AdapterRepoError::NoAdapterFound);
        }
        match PackInfoAdapter::serialize(input) {
            Ok(info) => Ok(info),
            Err(e) => Err(AdapterRepoError::serialization_error(e)),
        }
    }

    /// Reads a pack's description and format from `pack.mcmeta` content.
    pub fn deserialize_pack_info(&self, serialized: &SerializedPackInfo) -> (r: Result<
        PackInfoSerializationInput,
        AdapterRepoError,
    >)
        ensures
            !self.view().contains(AdapterType::PackInfo) ==> r matches Err(AdapterRepoError::NoAdapterFound),
            self.view().contains(AdapterType::PackInfo) ==> match (r, deserialize_pack_info_spec(*serialized)) {
                (Ok(a), Ok(b)) => a == b,
                (
                    Err(AdapterRepoError::DeserializationError(AdapterFailure::PackInfoDeserialization(e))),
                    Err(f),
                ) => e == f,
                _ => false,
            },
    {
        if !self.has(AdapterType::PackInfo) {
            return Err(AdapterRepoError::NoAdapterFound);
        }
        match PackInfoAdapter::deserialize(serialized) {
            Ok(input) => Ok(input),
            Err(e) => Err(AdapterRepoError::DeserializationError(AdapterFailure::PackInfoDeserialization(e))),
        }
    }

    /// Writes a project as packs.
    pub fn serialize_project(&self, project: &DomainProject) -> (r: Result<
        SerializedProjectData,
        AdapterRepoError,
    >)
        requires
            has_formats(*project),
        ensures
            !self.view().contains(AdapterType::Project) ==> r matches Err(AdapterRepoError::NoAdapterFound),
            self.view().contains(AdapterType::Project) && !self.view().contains(AdapterType::PackInfo)
                ==> (r matches Err(AdapterRepoError::SerializationError(AdapterFailure::ProjectSerialization(e)))
                && *e == ProjectSerializeError::PackInfo(AdapterRepoError::NoAdapterFound)),
            self.view().contains(AdapterType::Project) && self.view().contains(AdapterType::PackInfo) ==> (
            r matches Ok(s) && serialized_from(*project, s)),
    {
        if !self.has(AdapterType::Project) {
            return Err(AdapterRepoError::NoAdapterFound);
        }
        if !self.has(AdapterType::PackInfo) {
            return Err(
                AdapterRepoError::SerializationError(
                    AdapterFailure::ProjectSerialization(
                        Box::new(ProjectSerializeError::PackInfo(AdapterRepoError::NoAdapterFound)),
                    ),
                ),
            );
        }
        match ProjectAdapter::serialize(project) {
            Ok(s) => Ok(s),
            Err(e) => Err(AdapterRepoError::serialization_error(e)),
        }
    }

    /// Reads packs as a project.
    pub fn deserialize_project(&self, serialized: &SerializedProjectData) -> (r: Result<
        DomainProject,
        AdapterRepoError,
    >)
        ensures
            !self.view().contains(AdapterType::Project) ==> r matches Err(AdapterRepoError::NoAdapterFound),
            self.view().contains(AdapterType::Project) && (self.view().contains(AdapterType::PackInfo)
                || deserialize_project_spec(*serialized) is MismatchedType) ==> match r {
                Ok(p) => deserialized_as(Ok(p), deserialize_project_spec(*serialized)),
                Err(AdapterRepoError::DeserializationError(AdapterFailure::ProjectDeserialization(e))) =>
                    deserialized_as(Err(*e), deserialize_project_spec(*serialized)),
                _ => false,
            },
            self.view().contains(AdapterType::Project) && !self.view().contains(AdapterType::PackInfo)
                && !(deserialize_project_spec(*serialized) is MismatchedType) ==> (r matches Err(
                AdapterRepoError::DeserializationError(AdapterFailure::ProjectDeserialization(e)),
            ) && *e == ProjectDeserializeError::PackInfo(AdapterRepoError::NoAdapterFound)),
    {
        if !self.has(AdapterType::Project) {
            return Err(AdapterRepoError::NoAdapterFound);
        }
        let packs_registered = self.has(AdapterType::PackInfo);
        match ProjectAdapter::deserialize(serialized) {
            Ok(p) => {
                if packs_registered {
                    Ok(p)
                } else {
                    Err(Self::no_pack_info_adapter())
                }
            },
            Err(ProjectDeserializeError::MismatchedType(m)) => Err(
                AdapterRepoError::DeserializationError(
                    AdapterFailure::ProjectDeserialization(Box::new(ProjectDeserializeError::MismatchedType(m))),
                ),
            ),
            Err(e) => {
                if packs_registered {
                    Err(AdapterRepoError::DeserializationError(AdapterFailure::ProjectDeserialization(Box::new(e))))
                } else {
                    Err(Self::no_pack_info_adapter())
                }
            },
        }
    }

    /// Reading packs when the metadata of packs cannot be read: the type
    /// check passed, and the metadata found no adapter.
    fn no_pack_info_adapter() -> (r: AdapterRepoError)
        ensures
            r matches AdapterRepoError::DeserializationError(AdapterFailure::ProjectDeserialization(e))
                && *e == ProjectDeserializeError::PackInfo(AdapterRepoError::NoAdapterFound),
    {
        AdapterRepoError::DeserializationError(
            AdapterFailure::ProjectDeserialization(
                Box::new(ProjectDeserializeError::PackInfo(AdapterRepoError::NoAdapterFound)),
            ),
        )
    }

    /// Writes a resource location as `namespace:value`.
    pub fn serialize_resource_location(&self, location: &DomainResourceLocation) -> (r: Result<
        SerializedResourceLocation,
        AdapterRepoError,
    >)
        ensures
            !self.view().contains(AdapterType::ResourceLocation) ==> r matches Err(AdapterRepoError::NoAdapterFound),
            self.view().contains(AdapterType::ResourceLocation) ==> (r matches Ok(s) && s.0@ == location.display()),
    {
        if !self.has(AdapterType::ResourceLocation) {
            return Err(AdapterRepoError::NoAdapterFound);
        }
        match ResourceLocationAdapter::serialize(location) {
            Ok(s) => Ok(s),
            Err(_) => Err(AdapterRepoError::NoAdapterFound),
        }
    }

    /// Reads the resource location a text names.
    pub fn deserialize_resource_location(&self, serialized: &SerializedResourceLocation) -> (r: Result<
        DomainResourceLocation,
        AdapterRepoError,
    >)
        ensures
            !self.view().contains(AdapterType::ResourceLocation) ==> r matches Err(AdapterRepoError::NoAdapterFound),
            self.view().contains(AdapterType::ResourceLocation) ==> match (r, parse_location_spec(serialized.0@)) {
                (Ok(loc), Some((ns, v))) => loc.namespace@ == ns && loc.value@ == v,
                (
                    Err(AdapterRepoError::DeserializationError(AdapterFailure::ResourceLocation(e))),
                    None,
                ) => e.0@ == invalid_location_message(serialized.0@),
                _ => false,
            },
    {
        if !self.has(AdapterType::ResourceLocation) {
            return Err(AdapterRepoError::NoAdapterFound);
        }
        match ResourceLocationAdapter::deserialize(serialized) {
            Ok(loc) => Ok(loc),
            Err(e) => Err(AdapterRepoError::DeserializationError(AdapterFailure::ResourceLocation(e))),
        }
    }
}

/// Registers the library's conversions: pack metadata, projects and
/// resource locations.
pub fn register_default_adapters(repo: &mut AdapterRepository)
    ensures
        final(repo).view() == old(repo).view().insert(AdapterType::PackInfo).insert(
            AdapterType::Project,
        ).insert(AdapterType::ResourceLocation),
{
    repo.register(AdapterType::PackInfo);
    repo.register(AdapterType::Project);
    repo.register(AdapterType::ResourceLocation);
}

} // verus!
