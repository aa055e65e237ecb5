//! Between `pack.mcmeta` content and a pack's description and format.
use vstd::prelude::*;
use crate::data::adapters::AdapterError;
use crate::data::domain::pack_info::{PackDescription, PackInfo};
use crate::data::serialization::TextComponent;
use crate::data::serialization::pack_info::{
    lemma_supported_formats_inclusive, plain_pack_info, PackData, PackFormat,
    PackInfo as SerializedPackInfo,
};
use crate::repositories::adapter_repo::AdapterFailure;

verus! {

/// Converts pack metadata.
pub struct PackInfoAdapter;

/// A pack's description and format number.
#[derive(Debug, Clone, PartialEq, Eq)]
pub struct PackInfoSerializationInput {
    pub description: PackDescription,
    pub format: u8,
}

impl PackInfoSerializationInput {
    pub fn new(description: PackDescription, format: u8) -> (r: Self)
        ensures
            r == (PackInfoSerializationInput { description, format }),
    {
        PackInfoSerializationInput { description, format }
    }

    /// The domain metadata: the description, with no further settings.
    pub fn into_pack_info(self) -> (r: PackInfo)
        ensures
            r == (PackInfo { description: self.description, datapack_info: None }),
    {
        PackInfo::new(self.description, None)
    }
}

/// Why pack metadata could not be read.
#[derive(Debug, Clone, PartialEq, Eq)]
pub enum PackInfoDeserializationError {
    NoValidFormatFound(u8),
    /// The pack format (cut to a byte) is not among the supported formats.
    InvalidPackFormat(u8, PackFormat),
}

/// Why pack metadata could not be written.
#[derive(Debug, Clone, PartialEq, Eq)]
pub enum PackInfoSerializationError {
    UnknownVersionTypeInSerialization,
}

impl AdapterError for PackInfoDeserializationError {
    open spec fn spec_failure(self) -> AdapterFailure {
        AdapterFailure::PackInfoDeserialization(self)
    }

    fn into_failure(self) -> (r: AdapterFailure) {
        AdapterFailure::PackInfoDeserialization(self)
    }
}

impl AdapterError for PackInfoSerializationError {
    open spec fn spec_failure(self) -> AdapterFailure {
        AdapterFailure::PackInfoSerialization(self)
    }

    fn into_failure(self) -> (r: AdapterFailure) {
        AdapterFailure::PackInfoSerialization(self)
    }
}

/// The pack description a text gives.
pub open spec fn description_of(text: TextComponent) -> PackDescription {
    match text {
        TextComponent::String(s) => PackDescription::String(s),
    }
}

/// The text a pack description is written as.
pub open spec fn text_of(description: PackDescription) -> TextComponent {
    match description {
        PackDescription::String(s) => TextComponent::String(s),
    }
}

/// What reading metadata gives: its description and its format cut to a
/// byte, unless it lists supported formats that leave out its format.
pub open spec fn deserialize_pack_info_spec(info: SerializedPackInfo) -> Result<PackInfoSerializationInput, PackInfoDeserializationError> {
    let pack_format = info.pack.pack_format;
    match info.pack.supported_formats {
        Some(supported) if !supported.spec_contains(pack_format) => Err(
            PackInfoDeserializationError::InvalidPackFormat(pack_format as u8, supported),
        ),
        _ => Ok(
            PackInfoSerializationInput {
                description: description_of(info.pack.description),
                format: pack_format as u8,
            },
        ),
    }
}

/// What writing a description and format gives: metadata with only those.
pub open spec fn serialize_pack_info_spec(input: PackInfoSerializationInput) -> SerializedPackInfo {
    plain_pack_info(
        PackData {
            description: text_of(input.description),
            pack_format: input.format as u32,
            supported_formats: None,
        },
    )
}

impl PackInfoAdapter {
    /// Reads a pack's description and format from its metadata. By the
    /// `pack.mcmeta` rules the format must be among the supported formats
    /// when those are listed.
    pub fn deserialize(serialized: &SerializedPackInfo) -> (r: Result<
        PackInfoSerializationInput,
        PackInfoDeserializationError,
    >)
        ensures
            r == deserialize_pack_info_spec(*serialized),
    {
        let pack = serialized.pack();
        let pack_format = *pack.pack_format();
        if let Some(supported_formats) = pack.supported_formats() {
            if !supported_formats.contains(pack_format) {
                return Err(
                    PackInfoDeserializationError::InvalidPackFormat(
                        pack_format as u8,
                        *supported_formats,
                    ),
                );
            }
        }
        Ok(
            PackInfoSerializationInput {
                description: pack.description().to_description(),
                format: pack_format as u8,
            },
        )
    }

    /// Writes a pack's description and format as metadata.
    pub fn serialize(domain: &PackInfoSerializationInput) -> (r: Result<
        SerializedPackInfo,
        PackInfoSerializationError,
    >)
        ensures
            r == Ok::<SerializedPackInfo, PackInfoSerializationError>(
                serialize_pack_info_spec(*domain),
            ),
    {
        let description = TextComponent::from_description(domain.description.duplicate());
        let pack = PackData::new(description, domain.format as u32, None);
        Ok(SerializedPackInfo::new(pack, None, None, None, None))
    }
}

/// Writing a description and format and reading them back gives them back.
pub proof fn lemma_pack_info_round_trip(input: PackInfoSerializationInput)
    ensures
        deserialize_pack_info_spec(serialize_pack_info_spec(input)) == Ok::<
            PackInfoSerializationInput,
            PackInfoDeserializationError,
        >(input),
{
    assert((input.format as u32) as u8 == input.format);
}

/// Metadata whose format is a bound of the supported formats it lists, as
/// a range or as an object, is read: its description and its format come
/// back.
pub proof fn lemma_format_at_bounds_accepted(info: SerializedPackInfo, lo: u32, hi: u32)
    requires
        lo <= hi,
        info.pack.supported_formats == Some(PackFormat::Range(lo, hi))
            || info.pack.supported_formats == Some(
            (PackFormat::Object { min_inclusive: lo, max_inclusive: hi }),
        ),
        info.pack.pack_format == lo || info.pack.pack_format == hi,
    ensures
        deserialize_pack_info_spec(info) == Ok::<PackInfoSerializationInput, PackInfoDeserializationError>(
            (PackInfoSerializationInput {
                description: description_of(info.pack.description),
                format: info.pack.pack_format as u8,
            }),
        ),
{
    lemma_supported_formats_inclusive(lo, hi, info.pack.pack_format);
}

} // verus!
