//! The metadata of a pack as the editor models it.
use vstd::prelude::*;
use crate::data::domain::resource::ResourceLocation;
use crate::services::translation_service::TranslationKey;

verus! {

/// The description shown for a pack.
#[derive(Debug, Clone, PartialEq, Eq, Hash)]
pub enum PackDescription {
    String(String),
}

impl PackDescription {
    pub fn new(description: String) -> (r: Self)
        ensures
            r == PackDescription::String(description),
    {
        PackDescription::String(description)
    }

    pub open spec fn text(&self) -> Seq<char> {
        match self {
            PackDescription::String(s) => s@,
        }
    }

    /// The description's text.
    pub fn to_string(&self) -> (r: String)
        ensures
            r@ == self.text(),
    {
        match self {
            PackDescription::String(s) => s.clone(),
        }
    }

    /// A copy of the description.
    pub fn duplicate(&self) -> (r: Self)
        ensures
            r == *self,
    {
        match self {
            PackDescription::String(s) => PackDescription::String(s.clone()),
        }
    }
}

/// Data pack settings beyond the description.
#[derive(Debug, Clone, PartialEq, Eq, Hash)]
pub struct DatapackInfo {
    pub features: Option<ResourceLocation>,
}

/// A pack's metadata: its description and, for data packs, further
/// settings.
#[derive(Debug, Clone, PartialEq, Eq, Hash)]
pub struct PackInfo {
    pub description: PackDescription,
    pub datapack_info: Option<DatapackInfo>,
}

impl PackInfo {
    pub fn new(description: PackDescription, datapack_info: Option<DatapackInfo>) -> (r: Self)
        ensures
            r.description == description,
            r.datapack_info == datapack_info,
    {
        PackInfo { description, datapack_info }
    }

    pub fn description(&self) -> (r: &PackDescription)
        ensures
            *r == self.description,
    {
        &self.description
    }

    pub fn datapack_info(&self) -> (r: &Option<DatapackInfo>)
        ensures
            *r == self.datapack_info,
    {
        &self.datapack_info
    }
}

/// Texts of pack metadata that have translations.
#[derive(Debug, Clone, Copy, PartialEq, Eq, Hash)]
pub enum PackInfoTranslationKeys {
    DefaultResourceDescription,
    DefaultDataDescription,
}

impl TranslationKey for PackInfoTranslationKeys {
    open spec fn spec_key(&self) -> Seq<char> {
        match self {
            PackInfoTranslationKeys::DefaultResourceDescription =>
                "pack_info.default_resource_description"@,
            PackInfoTranslationKeys::DefaultDataDescription => "pack_info.default_data_description"@,
        }
    }

    fn key(&self) -> (r: &'static str) {
        match self {
            PackInfoTranslationKeys::DefaultResourceDescription =>
                "pack_info.default_resource_description",
            PackInfoTranslationKeys::DefaultDataDescription => "pack_info.default_data_description",
        }
    }

    /// These keys give their English wording under `en`, not `en_us`, so
    /// they carry no English text: the text names the missing translation.
    open spec fn spec_english_text(&self) -> Seq<char> {
        match self {
            PackInfoTranslationKeys::DefaultResourceDescription =>
                "MISSING_TRANSLATION_FOR_DEFAULT_RESOURCE_DESCRIPTION"@,
            PackInfoTranslationKeys::DefaultDataDescription =>
                "MISSING_TRANSLATION_FOR_DEFAULT_DATA_DESCRIPTION"@,
        }
    }

    open spec fn spec_all_variants() -> Seq<Self> {
        seq![
            PackInfoTranslationKeys::DefaultResourceDescription,
            PackInfoTranslationKeys::DefaultDataDescription,
        ]
    }

    fn english_text(&self) -> (r: &'static str) {
        match self {
            PackInfoTranslationKeys::DefaultResourceDescription =>
                "MISSING_TRANSLATION_FOR_DEFAULT_RESOURCE_DESCRIPTION",
            PackInfoTranslationKeys::DefaultDataDescription =>
                "MISSING_TRANSLATION_FOR_DEFAULT_DATA_DESCRIPTION",
        }
    }

    fn all_variants() -> (r: Vec<Self>) {
        let mut v = Vec::new();
        v.push(PackInfoTranslationKeys::DefaultResourceDescription);
        v.push(PackInfoTranslationKeys::DefaultDataDescription);
        assert(v@ =~= Self::spec_all_variants());
        v
    }
}

} // verus!
