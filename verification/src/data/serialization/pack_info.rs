//! The content of a pack's `pack.mcmeta` file.
use vstd::prelude::*;
use crate::data::serialization::{ResourceLocation, TextComponent};
use crate::data::domain::versions::{latest_data_format, latest_resource_format};

verus! {

/// The formats a pack supports: one number, or an inclusive range written
/// as a pair or as an object.
#[derive(Debug, Clone, Copy, PartialEq, Eq, Structural)]
pub enum PackFormat {
    Single(u32),
    Range(u32, u32),
    Object { min_inclusive: u32, max_inclusive: u32 },
}

impl PackFormat {
    pub open spec fn spec_contains(self, format: u32) -> bool {
        match self {
            PackFormat::Single(f) => f == format,
            PackFormat::Range(min, max) => min <= format <= max,
            PackFormat::Object { min_inclusive, max_inclusive } => min_inclusive <= format
                <= max_inclusive,
        }
    }

    /// Whether the supported formats include `format`.
    pub fn contains(&self, format: u32) -> (r: bool)
        ensures
            r == self.spec_contains(format),
    {
        match self {
            PackFormat::Single(f) => *f == format,
            PackFormat::Range(min, max) => *min <= format && format <= *max,
            PackFormat::Object { min_inclusive, max_inclusive } => *min_inclusive <= format
                && format <= *max_inclusive,
        }
    }
}

/// Supported formats are inclusive at both ends: a range, written either
/// way, holds its lower and its upper bound, and what it holds lies
/// between them; a single format holds itself and nothing else.
pub proof fn lemma_supported_formats_inclusive(lo: u32, hi: u32, x: u32)
    requires
        lo <= hi,
    ensures
        PackFormat::Range(lo, hi).spec_contains(lo),
        PackFormat::Range(lo, hi).spec_contains(hi),
        (PackFormat::Object { min_inclusive: lo, max_inclusive: hi }).spec_contains(lo),
        (PackFormat::Object { min_inclusive: lo, max_inclusive: hi }).spec_contains(hi),
        PackFormat::Range(lo, hi).spec_contains(x) ==> lo <= x && x <= hi,
        (PackFormat::Object { min_inclusive: lo, max_inclusive: hi }).spec_contains(x) ==> lo <= x
            && x <= hi,
        PackFormat::Range(lo, hi).spec_contains(x) == (PackFormat::Object {
            min_inclusive: lo,
            max_inclusive: hi,
        }).spec_contains(x),
        PackFormat::Single(x).spec_contains(x),
        PackFormat::Single(lo).spec_contains(x) ==> x == lo,
{
}

/// The `pack` object: description, format, and supported formats.
#[derive(Debug, Clone, PartialEq, Eq)]
pub struct PackData {
    pub description: TextComponent,
    pub pack_format: u32,
    pub supported_formats: Option<PackFormat>,
}

impl PackData {
    pub fn new(description: TextComponent, pack_format: u32, supported_formats: Option<PackFormat>) -> (r: Self)
        ensures
            r == (PackData { description, pack_format, supported_formats }),
    {
        PackData { description, pack_format, supported_formats }
    }

    pub fn description(&self) -> (r: &TextComponent)
        ensures
            *r == self.description,
    {
        &self.description
    }

    pub fn pack_format(&self) -> (r: &u32)
        ensures
            *r == self.pack_format,
    {
        &self.pack_format
    }

    pub fn supported_formats(&self) -> (r: &Option<PackFormat>)
        ensures
            *r == self.supported_formats,
    {
        &self.supported_formats
    }
}

/// A namespace and path pattern of files a pack hides.
#[derive(Debug, Clone, PartialEq, Eq)]
pub struct FilterPattern {
    pub namespace: String,
    pub path: String,
}

impl FilterPattern {
    pub fn new(namespace: String, path: String) -> (r: Self)
        ensures
            r == (FilterPattern { namespace, path }),
    {
        FilterPattern { namespace, path }
    }
}

/// A folder of the pack applied for some formats.
#[derive(Debug, Clone, PartialEq, Eq)]
pub struct Overlay {
    pub formats: PackFormat,
    pub path: String,
}

impl Overlay {
    pub fn new(formats: PackFormat, path: String) -> (r: Self)
        ensures
            r == (Overlay { formats, path }),
    {
        Overlay { formats, path }
    }
}

/// A language a resource pack adds.
#[derive(Debug, Clone, PartialEq, Eq)]
pub struct Language {}

/// The content of `pack.mcmeta`.
#[derive(Debug, Clone, PartialEq, Eq)]
pub struct PackInfo {
    pub pack: PackData,
    pub features: Option<Vec<ResourceLocation>>,
    pub filter: Option<Vec<FilterPattern>>,
    pub overlays: Option<Vec<Overlay>>,
    pub language: Option<Vec<Language>>,
}

/// Metadata with only the `pack` object.
pub open spec fn plain_pack_info(pack: PackData) -> PackInfo {
    PackInfo { pack, features: None, filter: None, overlays: None, language: None }
}

impl PackInfo {
    pub fn new(
        pack: PackData,
        features: Option<Vec<ResourceLocation>>,
        filter: Option<Vec<FilterPattern>>,
        overlays: Option<Vec<Overlay>>,
        language: Option<Vec<Language>>,
    ) -> (r: Self)
        ensures
            r == (PackInfo { pack, features, filter, overlays, language }),
    {
        PackInfo { pack, features, filter, overlays, language }
    }

    pub fn pack(&self) -> (r: &PackData)
        ensures
            *r == self.pack,
    {
        &self.pack
    }

    /// Data pack metadata described as `Test Pack`, in the newest data pack
    /// format.
    pub fn default_data() -> (r: Self)
        ensures
            r == plain_pack_info(
                PackData {
                    description: r.pack.description,
                    pack_format: 81,
                    supported_formats: None,
                },
            ),
            r.pack.description.text() == "Test Pack"@,
    {
        let format = latest_data_format();
        PackInfo::new(
            PackData::new(TextComponent::from_str("Test Pack"), format.get_format_id() as u32, None),
            None,
            None,
            None,
            None,
        )
    }

    /// Resource pack metadata described as `Test Pack`, in the newest
    /// resource pack format.
    pub fn default_resource() -> (r: Self)
        ensures
            r == plain_pack_info(
                PackData {
                    description: r.pack.description,
                    pack_format: 64,
                    supported_formats: None,
                },
            ),
            r.pack.description.text() == "Test Pack"@,
    {
        let format = latest_resource_format();
        PackInfo::new(
            PackData::new(TextComponent::from_str("Test Pack"), format.get_format_id() as u32, None),
            None,
            None,
            None,
            None,
        )
    }
}

} // verus!
