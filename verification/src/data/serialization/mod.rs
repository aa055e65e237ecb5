//! The serialized forms of pack metadata and projects.
use vstd::prelude::*;
use crate::data::domain::pack_info::PackDescription;

pub mod archive;
pub mod pack_info;
pub mod project;

verus! {

/// Text as `pack.mcmeta` holds it.
#[derive(Debug, Clone, PartialEq, Eq)]
pub enum TextComponent {
    String(String),
}

impl TextComponent {
    pub open spec fn text(&self) -> Seq<char> {
        match self {
            TextComponent::String(s) => s@,
        }
    }

    /// The text of a pack description.
    pub fn from_description(description: PackDescription) -> (r: Self)
        ensures
            r == match description {
                PackDescription::String(s) => TextComponent::String(s),
            },
    {
        match description {
            PackDescription::String(text) => TextComponent::String(text),
        }
    }

    pub fn from_string(text: String) -> (r: Self)
        ensures
            r == TextComponent::String(text),
    {
        TextComponent::String(text)
    }

    pub fn from_str(text: &str) -> (r: Self)
        ensures
            r.text() == text@,
    {
        TextComponent::String(text.to_owned())
    }

    /// The pack description this text gives.
    pub fn to_description(&self) -> (r: PackDescription)
        ensures
            r == match self {
                TextComponent::String(s) => PackDescription::String(*s),
            },
    {
        match self {
            TextComponent::String(string) => PackDescription::String(string.clone()),
        }
    }
}

/// A resource location as serialized: its text.
#[derive(Debug, Clone, PartialEq, Eq)]
pub struct ResourceLocation(pub String);

impl ResourceLocation {
    pub fn new(loc: &str) -> (r: Self)
        ensures
            r.0@ == loc@,
    {
        ResourceLocation(loc.to_owned())
    }

    pub fn to_string(&self) -> (r: String)
        ensures
            r@ == self.0@,
    {
        self.0.clone()
    }
}

} // verus!
