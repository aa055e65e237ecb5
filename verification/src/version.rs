//! The Minecraft releases the editor's text tools know by name.
use vstd::prelude::*;

verus! {

/// A release the editor's text tools know.
#[derive(Debug, Clone, Copy, PartialEq, Eq, Structural, Hash)]
pub enum MinecraftVersion {
    V1_20_4,
}

/// Why a release name was refused.
#[derive(Debug, Clone, PartialEq, Eq)]
pub enum MinecraftVersionError {
    InvalidVersion(String),
}

impl MinecraftVersionError {
    /// The message the error reads as.
    pub fn to_string(&self) -> (r: String)
        ensures
            match self {
                MinecraftVersionError::InvalidVersion(v) => r@ == "Invalid Minecraft version: "@ + v@,
            },
    {
        match self {
            MinecraftVersionError::InvalidVersion(v) => {
                let mut r = "Invalid Minecraft version: ".to_owned();
                r.append(v.as_str());
                r
            },
        }
    }
}

impl MinecraftVersion {
    /// The release's name.
    pub open spec fn name(self) -> Seq<char> {
        match self {
            MinecraftVersion::V1_20_4 => "1.20.4"@,
        }
    }

    /// The release's number for comparing: 12004 for 1.20.4.
    pub open spec fn number(self) -> u32 {
        match self {
            MinecraftVersion::V1_20_4 => 12004,
        }
    }

    /// The default release, 1.20.4.
    pub fn default() -> (r: Self)
        ensures
            r == MinecraftVersion::V1_20_4,
    {
        MinecraftVersion::V1_20_4
    }

    pub fn as_str(&self) -> (r: &'static str)
        ensures
            r@ == self.name(),
    {
        match self {
            MinecraftVersion::V1_20_4 => "1.20.4",
        }
    }

    pub fn as_numeric_value(&self) -> (r: u32)
        ensures
            r == self.number(),
    {
        match self {
            MinecraftVersion::V1_20_4 => 12004,
        }
    }

    pub fn to_string(&self) -> (r: String)
        ensures
            r@ == self.name(),
    {
        self.as_str().to_owned()
    }

    /// The release with this name; any other name is refused with the name.
    pub fn from_str(s: &str) -> (r: Result<Self, MinecraftVersionError>)
        ensures
            s@ == "1.20.4"@ ==> r == Ok::<Self, MinecraftVersionError>(MinecraftVersion::V1_20_4),
            s@ != "1.20.4"@ ==> (r matches Err(MinecraftVersionError::InvalidVersion(v)) && v@ == s@),
    {
        if crate::json::str_eq(s, "1.20.4") {
            Ok(MinecraftVersion::V1_20_4)
        } else {
            Err(MinecraftVersionError::InvalidVersion(s.to_owned()))
        }
    }

    /// Whether this release is older than `other`, by their numbers.
    pub fn lt(&self, other: &Self) -> (r: bool)
        ensures
            r == (self.number() < other.number()),
    {
        self.as_numeric_value() < other.as_numeric_value()
    }
}

} // verus!
