//! The releases the editor supports, with lookups by number and by text.
use vstd::prelude::*;
use crate::mc_version::{
    parse_version_spec, parse_version_str, version_lt, MinecraftVersion as Release,
    VersionParseFailure,
};
use crate::text::{dec_u8, push_dec_u8, string_push};

pub use crate::mc_version::VersionParseError;

verus! {

/// A supported release `1.<major>.<minor>`.
#[derive(Debug, Clone, Copy, PartialEq, Eq, Structural, PartialOrd, Ord, Hash)]
pub struct MinecraftVersion {
    pub major: u8,
    pub minor: u8,
}

/// A pack format with the releases it covers.
#[derive(Debug, Clone, PartialEq, Eq)]
pub struct PackFormat {
    pub format: u8,
    pub mc_versions: Vec<MinecraftVersion>,
}

/// The supported releases, oldest first: 1.16.5, 1.17.1, 1.18.2, 1.19.4,
/// 1.20.1 and 1.20.4.
pub open spec fn supported() -> Seq<MinecraftVersion> {
    seq![
        MinecraftVersion { major: 16, minor: 5 },
        MinecraftVersion { major: 17, minor: 1 },
        MinecraftVersion { major: 18, minor: 2 },
        MinecraftVersion { major: 19, minor: 4 },
        MinecraftVersion { major: 20, minor: 1 },
        MinecraftVersion { major: 20, minor: 4 },
    ]
}

/// `a` is an older release than `b`.
pub open spec fn older(a: MinecraftVersion, b: MinecraftVersion) -> bool {
    a.major < b.major || (a.major == b.major && a.minor < b.minor)
}

/// What reading a release's text comes to: the text must read as
/// `1.<major>.<minor>`, and the release must be supported.
pub open spec fn supported_parse_spec(s: Seq<char>) -> Result<MinecraftVersion, VersionParseFailure> {
    match parse_version_spec(s) {
        Err(f) => Err(f),
        Ok(v) => if supported().contains(MinecraftVersion { major: v.major, minor: v.minor }) {
            Ok(MinecraftVersion { major: v.major, minor: v.minor })
        } else {
            Err(VersionParseFailure::InvalidVersion)
        },
    }
}

impl MinecraftVersion {
    /// The text `1.<major>.<minor>`.
    pub open spec fn display(self) -> Seq<char> {
        seq!['1', '.'] + dec_u8(self.major) + seq!['.'] + dec_u8(self.minor)
    }

    /// Every supported release, oldest first.
    pub fn all() -> (r: Vec<MinecraftVersion>)
        ensures
            r@ == supported(),
    {
        let r = vec![
            MinecraftVersion { major: 16, minor: 5 },
            MinecraftVersion { major: 17, minor: 1 },
            MinecraftVersion { major: 18, minor: 2 },
            MinecraftVersion { major: 19, minor: 4 },
            MinecraftVersion { major: 20, minor: 1 },
            MinecraftVersion { major: 20, minor: 4 },
        ];
        assert(r@ =~= supported());
        r
    }

    /// The release `1.<major>.<minor>`, if it is supported.
    pub fn get(major: u8, minor: u8) -> (r: Option<MinecraftVersion>)
        ensures
            r == (if supported().contains(MinecraftVersion { major, minor }) {
                Some(MinecraftVersion { major, minor })
            } else {
                None
            }),
    {
        let version = MinecraftVersion { major, minor };
        let found = (major == 16 && minor == 5) || (major == 17 && minor == 1) || (major == 18
            && minor == 2) || (major == 19 && minor == 4) || (major == 20 && (minor == 1 || minor
            == 4));
        proof {
            let s = supported();
            if found {
                let k: int = if major == 16 {
                    0
                } else if major == 17 {
                    1
                } else if major == 18 {
                    2
                } else if major == 19 {
                    3
                } else if minor == 1 {
                    4
                } else {
                    5
                };
                assert(s[k] == version);
                assert(s.contains(version));
            } else {
                assert forall|k: int| 0 <= k < s.len() implies s[k] != version by {}
            }
        }
        if found {
            Some(version)
        } else {
            None
        }
    }

    /// The newest supported release, 1.20.4.
    pub fn latest() -> (r: MinecraftVersion)
        ensures
            r == (MinecraftVersion { major: 20, minor: 4 }),
            supported().contains(r),
            forall|v: MinecraftVersion| supported().contains(v) && v != r ==> older(v, r),
    {
        let r = MinecraftVersion { major: 20, minor: 4 };
        assert(supported()[5] == r);
        r
    }

    /// The newest supported release.
    pub fn default() -> (r: MinecraftVersion)
        ensures
            r == (MinecraftVersion { major: 20, minor: 4 }),
    {
        Self::latest()
    }

    pub fn to_string(&self) -> (r: String)
        ensures
            r@ == self.display(),
    {
        let mut out = String::new();
        string_push(&mut out, '1');
        string_push(&mut out, '.');
        push_dec_u8(&mut out, self.major);
        string_push(&mut out, '.');
        push_dec_u8(&mut out, self.minor);
        assert(out@ =~= self.display());
        out
    }

    /// Reads a supported release from `1.<major>.<minor>`: a string that is
    /// not three dot-separated parts, whose first part is not `1`, whose
    /// other parts are not numbers that fit a byte, or that names a release
    /// that is not supported, is refused with the kind of failure.
    pub fn from_str(s: &str) -> (r: Result<MinecraftVersion, VersionParseError>)
        ensures
            match (r, supported_parse_spec(s@)) {
                (Ok(v), Ok(w)) => v == w,
                (Err(e), Err(f)) => e.failure() == f && e.text() == s@,
                _ => false,
            },
    {
        match parse_version_str(s) {
            Err(failure) => Err(VersionParseError::new(failure, s.to_owned())),
            Ok(v) => match Self::get(v.major, v.minor) {
                Some(version) => Ok(version),
                None => Err(VersionParseError::new(VersionParseFailure::InvalidVersion, s.to_owned())),
            },
        }
    }
}

/// Every supported release reads back from its text.
pub proof fn lemma_supported_round_trip(v: MinecraftVersion)
    requires
        supported().contains(v),
    ensures
        supported_parse_spec(v.display()) == Ok::<MinecraftVersion, VersionParseFailure>(v),
{
    let r = Release { major: v.major, minor: v.minor };
    crate::mc_version::lemma_version_display_parse(r);
    assert(r.display() == v.display());
}

} // verus!
