//! Minecraft release versions (`1.<major>.<minor>`) and the pack formats
//! that group them.
use vstd::prelude::*;
use crate::text::{
    char_positions, dec_u8, is_digit, lemma_dec_u8_digits, lemma_parse_dec_u8, lemma_positions_concat,
    lemma_positions_in_range, lemma_positions_none, parse_u8_spec, parse_u8_str, positions_of,
    push_dec_u8, string_push,
};

verus! {

/// A Minecraft release `1.<major>.<minor>`.
#[derive(Debug, Clone, Copy, PartialEq, Eq, PartialOrd, Ord, Hash, Structural)]
pub struct MinecraftVersion {
    pub major: u8,
    pub minor: u8,
}

/// The order of versions: by major number, then by minor number.
pub open spec fn version_le(a: MinecraftVersion, b: MinecraftVersion) -> bool {
    a.major < b.major || (a.major == b.major && a.minor <= b.minor)
}

pub open spec fn version_lt(a: MinecraftVersion, b: MinecraftVersion) -> bool {
    a.major < b.major || (a.major == b.major && a.minor < b.minor)
}

/// Which of the three ways of failing a version string falls into.
#[derive(Debug, Clone, Copy, PartialEq, Eq, Structural)]
pub enum VersionParseFailure {
    InvalidFormat,
    NotNumeric,
    InvalidVersion,
}

/// Why a version string was refused; each variant carries the string.
#[derive(Debug, Clone, PartialEq, Eq)]
pub enum VersionParseError {
    /// The string is not three parts separated by dots.
    InvalidFormat(String),
    /// The second or third part is not a number from 0 to 255.
    NotNumeric(String),
    /// The first part is not `1`, or the version is not a supported one.
    InvalidVersion(String),
}

impl VersionParseError {
    pub open spec fn failure(&self) -> VersionParseFailure {
        match self {
            VersionParseError::InvalidFormat(_) => VersionParseFailure::InvalidFormat,
            VersionParseError::NotNumeric(_) => VersionParseFailure::NotNumeric,
            VersionParseError::InvalidVersion(_) => VersionParseFailure::InvalidVersion,
        }
    }

    pub open spec fn text(&self) -> Seq<char> {
        match self {
            VersionParseError::InvalidFormat(s) => s@,
            VersionParseError::NotNumeric(s) => s@,
            VersionParseError::InvalidVersion(s) => s@,
        }
    }

    pub fn new(failure: VersionParseFailure, text: String) -> (r: Self)
        ensures
            r.failure() == failure,
            r.text() == text@,
    {
        match failure {
            VersionParseFailure::InvalidFormat => VersionParseError::InvalidFormat(text),
            VersionParseFailure::NotNumeric => VersionParseError::NotNumeric(text),
            VersionParseFailure::InvalidVersion => VersionParseError::InvalidVersion(text),
        }
    }

    /// The message the error is shown with.
    pub fn to_string(&self) -> (r: String)
        ensures
            r@ == self.message(),
    {
        let (prefix, s) = match self {
            VersionParseError::InvalidFormat(s) => ("Invalid Minecraft version format: ", s),
            VersionParseError::NotNumeric(s) => ("Non-numeric contents in Minecraft version: ", s),
            VersionParseError::InvalidVersion(s) => ("No recognized Minecraft version matching: ", s),
        };
        let mut out = prefix.to_owned();
        out.append(s.as_str());
        out
    }

    pub open spec fn message(&self) -> Seq<char> {
        match self {
            VersionParseError::InvalidFormat(s) => "Invalid Minecraft version format: "@ + s@,
            VersionParseError::NotNumeric(s) => "Non-numeric contents in Minecraft version: "@ + s@,
            VersionParseError::InvalidVersion(s) => "No recognized Minecraft version matching: "@
                + s@,
        }
    }
}

/// The three dot-separated parts of a version string, when it has exactly
/// three.
pub open spec fn version_parts(s: Seq<char>) -> Option<(Seq<char>, Seq<char>, Seq<char>)> {
    let dots = positions_of(s, '.');
    if dots.len() != 2 {
        None
    } else {
        Some((s.subrange(0, dots[0]), s.subrange(dots[0] + 1, dots[1]), s.subrange(dots[1] + 1, s.len() as int)))
    }
}

/// How a string reads as `1.<major>.<minor>`: three dot-separated parts, the
/// first exactly `1`, the other two numbers that fit a byte.
pub open spec fn parse_version_spec(s: Seq<char>) -> Result<MinecraftVersion, VersionParseFailure> {
    match version_parts(s) {
        None => Err(VersionParseFailure::InvalidFormat),
        Some((first, second, third)) => if first != seq!['1'] {
            Err(VersionParseFailure::InvalidVersion)
        } else {
            match (parse_u8_spec(second), parse_u8_spec(third)) {
                (Some(major), Some(minor)) => Ok(MinecraftVersion { major, minor }),
                _ => Err(VersionParseFailure::NotNumeric),
            }
        },
    }
}

/// A parse result matches its specification: the same version, or an error
/// of the specified kind carrying the input string.
pub open spec fn parse_result_matches(
    r: Result<MinecraftVersion, VersionParseError>,
    s: Seq<char>,
    spec: Result<MinecraftVersion, VersionParseFailure>,
) -> bool {
    match (r, spec) {
        (Ok(v), Ok(w)) => v == w,
        (Err(e), Err(f)) => e.failure() == f && e.text() == s,
        _ => false,
    }
}

impl MinecraftVersion {
    pub fn new(major: u8, minor: u8) -> (r: Self)
        ensures
            r.major == major,
            r.minor == minor,
    {
        MinecraftVersion { major, minor }
    }

    /// The text `1.<major>.<minor>`.
    pub open spec fn display(self) -> Seq<char> {
        seq!['1', '.'] + dec_u8(self.major) + seq!['.'] + dec_u8(self.minor)
    }

    pub fn to_string(&self) -> (r: String)
        ensures
            r@ == self.display(),
    {
        let mut out = String::new();
        string_push(&mut out, '1');
        string_push(&mut out, '.');
        push_dec_u8(&mut out, self.major);
        string_push(&mut out, '.');
        push_dec_u8(&mut out, self.minor);
        assert(out@ =~= self.display());
        out
    }

    /// Reads `1.<major>.<minor>`.
    pub fn from_str(s: &str) -> (r: Result<Self, VersionParseError>)
        ensures
            parse_result_matches(r, s@, parse_version_spec(s@)),
    {
        match parse_version_str(s) {
            Ok(v) => Ok(v),
            Err(failure) => Err(VersionParseError::new(failure, s.to_owned())),
        }
    }

    pub fn le(&self, other: &Self) -> (r: bool)
        ensures
            r == version_le(*self, *other),
    {
        self.major < other.major || (self.major == other.major && self.minor <= other.minor)
    }

    pub fn lt(&self, other: &Self) -> (r: bool)
        ensures
            r == version_lt(*self, *other),
    {
        self.major < other.major || (self.major == other.major && self.minor < other.minor)
    }
}

/// Reads `1.<major>.<minor>`, giving only the kind of failure.
pub fn parse_version_str(s: &str) -> (r: Result<MinecraftVersion, VersionParseFailure>)
    ensures
        r == parse_version_spec(s@),
{
    let dots = char_positions(s, '.');
    proof {
        lemma_positions_in_range(s@, '.');
        lemma_positions_sorted(s@, '.');
    }
    if dots.len() != 2 {
        return Err(VersionParseFailure::InvalidFormat);
    }
    let len = s.unicode_len();
    let d0 = dots[0];
    let d1 = dots[1];
    assert(dots@.map_values(|p: usize| p as int)[0] == d0 as int);
    assert(dots@.map_values(|p: usize| p as int)[1] == d1 as int);
    let first = s.substring_char(0, d0);
    let second = s.substring_char(d0 + 1, d1);
    let third = s.substring_char(d1 + 1, len);
    if !(first.unicode_len() == 1 && first.get_char(0) == '1') {
        assert(first@ != seq!['1']) by {
            if first@ =~= seq!['1'] {
                assert(first@[0] == '1');
            }
        }
        return Err(VersionParseFailure::InvalidVersion);
    }
    assert(first@ =~= seq!['1']);
    let major = parse_u8_str(second);
    let minor = parse_u8_str(third);
    match (major, minor) {
        (Some(major), Some(minor)) => Ok(MinecraftVersion::new(major, minor)),
        _ => Err(VersionParseFailure::NotNumeric),
    }
}

/// Positions of a character are strictly increasing.
pub proof fn lemma_positions_sorted(s: Seq<char>, c: char)
    ensures
        forall|i: int, j: int|
            0 <= i < j < positions_of(s, c).len() ==> positions_of(s, c)[i] < positions_of(s, c)[j],
    decreases s.len(),
{
    if s.len() > 0 {
        lemma_positions_sorted(s.drop_last(), c);
        lemma_positions_in_range(s.drop_last(), c);
        let p = positions_of(s.drop_last(), c);
        let q = positions_of(s, c);
        assert forall|i: int, j: int| 0 <= i < j < q.len() implies q[i] < q[j] by {
            if j == p.len() {
                assert(p[i] < s.len() - 1);
            }
        }
    }
}

/// Writing a version and reading it back gives the same version.
pub proof fn lemma_version_display_parse(v: MinecraftVersion)
    ensures
        parse_version_spec(v.display()) == Ok::<MinecraftVersion, VersionParseFailure>(v),
{
    let a = dec_u8(v.major);
    let b = dec_u8(v.minor);
    lemma_dec_u8_digits(v.major);
    lemma_dec_u8_digits(v.minor);
    lemma_parse_dec_u8(v.major);
    lemma_parse_dec_u8(v.minor);
    let s = v.display();
    let p1 = seq!['1', '.'];
    let p2 = p1 + a;
    let p3 = p2 + seq!['.'];
    assert(s == p3 + b);
    assert forall|i: int| 0 <= i < a.len() implies a[i] != '.' by {
        assert(is_digit(a[i]));
    }
    assert forall|i: int| 0 <= i < b.len() implies b[i] != '.' by {
        assert(is_digit(b[i]));
    }
    lemma_positions_none(a, '.');
    lemma_positions_none(b, '.');
    lemma_positions_none(seq!['1'], '.');
    assert(positions_of(p1, '.') =~= seq![1int]) by {
        assert(p1.drop_last() =~= seq!['1']);
    }
    lemma_positions_concat(p1, a, '.');
    assert(positions_of(p2, '.') =~= seq![1int]);
    assert(positions_of(seq!['.'], '.') =~= seq![0int]) by {
        assert(seq!['.'].drop_last() =~= Seq::<char>::empty());
        lemma_positions_none(Seq::<char>::empty(), '.');
    }
    lemma_positions_concat(p2, seq!['.'], '.');
    let d1: int = (a.len() + 2) as int;
    assert(positions_of(p3, '.') =~= seq![1int, d1]);
    lemma_positions_concat(p3, b, '.');
    assert(positions_of(s, '.') =~= seq![1int, d1]);
    assert(s.subrange(0, 1) =~= seq!['1']);
    assert(s.subrange(2, d1) =~= a);
    assert(s.subrange(d1 + 1, s.len() as int) =~= b);
}

/// A pack format number together with the Minecraft versions it covers.
#[derive(Debug, Clone)]
pub struct PackFormat {
    pub format_id: u8,
    pub versions: Vec<MinecraftVersion>,
}

impl PackFormat {
    pub fn new(format_id: u8, versions: Vec<MinecraftVersion>) -> (r: Self)
        ensures
            r.format_id == format_id,
            r.versions@ == versions@,
    {
        PackFormat { format_id, versions }
    }

    pub fn get_format_id(&self) -> (r: u8)
        ensures
            r == self.format_id,
    {
        self.format_id
    }

    pub fn get_versions(&self) -> (r: &Vec<MinecraftVersion>)
        ensures
            r@ == self.versions@,
    {
        &self.versions
    }

    /// Whether this format covers `version`.
    pub fn contains(&self, version: MinecraftVersion) -> (r: bool)
        ensures
            r == self.versions@.contains(version),
    {
        let mut i: usize = 0;
        while i < self.versions.len()
            invariant
                i <= self.versions@.len(),
                forall|k: int| 0 <= k < i ==> self.versions@[k] != version,
            decreases self.versions@.len() - i,
        {
            if self.versions[i] == version {
                return true;
            }
            i = i + 1;
        }
        false
    }
}

/// Two pack formats are equal when their format numbers are.
impl PartialEq for PackFormat {
    fn eq(&self, other: &Self) -> (r: bool) {
        self.format_id == other.format_id
    }
}

impl vstd::std_specs::cmp::PartialEqSpecImpl for PackFormat {
    open spec fn obeys_eq_spec() -> bool {
        true
    }

    open spec fn eq_spec(&self, other: &PackFormat) -> bool {
        self.format_id == other.format_id
    }
}

} // verus!
