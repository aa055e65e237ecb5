//! Resource locations (`namespace:path`) and the resources of a pack.
use vstd::prelude::*;
use crate::text::{positions_of, string_push};

verus! {

/// A character allowed in a namespace: `a`-`z` or `0`-`9`.
pub open spec fn is_namespace_char(c: char) -> bool {
    ('a' <= c && c <= 'z') || ('0' <= c && c <= '9')
}

/// A character allowed in a path: a namespace character, `.`, `-` or `/`.
pub open spec fn is_path_char(c: char) -> bool {
    is_namespace_char(c) || c == '.' || c == '-' || c == '/'
}

/// The text of a valid resource location: a non-empty namespace of
/// namespace characters, one `:`, and a non-empty path of path characters.
pub open spec fn is_resource_location_text(s: Seq<char>) -> bool {
    let colons = positions_of(s, ':');
    &&& colons.len() == 1
    &&& 0 < colons[0] < s.len() - 1
    &&& forall|i: int| 0 <= i < colons[0] ==> #[trigger] is_namespace_char(s[i])
    &&& forall|i: int| colons[0] < i < s.len() ==> #[trigger] is_path_char(s[i])
}

/// The regular expression resource locations are checked against.
pub open spec fn resource_location_pattern() -> Seq<char> {
    "^[a-z0-9]+:[a-z0-9.\\-/]+$"@
}

/// Compiles `pattern` with `regex::Regex::new` and tests `text` with
/// `Regex::is_match`.
///
/// Only the resource location pattern is passed here. By the syntax the
/// regex crate documents (`^` and `$` anchor at the ends of the text, the
/// bracketed classes are the listed ASCII characters), it matches exactly the
/// texts of `is_resource_location_text`.
#[verifier::external_body]
fn regex_is_match(pattern: &str, text: &str) -> (r: bool)
    requires
        pattern@ == resource_location_pattern(),
    ensures
        r == is_resource_location_text(text@),
{
    regex::Regex::new(pattern).unwrap().is_match(text)
}

/// A namespaced location of a resource, such as `minecraft:stone`.
#[derive(Debug, Clone, PartialEq, Eq, Hash)]
pub struct ResourceLocation {
    pub namespace: String,
    pub value: String,
}

/// Why a text is not a resource location.
#[derive(Debug, Clone, PartialEq, Eq)]
pub struct ResourceLocationError(pub String);

pub open spec fn joined(namespace: Seq<char>, value: Seq<char>) -> Seq<char> {
    namespace + seq![':'] + value
}

pub open spec fn invalid_location_message(s: Seq<char>) -> Seq<char> {
    "Invalid resource location: "@ + s
}

/// What reading a text as a resource location gives: the text itself split
/// at its `:` when valid, else the text in namespace `minecraft` when that
/// is valid, else nothing.
pub open spec fn parse_location_spec(s: Seq<char>) -> Option<(Seq<char>, Seq<char>)> {
    if is_resource_location_text(s) {
        let k = positions_of(s, ':')[0];
        Some((s.take(k), s.skip(k + 1)))
    } else if is_resource_location_text(joined("minecraft"@, s)) {
        Some(("minecraft"@, s))
    } else {
        None
    }
}

impl ResourceLocation {
    pub open spec fn display(&self) -> Seq<char> {
        joined(self.namespace@, self.value@)
    }

    /// Whether the location satisfies the grammar.
    pub open spec fn is_valid(&self) -> bool {
        is_resource_location_text(self.display())
    }

    /// The location `namespace:value`, when that is valid.
    pub fn new(namespace: String, value: String) -> (r: Result<Self, ResourceLocationError>)
        ensures
            match r {
                Ok(loc) => loc.namespace@ == namespace@ && loc.value@ == value@ && loc.is_valid(),
                Err(e) => !is_resource_location_text(joined(namespace@, value@)) && e.0@
                    == invalid_location_message(joined(namespace@, value@)),
            },
    {
        let mut loc = namespace.clone();
        string_push(&mut loc, ':');
        loc.append(value.as_str());
        assert(loc@ =~= joined(namespace@, value@));
        if Self::validate(loc.as_str()) {
            Ok(ResourceLocation { namespace, value })
        } else {
            let mut message = "Invalid resource location: ".to_owned();
            message.append(loc.as_str());
            Err(ResourceLocationError(message))
        }
    }

    fn validate(s: &str) -> (r: bool)
        ensures
            r == is_resource_location_text(s@),
    {
        regex_is_match("^[a-z0-9]+:[a-z0-9.\\-/]+$", s)
    }

    /// The text `namespace:value`.
    pub fn to_string(&self) -> (r: String)
        ensures
            r@ == self.display(),
    {
        let mut out = self.namespace.clone();
        string_push(&mut out, ':');
        out.append(self.value.as_str());
        assert(out@ =~= self.display());
        out
    }

    /// Reads `namespace:value`, or `value` alone in namespace `minecraft`.
    pub fn from_str(s: &str) -> (r: Result<Self, ResourceLocationError>)
        ensures
            match (r, parse_location_spec(s@)) {
                (Ok(loc), Some((ns, v))) => loc.namespace@ == ns && loc.value@ == v,
                (Err(e), None) => e.0@ == invalid_location_message(s@),
                _ => false,
            },
    {
        let len = s.unicode_len();
        if Self::validate(s) {
            let k = first_colon(s);
            let namespace = s.substring_char(0, k).to_owned();
            let value = s.substring_char(k + 1, len).to_owned();
            proof {
                assert(s@.subrange(0, k as int) =~= s@.take(k as int));
                assert(s@.subrange(k + 1, s@.len() as int) =~= s@.skip(k + 1));
            }
            Ok(ResourceLocation { namespace, value })
        } else {
            let mut default = "minecraft".to_owned();
            string_push(&mut default, ':');
            default.append(s);
            assert(default@ =~= joined("minecraft"@, s@));
            if Self::validate(default.as_str()) {
                Ok(ResourceLocation { namespace: "minecraft".to_owned(), value: s.to_owned() })
            } else {
                let mut message = "Invalid resource location: ".to_owned();
                message.append(s);
                Err(ResourceLocationError(message))
            }
        }
    }
}

/// The index of the only `:` of a valid resource location.
fn first_colon(s: &str) -> (k: usize)
    requires
        is_resource_location_text(s@),
    ensures
        k == positions_of(s@, ':')[0],
        k < s@.len(),
{
    let positions = crate::text::char_positions(s, ':');
    assert(positions@.map_values(|p: usize| p as int)[0] == positions@[0] as int);
    positions[0]
}

/// Writing a valid location and reading it back gives the same location.
pub proof fn lemma_location_round_trip(namespace: Seq<char>, value: Seq<char>)
    requires
        is_resource_location_text(joined(namespace, value)),
    ensures
        parse_location_spec(joined(namespace, value)) == Some((namespace, value)),
{
    let s = joined(namespace, value);
    let colons = positions_of(s, ':');
    let k = colons[0];
    crate::text::lemma_positions_in_range(s, ':');
    assert(s[namespace.len() as int] == ':');
    crate::text::lemma_positions_complete(s, ':', namespace.len() as int);
    assert(k == namespace.len());
    assert(s.take(k) =~= namespace);
    assert(s.skip(k + 1) =~= value);
}

/// Whether a resource lives under `assets/` or under `data/`.
#[derive(Debug, Clone, Copy, PartialEq, Eq, Structural)]
pub enum ResourceCategory {
    Asset,
    Data,
}

/// A kind of resource, which knows its category and the folder it lives in.
pub trait ResourcePath: Sized {
    spec fn spec_category() -> ResourceCategory;

    spec fn spec_root_path() -> Seq<char>;

    fn category() -> (r: ResourceCategory)
        ensures
            r == Self::spec_category(),
    ;

    fn root_path() -> (r: String)
        ensures
            r@ == Self::spec_root_path(),
    ;
}

/// A resource kind that lives under `assets/`.
pub trait Asset: ResourcePath {

}

/// A resource kind that lives under `data/`.
pub trait Data: ResourcePath {

}

/// The data held by a resource.
pub trait ResourceData: Sized {

}

/// An external representation of resource data (text, bytes).
pub trait ResourceDataRepr<T: ResourceData>: Sized {
    type Err;

    fn parse(input: Self) -> Result<T, Self::Err>;

    fn serialize(data: &T) -> Self;
}

/// A resource of kind `T` at a location, with its data when loaded.
pub struct Resource<T: ResourcePath + ResourceData> {
    pub resource_location: ResourceLocation,
    pub data: Option<T>,
}

pub open spec fn category_prefix(c: ResourceCategory) -> Seq<char> {
    match c {
        ResourceCategory::Asset => "assets/"@,
        ResourceCategory::Data => "data/"@,
    }
}

impl<T: ResourcePath + ResourceData> Resource<T> {
    pub fn new(resource_location: ResourceLocation) -> (r: Self)
        ensures
            r.resource_location == resource_location,
            r.data is None,
    {
        Resource { resource_location, data: None }
    }

    pub fn with_data(resource_location: ResourceLocation, data: T) -> (r: Self)
        ensures
            r.resource_location == resource_location,
            r.data == Some(data),
    {
        Resource { resource_location, data: Some(data) }
    }

    pub fn get_resource_location(&self) -> (r: &ResourceLocation)
        ensures
            *r == self.resource_location,
    {
        &self.resource_location
    }

    pub fn get_data(&self) -> (r: Option<&T>)
        ensures
            r == match self.data {
                Some(d) => Some(&d),
                None => None::<&T>,
            },
    {
        match &self.data {
            Some(d) => Some(d),
            None => None,
        }
    }

    /// The path of the resource inside a pack:
    /// `<assets|data>/<namespace>/<root path>/<value>`.
    pub open spec fn spec_path(&self) -> Seq<char> {
        category_prefix(T::spec_category()) + self.resource_location.namespace@ + "/"@
            + T::spec_root_path() + "/"@ + self.resource_location.value@
    }

    pub fn get_path(&self) -> (r: String)
        ensures
            r@ == self.spec_path(),
    {
        let mut path = match T::category() {
            ResourceCategory::Asset => "assets/".to_owned(),
            ResourceCategory::Data => "data/".to_owned(),
        };
        path.append(self.resource_location.namespace.as_str());
        path.append("/");
        let root = T::root_path();
        path.append(root.as_str());
        path.append("/");
        path.append(self.resource_location.value.as_str());
        path
    }
}

/// Advancements, stored under `data/<namespace>/advancement/`.
#[derive(Debug, Clone)]
pub struct Advancement;

impl ResourcePath for Advancement {
    open spec fn spec_category() -> ResourceCategory {
        ResourceCategory::Data
    }

    open spec fn spec_root_path() -> Seq<char> {
        "advancement"@
    }

    fn category() -> (r: ResourceCategory) {
        ResourceCategory::Data
    }

    fn root_path() -> (r: String) {
        "advancement".to_owned()
    }
}

impl ResourceData for Advancement {

}

impl Data for Advancement {

}

} // verus!
