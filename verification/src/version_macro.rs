//! The version sets that define which Minecraft releases a pack format
//! covers, written `1.18`, `1.18.2`, `1.18..1.18.2` or a bracketed list of
//! those, and their expansion into the listed releases.
use vstd::prelude::*;

verus! {

/// A release number `<major>.<minor>.<patch>`; `1.18` has patch 0.
#[derive(Debug, Clone, Copy, PartialEq, Eq, PartialOrd, Ord, Hash, Structural)]
pub struct SemanticVersion {
    pub major: u8,
    pub minor: u8,
    pub patch: u8,
}

/// The lexicographic order of releases.
pub open spec fn semantic_lt(a: SemanticVersion, b: SemanticVersion) -> bool {
    a.major < b.major || (a.major == b.major && (a.minor < b.minor || (a.minor == b.minor
        && a.patch < b.patch)))
}

impl SemanticVersion {
    pub fn new(major: u8, minor: u8, patch: u8) -> (r: Self)
        ensures
            r == (SemanticVersion { major, minor, patch }),
    {
        SemanticVersion { major, minor, patch }
    }

    pub fn lt(&self, other: &Self) -> (r: bool)
        ensures
            r == semantic_lt(*self, *other),
    {
        self.major < other.major || (self.major == other.major && (self.minor < other.minor || (
        self.minor == other.minor && self.patch < other.patch)))
    }
}

/// One entry of a version set: a release, or a range of patch releases.
#[derive(Debug, Clone, Copy, PartialEq, Eq, PartialOrd, Ord, Structural)]
pub enum VersionSetElement {
    Single(SemanticVersion),
    Range(SemanticVersion, SemanticVersion),
}

/// Why a version set could not be expanded.
#[derive(Debug, Clone, Copy, PartialEq, Eq, Structural)]
pub enum ExpandFailure {
    /// A range whose end is not after its start.
    EndNotAfterStart,
    /// A range whose ends differ in major or minor number.
    DifferentMajorMinor,
}

/// The error a failed expansion reports, with its message.
#[derive(Debug, Clone, PartialEq, Eq)]
pub struct VersionExpandError(pub String);

pub open spec fn expand_failure_message(f: ExpandFailure) -> Seq<char> {
    match f {
        ExpandFailure::EndNotAfterStart => "End version must be greater than start version"@,
        ExpandFailure::DifferentMajorMinor =>
            "Start and end versions must have the same major and minor versions"@,
    }
}

impl VersionExpandError {
    pub fn from_failure(f: ExpandFailure) -> (r: Self)
        ensures
            r.0@ == expand_failure_message(f),
    {
        match f {
            ExpandFailure::EndNotAfterStart => VersionExpandError(
                "End version must be greater than start version".to_owned(),
            ),
            ExpandFailure::DifferentMajorMinor => VersionExpandError(
                "Start and end versions must have the same major and minor versions".to_owned(),
            ),
        }
    }

    /// The message the error is shown with.
    pub fn to_string(&self) -> (r: String)
        ensures
            r@ == "Failed to expand version set: "@ + self.0@,
    {
        let mut out = "Failed to expand version set: ".to_owned();
        out.append(self.0.as_str());
        out
    }
}

/// The releases `<major>.<minor>.lo` to `<major>.<minor>.hi`, in order.
pub open spec fn patch_range(major: u8, minor: u8, lo: u8, hi: u8) -> Seq<SemanticVersion> {
    Seq::new(
        (hi - lo + 1) as nat,
        |i: int| SemanticVersion { major, minor, patch: (lo + i) as u8 },
    )
}

/// What an element expands to.
pub open spec fn expand_element_spec(e: VersionSetElement) -> Result<Seq<SemanticVersion>, ExpandFailure> {
    match e {
        VersionSetElement::Single(v) => Ok(seq![v]),
        VersionSetElement::Range(start, end) => if !semantic_lt(start, end) {
            Err(ExpandFailure::EndNotAfterStart)
        } else if start.major != end.major || start.minor != end.minor {
            Err(ExpandFailure::DifferentMajorMinor)
        } else {
            Ok(patch_range(start.major, start.minor, start.patch, end.patch))
        },
    }
}

/// What a list of elements expands to: the expansions in order, or the
/// failure of the first element that fails.
pub open spec fn expand_list_spec(elements: Seq<VersionSetElement>) -> Result<Seq<SemanticVersion>, ExpandFailure>
    decreases elements.len(),
{
    if elements.len() == 0 {
        Ok(Seq::empty())
    } else {
        match expand_list_spec(elements.drop_last()) {
            Err(f) => Err(f),
            Ok(front) => match expand_element_spec(elements.last()) {
                Err(f) => Err(f),
                Ok(back) => Ok(front + back),
            },
        }
    }
}

/// An expansion result matches its specification.
pub open spec fn expansion_matches(
    r: Result<Vec<SemanticVersion>, VersionExpandError>,
    spec: Result<Seq<SemanticVersion>, ExpandFailure>,
) -> bool {
    match (r, spec) {
        (Ok(v), Ok(s)) => v@ == s,
        (Err(e), Err(f)) => e.0@ == expand_failure_message(f),
        _ => false,
    }
}

impl VersionSetElement {
    /// Expands the element into the releases it names.
    pub fn expand(&self) -> (r: Result<Vec<SemanticVersion>, VersionExpandError>)
        ensures
            expansion_matches(r, expand_element_spec(*self)),
    {
        match expand_element(self) {
            Ok(v) => Ok(v),
            Err(f) => Err(VersionExpandError::from_failure(f)),
        }
    }
}

fn expand_element(e: &VersionSetElement) -> (r: Result<Vec<SemanticVersion>, ExpandFailure>)
    ensures
        match (r, expand_element_spec(*e)) {
            (Ok(v), Ok(s)) => v@ == s,
            (Err(f), Err(g)) => f == g,
            _ => false,
        },
{
    match e {
        VersionSetElement::Single(v) => {
            let mut out = Vec::new();
            out.push(*v);
            assert(out@ =~= seq![*v]);
            Ok(out)
        },
        VersionSetElement::Range(start, end) => {
            if !start.lt(end) {
                return Err(ExpandFailure::EndNotAfterStart);
            }
            if start.major != end.major || start.minor != end.minor {
                return Err(ExpandFailure::DifferentMajorMinor);
            }
            let mut versions: Vec<SemanticVersion> = Vec::new();
            let mut patch: u8 = start.patch;
            let ghost full = patch_range(start.major, start.minor, start.patch, end.patch);
            loop
                invariant_except_break
                    start.patch <= patch <= end.patch,
                    full == patch_range(start.major, start.minor, start.patch, end.patch),
                    start.major == end.major && start.minor == end.minor,
                    semantic_lt(*start, *end),
                    versions@ =~= full.take(patch - start.patch),
                ensures
                    versions@ =~= patch_range(start.major, start.minor, start.patch, end.patch),
                decreases end.patch - patch,
            {
                versions.push(SemanticVersion::new(start.major, start.minor, patch));
                assert(full[patch - start.patch] == (SemanticVersion { major: start.major, minor: start.minor, patch }));
                assert(versions@ =~= full.take(patch - start.patch + 1));
                if patch == end.patch {
                    assert(full.take(patch - start.patch + 1) =~= full);
                    break ;
                }
                patch = patch + 1;
            }
            Ok(versions)
        },
    }
}

/// A version set: a single element, or a bracketed list of elements.
#[derive(Debug, Clone, PartialEq, Eq)]
pub enum VersionSet {
    Element(VersionSetElement),
    List(Vec<VersionSetElement>),
}

impl VersionSet {
    pub open spec fn elements(&self) -> Seq<VersionSetElement> {
        match self {
            VersionSet::Element(e) => seq![*e],
            VersionSet::List(list) => list@,
        }
    }

    /// Expands every element, in order, stopping at the first failure.
    pub fn expand(&self) -> (r: Result<Vec<SemanticVersion>, VersionExpandError>)
        ensures
            expansion_matches(r, expand_list_spec(self.elements())),
    {
        match self {
            VersionSet::Element(element) => {
                proof {
                    let s = seq![*element];
                    assert(s.drop_last() =~= Seq::<VersionSetElement>::empty());
                    assert(expand_list_spec(Seq::<VersionSetElement>::empty()) == Ok::<
                        Seq<SemanticVersion>,
                        ExpandFailure,
                    >(Seq::empty()));
                    match expand_element_spec(*element) {
                        Ok(back) => {
                            assert(Seq::<SemanticVersion>::empty() + back =~= back);
                        },
                        Err(_) => {},
                    }
                }
                element.expand()
            },
            VersionSet::List(elements) => {
                let mut expanded: Vec<SemanticVersion> = Vec::new();
                let mut i: usize = 0;
                assert(elements@.take(0) =~= Seq::<VersionSetElement>::empty());
                while i < elements.len()
                    invariant
                        i <= elements@.len(),
                        self.elements() == elements@,
                        expand_list_spec(elements@.take(i as int)) == Ok::<
                            Seq<SemanticVersion>,
                            ExpandFailure,
                        >(expanded@),
                    decreases elements@.len() - i,
                {
                    assert(elements@.take(i + 1).drop_last() =~= elements@.take(i as int));
                    assert(elements@.take(i + 1).last() == elements@[i as int]);
                    match expand_element(&elements[i]) {
                        Ok(more) => {
                            let mut more = more;
                            let ghost prev = expanded@;
                            let ghost added = more@;
                            expanded.append(&mut more);
                            assert(expand_list_spec(elements@.take(i + 1)) == Ok::<
                                Seq<SemanticVersion>,
                                ExpandFailure,
                            >(prev + added));
                        },
                        Err(f) => {
                            assert(expand_list_spec(elements@.take(i + 1)) == Err::<
                                Seq<SemanticVersion>,
                                ExpandFailure,
                            >(f));
                            proof {
                                lemma_expand_list_prefix_error(elements@, i as int + 1);
                                assert(self.elements() == elements@);
                                assert(expand_list_spec(self.elements()) == Err::<
                                    Seq<SemanticVersion>,
                                    ExpandFailure,
                                >(f));
                            }
                            return Err(VersionExpandError::from_failure(f));
                        },
                    }
                    i = i + 1;
                }
                assert(elements@.take(i as int) =~= elements@);
                Ok(expanded)
            },
        }
    }
}

/// A failure in a prefix of the list is the failure of the whole list.
pub proof fn lemma_expand_list_prefix_error(elements: Seq<VersionSetElement>, n: int)
    requires
        0 <= n <= elements.len(),
        expand_list_spec(elements.take(n)) is Err,
    ensures
        expand_list_spec(elements) == expand_list_spec(elements.take(n)),
    decreases elements.len() - n,
{
    if n < elements.len() {
        assert(elements.take(n + 1).drop_last() =~= elements.take(n));
        lemma_expand_list_prefix_error(elements, n + 1);
    } else {
        assert(elements.take(n) =~= elements);
    }
}

/// A pack format number with the releases it covers.
#[derive(Debug, Clone, PartialEq, Eq)]
pub struct PackFormat {
    pub format_id: u8,
    pub versions: Vec<SemanticVersion>,
}

impl PackFormat {
    /// The format `format_id` covering the releases that `versions` names.
    pub fn from_version_set(format_id: u8, versions: &VersionSet) -> (r: Result<
        PackFormat,
        VersionExpandError,
    >)
        ensures
            match (r, expand_list_spec(versions.elements())) {
                (Ok(p), Ok(s)) => p.format_id == format_id && p.versions@ == s,
                (Err(e), Err(f)) => e.0@ == expand_failure_message(f),
                _ => false,
            },
    {
        let versions = versions.expand()?;
        Ok(PackFormat { format_id, versions })
    }
}

/// Every release a list of pack formats covers.
pub open spec fn covered(packs: Seq<PackFormat>, v: SemanticVersion) -> bool {
    exists|i: int, j: int|
        0 <= i < packs.len() && 0 <= j < packs[i].versions@.len() && #[trigger] packs[i].versions@[j]
            == v
}

pub open spec fn strictly_sorted(s: Seq<SemanticVersion>) -> bool {
    forall|i: int, j: int| 0 <= i < j < s.len() ==> semantic_lt(#[trigger] s[i], #[trigger] s[j])
}

/// The data and resource pack formats of a definition, with every release
/// they cover, sorted and without repeats.
#[derive(Debug, Clone, PartialEq, Eq)]
pub struct FormatList {
    pub data_formats: Vec<PackFormat>,
    pub resource_packs: Vec<PackFormat>,
    pub mc_versions: Vec<SemanticVersion>,
}

impl FormatList {
    pub fn new(data_formats: Vec<PackFormat>, resource_packs: Vec<PackFormat>) -> (r: Self)
        ensures
            r.data_formats@ == data_formats@,
            r.resource_packs@ == resource_packs@,
            strictly_sorted(r.mc_versions@),
            forall|v: SemanticVersion|
                #[trigger] r.mc_versions@.contains(v) <==> (covered(data_formats@, v) || covered(
                    resource_packs@,
                    v,
                )),
    {
        let mut mc_versions: Vec<SemanticVersion> = Vec::new();
        assert(mc_versions@ =~= Seq::<SemanticVersion>::empty());
        add_all_versions(&mut mc_versions, &data_formats);
        add_all_versions(&mut mc_versions, &resource_packs);
        FormatList { data_formats, resource_packs, mc_versions }
    }
}

/// Adds every release of `packs` to the sorted list `sorted`.
fn add_all_versions(sorted: &mut Vec<SemanticVersion>, packs: &Vec<PackFormat>)
    requires
        strictly_sorted(old(sorted)@),
    ensures
        strictly_sorted(final(sorted)@),
        forall|v: SemanticVersion|
            #[trigger] final(sorted)@.contains(v) <==> (old(sorted)@.contains(v) || covered(packs@, v)),
{
    let mut i: usize = 0;
    while i < packs.len()
        invariant
            i <= packs@.len(),
            strictly_sorted(sorted@),
            forall|v: SemanticVersion|
                #[trigger] sorted@.contains(v) <==> (old(sorted)@.contains(v) || covered(
                    packs@.take(i as int),
                    v,
                )),
        decreases packs@.len() - i,
    {
        let pack = &packs[i];
        let mut j: usize = 0;
        let ghost before = sorted@;
        while j < pack.versions.len()
            invariant
                i < packs@.len(),
                pack == packs@[i as int],
                j <= pack.versions@.len(),
                strictly_sorted(sorted@),
                forall|v: SemanticVersion|
                    #[trigger] sorted@.contains(v) <==> (before.contains(v) || exists|k: int|
                        0 <= k < j && #[trigger] pack.versions@[k] == v),
            decreases pack.versions@.len() - j,
        {
            let ghost mid = sorted@;
            let x = pack.versions[j];
            insert_sorted(sorted, x);
            proof {
                assert forall|v: SemanticVersion|
                    #[trigger] sorted@.contains(v) <==> (before.contains(v) || exists|k: int|
                        0 <= k < j + 1 && #[trigger] pack.versions@[k] == v) by {
                    if v == x {
                        assert(pack.versions@[j as int] == v);
                    }
                    if exists|k: int| 0 <= k < j + 1 && #[trigger] pack.versions@[k] == v {
                        let k = choose|k: int| 0 <= k < j + 1 && #[trigger] pack.versions@[k] == v;
                        if k < j {
                            assert(exists|k2: int| 0 <= k2 < j && #[trigger] pack.versions@[k2] == v);
                            assert(mid.contains(v));
                        }
                    }
                }
            }
            j = j + 1;
        }
        proof {
            let next = packs@.take(i + 1);
            assert forall|v: SemanticVersion|
                covered(next, v) <==> (covered(packs@.take(i as int), v) || exists|k: int|
                    0 <= k < pack.versions@.len() && #[trigger] pack.versions@[k] == v) by {
                if covered(next, v) {
                    let (a, b) = choose|a: int, b: int|
                        0 <= a < next.len() && 0 <= b < next[a].versions@.len()
                            && #[trigger] next[a].versions@[b] == v;
                    if a < i {
                        assert(packs@.take(i as int)[a] == next[a]);
                    } else {
                        assert(pack.versions@[b] == v);
                    }
                }
                if covered(packs@.take(i as int), v) {
                    let (a, b) = choose|a: int, b: int|
                        0 <= a < packs@.take(i as int).len() && 0 <= b < packs@.take(
                            i as int,
                        )[a].versions@.len() && #[trigger] packs@.take(i as int)[a].versions@[b]
                            == v;
                    assert(next[a] == packs@.take(i as int)[a]);
                    assert(next[a].versions@[b] == v);
                }
                if exists|k: int| 0 <= k < pack.versions@.len() && #[trigger] pack.versions@[k] == v {
                    let k = choose|k: int|
                        0 <= k < pack.versions@.len() && #[trigger] pack.versions@[k] == v;
                    assert(next[i as int] == pack);
                    assert(next[i as int].versions@[k] == v);
                }
            }
        }
        i = i + 1;
    }
    proof {
        assert(packs@.take(i as int) =~= packs@);
    }
}

/// Inserts `v` at its place in the sorted list `sorted`, unless present.
fn insert_sorted(sorted: &mut Vec<SemanticVersion>, v: SemanticVersion)
    requires
        strictly_sorted(old(sorted)@),
    ensures
        strictly_sorted(final(sorted)@),
        forall|w: SemanticVersion| #[trigger] final(sorted)@.contains(w) <==> (old(sorted)@.contains(w) || w == v),
{
    let mut k: usize = 0;
    while k < sorted.len() && sorted[k].lt(&v)
        invariant
            k <= sorted@.len(),
            sorted@ == old(sorted)@,
            forall|m: int| 0 <= m < k ==> semantic_lt(#[trigger] sorted@[m], v),
        decreases sorted@.len() - k,
    {
        k = k + 1;
    }
    if k < sorted.len() && sorted[k] == v {
        return ;
    }
    proof {
        if k < sorted@.len() {
            assert(semantic_lt(v, sorted@[k as int]));
        }
    }
    sorted.insert(k, v);
    proof {
        let s = final(sorted)@;
        let o = old(sorted)@;
        assert(s =~= o.insert(k as int, v));
        assert forall|a: int, b: int| 0 <= a < b < s.len() implies semantic_lt(
            #[trigger] s[a],
            #[trigger] s[b],
        ) by {
            if b < k {
            } else if b == k {
            } else if a < k {
                assert(s[b] == o[b - 1]);
                if k < o.len() {
                    assert(semantic_lt(v, o[k as int]));
                }
            } else if a == k {
                assert(s[b] == o[b - 1]);
                assert(semantic_lt(v, o[k as int]));
                if b - 1 > k {
                    assert(semantic_lt(o[k as int], o[b - 1]));
                }
            } else {
                assert(s[a] == o[a - 1]);
                assert(s[b] == o[b - 1]);
            }
        }
        assert forall|w: SemanticVersion| #[trigger] s.contains(w) <==> (o.contains(w) || w == v) by {
            if s.contains(w) {
                let m = choose|m: int| 0 <= m < s.len() && s[m] == w;
                if m < k {
                    assert(o[m] == w);
                } else if m > k {
                    assert(o[m - 1] == w);
                }
            }
            if o.contains(w) {
                let m = choose|m: int| 0 <= m < o.len() && o[m] == w;
                if m < k {
                    assert(s[m] == w);
                } else {
                    assert(s[m + 1] == w);
                }
            }
            if w == v {
                assert(s[k as int] == v);
            }
        }
    }
}

} // verus!
