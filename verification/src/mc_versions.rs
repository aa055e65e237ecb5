//! Version lists written with ranges of minor releases (`1.18..1.18.2` as
//! `18.0` to `18.2`), and their expansion into the releases they name.
use vstd::prelude::*;

verus! {

/// A release `1.<major>.<minor>` as written in a format definition.
#[derive(Debug, Clone, Copy, PartialEq, Eq, PartialOrd, Ord, Structural)]
pub struct MinecraftVersionDefinition {
    pub major: u8,
    pub minor: u8,
}

pub open spec fn definition_le(a: MinecraftVersionDefinition, b: MinecraftVersionDefinition) -> bool {
    a.major < b.major || (a.major == b.major && a.minor <= b.minor)
}

impl MinecraftVersionDefinition {
    /// The release `rhs` minor releases later.
    pub fn add(self, rhs: u8) -> (r: Self)
        requires
            self.minor + rhs <= 255,
        ensures
            r.major == self.major,
            r.minor == self.minor + rhs,
    {
        MinecraftVersionDefinition { major: self.major, minor: self.minor + rhs }
    }

    /// Moves `rhs` minor releases later.
    pub fn add_assign(&mut self, rhs: u8)
        requires
            old(self).minor + rhs <= 255,
        ensures
            final(self).major == old(self).major,
            final(self).minor == old(self).minor + rhs,
    {
        self.minor = self.minor + rhs;
    }

    pub fn le(&self, other: &Self) -> (r: bool)
        ensures
            r == definition_le(*self, *other),
    {
        self.major < other.major || (self.major == other.major && self.minor <= other.minor)
    }
}

/// An inclusive range of releases.
#[derive(Debug, Clone, Copy, PartialEq, Eq, Structural)]
pub struct VersionRange {
    pub start: MinecraftVersionDefinition,
    pub end: MinecraftVersionDefinition,
}

/// One entry of a version list.
#[derive(Debug, Clone, Copy, PartialEq, Eq, Structural)]
pub enum VersionSyntax {
    Single(MinecraftVersionDefinition),
    Range(VersionRange),
}

/// A version list, with or without ranges.
#[derive(Debug, Clone, PartialEq, Eq)]
pub enum VersionSet {
    Ranged(Vec<VersionSyntax>),
    Listed(Vec<MinecraftVersionDefinition>),
}

/// Whether a format is a data pack or a resource pack format.
#[derive(Debug, Clone, Copy, PartialEq, Eq, Structural)]
pub enum FormatType {
    DataPack,
    ResourcePack,
}

/// A pack format number with the releases it covers.
#[derive(Debug, Clone, PartialEq, Eq)]
pub struct PackFormatDefinition {
    pub format_type: FormatType,
    pub format_number: u8,
    pub mc_versions: VersionSet,
}

/// All data and resource pack formats, with every release they name.
#[derive(Debug, Clone, PartialEq, Eq)]
pub struct FormatSet {
    pub data_packs: Vec<PackFormatDefinition>,
    pub resource_packs: Vec<PackFormatDefinition>,
    pub versions: Vec<MinecraftVersionDefinition>,
}

/// Why a range could not be expanded; each variant carries the range.
#[derive(Debug, Clone, Copy, PartialEq, Eq, Structural)]
pub enum VersionExpandError {
    /// The two ends have different major numbers.
    NonMatchingMajorVersion(VersionRange),
    /// The end is not after the start.
    NonIncreasingRange(VersionRange),
}

impl VersionExpandError {
    /// The message the error is shown with.
    pub fn to_string(&self) -> (r: String)
        ensures
            r@ == (match self {
                VersionExpandError::NonMatchingMajorVersion(_) =>
                    "Version ranges must have matching major versions!"@,
                VersionExpandError::NonIncreasingRange(_) =>
                    "Version ranges must be strictly increasing!"@,
            }),
    {
        match self {
            VersionExpandError::NonMatchingMajorVersion(_) =>
                "Version ranges must have matching major versions!".to_owned(),
            VersionExpandError::NonIncreasingRange(_) =>
                "Version ranges must be strictly increasing!".to_owned(),
        }
    }
}

/// The releases `<major>.lo` to `<major>.hi`, in order.
pub open spec fn minor_range(major: u8, lo: u8, hi: u8) -> Seq<MinecraftVersionDefinition> {
    Seq::new(
        (hi - lo + 1) as nat,
        |i: int| MinecraftVersionDefinition { major, minor: (lo + i) as u8 },
    )
}

/// What one entry expands to.
pub open spec fn expand_syntax_spec(v: VersionSyntax) -> Result<Seq<MinecraftVersionDefinition>, VersionExpandError> {
    match v {
        VersionSyntax::Single(d) => Ok(seq![d]),
        VersionSyntax::Range(range) => if range.start.major != range.end.major {
            Err(VersionExpandError::NonMatchingMajorVersion(range))
        } else if definition_le(range.end, range.start) {
            Err(VersionExpandError::NonIncreasingRange(range))
        } else {
            Ok(minor_range(range.start.major, range.start.minor, range.end.minor))
        },
    }
}

/// Whether expanding the entry steps past minor release 255.
pub open spec fn syntax_overflows(v: VersionSyntax) -> bool {
    match v {
        VersionSyntax::Single(_) => false,
        VersionSyntax::Range(range) => expand_syntax_spec(v) is Ok && range.end.minor == 255,
    }
}

/// What a list expands to before repeats are removed: the expansions in
/// order, or the error of the first entry that fails.
pub open spec fn expand_all_spec(s: Seq<VersionSyntax>) -> Result<Seq<MinecraftVersionDefinition>, VersionExpandError>
    decreases s.len(),
{
    if s.len() == 0 {
        Ok(Seq::empty())
    } else {
        match expand_all_spec(s.drop_last()) {
            Err(e) => Err(e),
            Ok(front) => match expand_syntax_spec(s.last()) {
                Err(e) => Err(e),
                Ok(back) => Ok(front + back),
            },
        }
    }
}

/// Whether expanding the list reaches an entry that steps past 255 before
/// any entry fails.
pub open spec fn expansion_overflows(s: Seq<VersionSyntax>) -> bool
    decreases s.len(),
{
    if s.len() == 0 {
        false
    } else {
        expansion_overflows(s.drop_last()) || (expand_all_spec(s.drop_last()) is Ok
            && syntax_overflows(s.last()))
    }
}

/// A sequence with each run of equal neighbours reduced to its first
/// element, as `Vec::dedup` leaves it.
pub open spec fn dedup_spec<T>(s: Seq<T>) -> Seq<T>
    decreases s.len(),
{
    if s.len() <= 1 {
        s
    } else if s.last() == s[s.len() - 2] {
        dedup_spec(s.drop_last())
    } else {
        dedup_spec(s.drop_last()).push(s.last())
    }
}

/// Expands every entry in order, then removes repeated neighbours.
pub fn expand_versions(versions: Vec<VersionSyntax>) -> (r: Result<
    Vec<MinecraftVersionDefinition>,
    VersionExpandError,
>)
    requires
        !expansion_overflows(versions@),
    ensures
        match (r, expand_all_spec(versions@)) {
            (Ok(v), Ok(s)) => v@ == dedup_spec(s),
            (Err(e), Err(f)) => e == f,
            _ => false,
        },
        versions@.len() == 1 && versions@[0] is Range ==> ({
            let range = versions@[0]->Range_0;
            range.start.major == range.end.major && range.start.minor < range.end.minor ==> (r matches Ok(
                v,
            ) && v@.len() == range.end.minor - range.start.minor + 1 && v@[0] == range.start
                && v@.last() == range.end && forall|i: int|
                0 <= i < v@.len() ==> (#[trigger] v@[i]).major == range.start.major && v@[i].minor
                    == range.start.minor + i)
        }),
{
    proof {
        if versions@.len() == 1 {
            if let VersionSyntax::Range(range) = versions@[0] {
                if range.start.major == range.end.major && range.start.minor < range.end.minor {
                    lemma_range_expands_inclusive(range);
                    assert(versions@.drop_last() =~= Seq::<VersionSyntax>::empty());
                    assert(versions@.last() == versions@[0]);
                    assert(expand_all_spec(versions@) == expand_syntax_spec(versions@[0]));
                }
            }
        }
    }
    let mut expanded: Vec<MinecraftVersionDefinition> = Vec::new();
    let mut i: usize = 0;
    assert(versions@.take(0) =~= Seq::<VersionSyntax>::empty());
    while i < versions.len()
        invariant
            i <= versions@.len(),
            !expansion_overflows(versions@),
            expand_all_spec(versions@.take(i as int)) == Ok::<
                Seq<MinecraftVersionDefinition>,
                VersionExpandError,
            >(expanded@),
        decreases versions@.len() - i,
    {
        let ghost prefix = versions@.take(i + 1);
        assert(prefix.drop_last() =~= versions@.take(i as int));
        assert(prefix.last() == versions@[i as int]);
        proof {
            lemma_overflow_prefix(versions@, i + 1);
        }
        match versions[i] {
            VersionSyntax::Single(version) => {
                let ghost old_expanded = expanded@;
                expanded.push(version);
                assert(expanded@ =~= old_expanded + seq![version]);
                assert(expand_all_spec(prefix) == Ok::<
                    Seq<MinecraftVersionDefinition>,
                    VersionExpandError,
                >(expanded@));
            },
            VersionSyntax::Range(range) => {
                let VersionRange { start, end } = range;
                if start.major != end.major {
                    proof {
                        lemma_error_prefix(versions@, i + 1);
                    }
                    return Err(VersionExpandError::NonMatchingMajorVersion(range));
                }
                if end.le(&start) {
                    proof {
                        lemma_error_prefix(versions@, i + 1);
                    }
                    return Err(VersionExpandError::NonIncreasingRange(range));
                }
                let ghost front = expanded@;
                let ghost full = minor_range(start.major, start.minor, end.minor);
                let mut current = start;
                while current.le(&end)
                    invariant
                        current.major == start.major,
                        start.major == end.major,
                        start.minor <= current.minor <= end.minor + 1,
                        end.minor < 255,
                        full == minor_range(start.major, start.minor, end.minor),
                        expanded@ =~= front + full.take(current.minor - start.minor),
                    decreases end.minor + 1 - current.minor,
                {
                    expanded.push(current);
                    assert(full[current.minor - start.minor] == current);
                    assert(full.take(current.minor - start.minor + 1) =~= full.take(
                        current.minor - start.minor,
                    ).push(current));
                    current.add_assign(1);
                }
                assert(full.take(current.minor - start.minor) =~= full);
                assert(expanded@ =~= front + full);
                assert(prefix.last() == VersionSyntax::Range(range));
                assert(expand_syntax_spec(prefix.last()) == Ok::<
                    Seq<MinecraftVersionDefinition>,
                    VersionExpandError,
                >(full));
                assert(expand_all_spec(prefix) == Ok::<
                    Seq<MinecraftVersionDefinition>,
                    VersionExpandError,
                >(expanded@));
            },
        }
        i = i + 1;
    }
    assert(versions@.take(i as int) =~= versions@);
    let deduped = dedup(&expanded);
    Ok(deduped)
}

/// Removes repeated neighbours, keeping the first of each run.
pub fn dedup(s: &Vec<MinecraftVersionDefinition>) -> (r: Vec<MinecraftVersionDefinition>)
    ensures
        r@ == dedup_spec(s@),
{
    let mut out: Vec<MinecraftVersionDefinition> = Vec::new();
    let mut i: usize = 0;
    assert(s@.take(0) =~= Seq::<MinecraftVersionDefinition>::empty());
    while i < s.len()
        invariant
            i <= s@.len(),
            out@ == dedup_spec(s@.take(i as int)),
            i > 0 ==> out@.len() > 0 && out@.last() == s@[i - 1],
        decreases s@.len() - i,
    {
        let ghost t = s@.take(i + 1);
        assert(t.drop_last() =~= s@.take(i as int));
        if i == 0 {
            out.push(s[i]);
            assert(out@ =~= t);
        } else {
            assert(t[t.len() - 2] == s@[i - 1]);
            let last = out[out.len() - 1];
            if last != s[i] {
                out.push(s[i]);
            }
        }
        i = i + 1;
    }
    assert(s@.take(i as int) =~= s@);
    out
}

/// An error in a prefix of the list is the error of the whole list.
pub proof fn lemma_error_prefix(s: Seq<VersionSyntax>, n: int)
    requires
        0 <= n <= s.len(),
        expand_all_spec(s.take(n)) is Err,
    ensures
        expand_all_spec(s) == expand_all_spec(s.take(n)),
    decreases s.len() - n,
{
    if n < s.len() {
        assert(s.take(n + 1).drop_last() =~= s.take(n));
        lemma_error_prefix(s, n + 1);
    } else {
        assert(s.take(n) =~= s);
    }
}

/// A list that does not step past 255 has no prefix that does.
pub proof fn lemma_overflow_prefix(s: Seq<VersionSyntax>, n: int)
    requires
        0 <= n <= s.len(),
        !expansion_overflows(s),
    ensures
        !expansion_overflows(s.take(n)),
    decreases s.len() - n,
{
    if n < s.len() {
        assert(s.take(n + 1).drop_last() =~= s.take(n));
        lemma_overflow_prefix(s, n + 1);
    } else {
        assert(s.take(n) =~= s);
    }
}

/// No two neighbours of a deduplicated sequence are equal.
pub proof fn lemma_dedup_no_adjacent_repeats<T>(s: Seq<T>)
    ensures
        forall|i: int|
            0 <= i < dedup_spec(s).len() - 1 ==> #[trigger] dedup_spec(s)[i] != dedup_spec(s)[i + 1],
        s.len() > 0 ==> dedup_spec(s).len() > 0 && dedup_spec(s).last() == s.last(),
    decreases s.len(),
{
    if s.len() > 1 {
        lemma_dedup_no_adjacent_repeats(s.drop_last());
        assert(s.drop_last().last() == s[s.len() - 2]);
    }
}

/// A valid range expands to every minor release from its start to its
/// end, both included, in order and each once: `end.minor - start.minor +
/// 1` releases, the first being the start and the last the end, and
/// removing repeats leaves them all.
pub proof fn lemma_range_expands_inclusive(range: VersionRange)
    requires
        range.start.major == range.end.major,
        range.start.minor < range.end.minor,
    ensures
        expand_syntax_spec(VersionSyntax::Range(range)) is Ok,
        ({
            let s = expand_syntax_spec(VersionSyntax::Range(range))->Ok_0;
            &&& s.len() == range.end.minor - range.start.minor + 1
            &&& s[0] == range.start
            &&& s.last() == range.end
            &&& forall|i: int|
                0 <= i < s.len() ==> (#[trigger] s[i]).major == range.start.major && s[i].minor
                    == range.start.minor + i
            &&& dedup_spec(s) == s
        }),
{
    let s = expand_syntax_spec(VersionSyntax::Range(range))->Ok_0;
    assert(s[0] == range.start);
    assert(s.last() == range.end);
    assert forall|i: int| 0 <= i < s.len() - 1 implies #[trigger] s[i] != s[i + 1] by {
        assert(s[i].minor + 1 == s[i + 1].minor);
    }
    lemma_dedup_keeps_distinct_neighbours(s);
}

/// A sequence without equal neighbours is left as it is by removing
/// repeated neighbours.
pub proof fn lemma_dedup_keeps_distinct_neighbours<T>(s: Seq<T>)
    requires
        forall|i: int| 0 <= i < s.len() - 1 ==> #[trigger] s[i] != s[i + 1],
    ensures
        dedup_spec(s) == s,
    decreases s.len(),
{
    if s.len() > 1 {
        let f = s.drop_last();
        assert forall|i: int| 0 <= i < f.len() - 1 implies #[trigger] f[i] != f[i + 1] by {
            assert(f[i] == s[i] && f[i + 1] == s[i + 1]);
        }
        lemma_dedup_keeps_distinct_neighbours(f);
        assert(s[s.len() - 2] != s.last());
        assert(f.push(s.last()) =~= s);
    }
}

} // verus!
