//! The pack formats of data packs and of resource packs, each with the
//! Minecraft releases it covers, and lookups by release and by number.
use vstd::prelude::*;
use crate::mc_version::{version_le, version_lt, MinecraftVersion, PackFormat};
use crate::data::adapters::project::{lemma_for_version_in_table, lemma_tables_well_formed, lemma_with_id_at};

verus! {

/// The releases `1.<major>.lo` to `1.<major>.hi`, in order.
pub open spec fn release_range(major: u8, lo: u8, hi: u8) -> Seq<MinecraftVersion> {
    Seq::new((hi - lo + 1) as nat, |i: int| MinecraftVersion { major, minor: (lo + i) as u8 })
}

/// A format number with the releases it covers.
pub type FormatEntry = (u8, Seq<MinecraftVersion>);

/// The data pack formats:
/// 4: 1.13–1.13.2 and 1.14–1.14.4; 5: 1.15–1.15.2 and 1.16–1.16.5;
/// 7: 1.17–1.17.1; 8: 1.18–1.18.1; 9: 1.18.2; 10: 1.19–1.19.3; 12: 1.19.4;
/// 15: 1.20–1.20.1; 18: 1.20.2; 26: 1.20.3–1.20.4; 41: 1.20.5–1.20.6;
/// 48: 1.21–1.21.1; 57: 1.21.2–1.21.3; 61: 1.21.4; 71: 1.21.5; 80: 1.21.6;
/// 81: 1.21.7.
pub open spec fn data_format_table() -> Seq<FormatEntry> {
    seq![
        (4u8, release_range(13, 0, 2) + release_range(14, 0, 4)),
        (5u8, release_range(15, 0, 2) + release_range(16, 0, 5)),
        (7u8, release_range(17, 0, 1)),
        (8u8, release_range(18, 0, 1)),
        (9u8, release_range(18, 2, 2)),
        (10u8, release_range(19, 0, 3)),
        (12u8, release_range(19, 4, 4)),
        (15u8, release_range(20, 0, 1)),
        (18u8, release_range(20, 2, 2)),
        (26u8, release_range(20, 3, 4)),
        (41u8, release_range(20, 5, 6)),
        (48u8, release_range(21, 0, 1)),
        (57u8, release_range(21, 2, 3)),
        (61u8, release_range(21, 4, 4)),
        (71u8, release_range(21, 5, 5)),
        (80u8, release_range(21, 6, 6)),
        (81u8, release_range(21, 7, 7)),
    ]
}

/// The resource pack formats:
/// 4, 5 and 7 as for data packs; 8: 1.18–1.18.2; 9: 1.19–1.19.2;
/// 12: 1.19.3; 13: 1.19.4; 15: 1.20–1.20.1; 18: 1.20.2; 22: 1.20.3–1.20.4;
/// 32: 1.20.5–1.20.6; 34: 1.21–1.21.1; 42: 1.21.2–1.21.3; 46: 1.21.4;
/// 55: 1.21.5; 63: 1.21.6; 64: 1.21.7.
pub open spec fn resource_format_table() -> Seq<FormatEntry> {
    seq![
        (4u8, release_range(13, 0, 2) + release_range(14, 0, 4)),
        (5u8, release_range(15, 0, 2) + release_range(16, 0, 5)),
        (7u8, release_range(17, 0, 1)),
        (8u8, release_range(18, 0, 2)),
        (9u8, release_range(19, 0, 2)),
        (12u8, release_range(19, 3, 3)),
        (13u8, release_range(19, 4, 4)),
        (15u8, release_range(20, 0, 1)),
        (18u8, release_range(20, 2, 2)),
        (22u8, release_range(20, 3, 4)),
        (32u8, release_range(20, 5, 6)),
        (34u8, release_range(21, 0, 1)),
        (42u8, release_range(21, 2, 3)),
        (46u8, release_range(21, 4, 4)),
        (55u8, release_range(21, 5, 5)),
        (63u8, release_range(21, 6, 6)),
        (64u8, release_range(21, 7, 7)),
    ]
}

/// The entry of a pack format.
pub open spec fn entry_of(format: PackFormat) -> FormatEntry {
    (format.format_id, format.versions@)
}

/// The first entry of the table that covers `version`.
pub open spec fn format_for_version(table: Seq<FormatEntry>, version: MinecraftVersion) -> Option<FormatEntry>
    decreases table.len(),
{
    if table.len() == 0 {
        None
    } else if table[0].1.contains(version) {
        Some(table[0])
    } else {
        format_for_version(table.drop_first(), version)
    }
}

/// The first entry of the table with number `id`.
pub open spec fn format_with_id(table: Seq<FormatEntry>, id: u8) -> Option<FormatEntry>
    decreases table.len(),
{
    if table.len() == 0 {
        None
    } else if table[0].0 == id {
        Some(table[0])
    } else {
        format_with_id(table.drop_first(), id)
    }
}

/// A release that some data pack format covers.
pub open spec fn is_data_version(version: MinecraftVersion) -> bool {
    format_for_version(data_format_table(), version) is Some
}

/// A release that some resource pack format covers.
pub open spec fn is_resource_version(version: MinecraftVersion) -> bool {
    format_for_version(resource_format_table(), version) is Some
}

pub open spec fn formats_match(formats: Seq<PackFormat>, table: Seq<FormatEntry>) -> bool {
    formats.len() == table.len() && forall|i: int|
        0 <= i < formats.len() ==> entry_of(#[trigger] formats[i]) == table[i]
}

/// The newest release the editor knows.
pub open spec fn latest_version() -> MinecraftVersion {
    MinecraftVersion { major: 21, minor: 7 }
}

/// The newest release the editor knows: 1.21.7.
pub fn latest() -> (r: MinecraftVersion)
    ensures
        r == latest_version(),
{
    MinecraftVersion::new(21, 7)
}

fn push_range(versions: &mut Vec<MinecraftVersion>, major: u8, lo: u8, hi: u8)
    requires
        lo <= hi,
    ensures
        final(versions)@ == old(versions)@ + release_range(major, lo, hi),
{
    let ghost start = versions@;
    let mut minor = lo;
    loop
        invariant_except_break
            lo <= minor <= hi,
            versions@ =~= start + release_range(major, lo, hi).take(minor - lo),
        ensures
            versions@ =~= start + release_range(major, lo, hi),
        decreases hi - minor,
    {
        versions.push(MinecraftVersion::new(major, minor));
        assert(release_range(major, lo, hi).take(minor - lo + 1) =~= release_range(major, lo, hi).take(
            minor - lo,
        ).push(MinecraftVersion { major, minor }));
        if minor == hi {
            assert(release_range(major, lo, hi).take(minor - lo + 1) =~= release_range(major, lo, hi));
            break ;
        }
        minor = minor + 1;
    }
}

fn range_format(id: u8, major: u8, lo: u8, hi: u8) -> (r: PackFormat)
    requires
        lo <= hi,
    ensures
        entry_of(r) == (id, release_range(major, lo, hi)),
{
    let mut versions = Vec::new();
    push_range(&mut versions, major, lo, hi);
    assert(versions@ =~= release_range(major, lo, hi));
    PackFormat::new(id, versions)
}

fn two_range_format(id: u8, major1: u8, hi1: u8, major2: u8, hi2: u8) -> (r: PackFormat)
    ensures
        entry_of(r) == (id, release_range(major1, 0, hi1) + release_range(major2, 0, hi2)),
{
    let mut versions = Vec::new();
    push_range(&mut versions, major1, 0, hi1);
    push_range(&mut versions, major2, 0, hi2);
    assert(versions@ =~= release_range(major1, 0, hi1) + release_range(major2, 0, hi2));
    PackFormat::new(id, versions)
}

/// Every data pack format, oldest first.
pub fn data_formats() -> (r: Vec<PackFormat>)
    ensures
        formats_match(r@, data_format_table()),
{
    let mut r = Vec::new();
    r.push(two_range_format(4, 13, 2, 14, 4));
    r.push(two_range_format(5, 15, 2, 16, 5));
    r.push(range_format(7, 17, 0, 1));
    r.push(range_format(8, 18, 0, 1));
    r.push(range_format(9, 18, 2, 2));
    r.push(range_format(10, 19, 0, 3));
    r.push(range_format(12, 19, 4, 4));
    r.push(range_format(15, 20, 0, 1));
    r.push(range_format(18, 20, 2, 2));
    r.push(range_format(26, 20, 3, 4));
    r.push(range_format(41, 20, 5, 6));
    r.push(range_format(48, 21, 0, 1));
    r.push(range_format(57, 21, 2, 3));
    r.push(range_format(61, 21, 4, 4));
    r.push(range_format(71, 21, 5, 5));
    r.push(range_format(80, 21, 6, 6));
    r.push(range_format(81, 21, 7, 7));
    assert(r@.map_values(|f: PackFormat| entry_of(f)) =~= data_format_table());
    proof {
        assert forall|i: int| 0 <= i < r@.len() implies entry_of(#[trigger] r@[i])
            == data_format_table()[i] by {
            assert(r@.map_values(|f: PackFormat| entry_of(f))[i] == entry_of(r@[i]));
        }
    }
    r
}

/// Every resource pack format, oldest first.
pub fn resource_formats() -> (r: Vec<PackFormat>)
    ensures
        formats_match(r@, resource_format_table()),
{
    let mut r = Vec::new();
    r.push(two_range_format(4, 13, 2, 14, 4));
    r.push(two_range_format(5, 15, 2, 16, 5));
    r.push(range_format(7, 17, 0, 1));
    r.push(range_format(8, 18, 0, 2));
    r.push(range_format(9, 19, 0, 2));
    r.push(range_format(12, 19, 3, 3));
    r.push(range_format(13, 19, 4, 4));
    r.push(range_format(15, 20, 0, 1));
    r.push(range_format(18, 20, 2, 2));
    r.push(range_format(22, 20, 3, 4));
    r.push(range_format(32, 20, 5, 6));
    r.push(range_format(34, 21, 0, 1));
    r.push(range_format(42, 21, 2, 3));
    r.push(range_format(46, 21, 4, 4));
    r.push(range_format(55, 21, 5, 5));
    r.push(range_format(63, 21, 6, 6));
    r.push(range_format(64, 21, 7, 7));
    assert(r@.map_values(|f: PackFormat| entry_of(f)) =~= resource_format_table());
    proof {
        assert forall|i: int| 0 <= i < r@.len() implies entry_of(#[trigger] r@[i])
            == resource_format_table()[i] by {
            assert(r@.map_values(|f: PackFormat| entry_of(f))[i] == entry_of(r@[i]));
        }
    }
    r
}

/// The first of `formats` that covers `version`.
fn find_for_version(formats: Vec<PackFormat>, version: MinecraftVersion, Ghost(table): Ghost<Seq<FormatEntry>>) -> (r: Option<PackFormat>)
    requires
        formats_match(formats@, table),
    ensures
        match r {
            Some(f) => format_for_version(table, version) == Some(entry_of(f)),
            None => format_for_version(table, version) is None,
        },
{
    let mut formats = formats;
    let n = formats.len();
    let mut i: usize = 0;
    assert(table.skip(0) =~= table);
    while i < n
        invariant
            i <= n,
            n == formats@.len(),
            formats_match(formats@, table),
            format_for_version(table, version) == format_for_version(table.skip(i as int), version),
        decreases n - i,
    {
        let ghost rest = table.skip(i as int);
        assert(rest.drop_first() =~= table.skip(i + 1));
        assert(rest[0] == table[i as int]);
        assert(entry_of(formats@[i as int]) == table[i as int]);
        if formats[i].contains(version) {
            let f = formats.swap_remove(i);
            return Some(f);
        }
        i = i + 1;
    }
    assert(table.skip(i as int) =~= Seq::<FormatEntry>::empty());
    None
}

/// The first of `formats` with number `id`.
fn find_with_id(formats: Vec<PackFormat>, id: u8, Ghost(table): Ghost<Seq<FormatEntry>>) -> (r: Option<PackFormat>)
    requires
        formats_match(formats@, table),
    ensures
        match r {
            Some(f) => format_with_id(table, id) == Some(entry_of(f)),
            None => format_with_id(table, id) is None,
        },
{
    let mut formats = formats;
    let n = formats.len();
    let mut i: usize = 0;
    assert(table.skip(0) =~= table);
    while i < n
        invariant
            i <= n,
            n == formats@.len(),
            formats_match(formats@, table),
            format_with_id(table, id) == format_with_id(table.skip(i as int), id),
        decreases n - i,
    {
        let ghost rest = table.skip(i as int);
        assert(rest.drop_first() =~= table.skip(i + 1));
        assert(rest[0] == table[i as int]);
        assert(entry_of(formats@[i as int]) == table[i as int]);
        if formats[i].format_id == id {
            let f = formats.swap_remove(i);
            return Some(f);
        }
        i = i + 1;
    }
    assert(table.skip(i as int) =~= Seq::<FormatEntry>::empty());
    None
}

/// The data pack format that covers `version`.
pub fn get_datapack_format_for_version(version: MinecraftVersion) -> (r: PackFormat)
    requires
        is_data_version(version),
    ensures
        format_for_version(data_format_table(), version) == Some(entry_of(r)),
        Some(r.format_id) == published_data_format(version),
{
    proof {
        lemma_published_data_format_table(version);
    }
    match find_for_version(data_formats(), version, Ghost(data_format_table())) {
        Some(f) => f,
        None => {
            assert(false);
            PackFormat::new(0, Vec::new())
        },
    }
}

/// The resource pack format that covers `version`.
pub fn get_resourcepack_format_for_version(version: MinecraftVersion) -> (r: PackFormat)
    requires
        is_resource_version(version),
    ensures
        format_for_version(resource_format_table(), version) == Some(entry_of(r)),
        Some(r.format_id) == published_resource_format(version),
{
    proof {
        lemma_published_resource_format_table(version);
    }
    match find_for_version(resource_formats(), version, Ghost(resource_format_table())) {
        Some(f) => f,
        None => {
            assert(false);
            PackFormat::new(0, Vec::new())
        },
    }
}

/// The data pack format numbered `id`, if there is one.
pub fn data_format_by_id(id: u8) -> (r: Option<PackFormat>)
    ensures
        match r {
            Some(f) => format_with_id(data_format_table(), id) == Some(entry_of(f)),
            None => format_with_id(data_format_table(), id) is None,
        },
        forall|v: MinecraftVersion|
            #[trigger] published_data_format(v) == Some(id) ==> (r matches Some(f) && f.versions@.contains(v)),
{
    let r = find_with_id(data_formats(), id, Ghost(data_format_table()));
    proof {
        assert forall|v: MinecraftVersion| #[trigger] published_data_format(v) == Some(id) implies (r matches Some(
            f,
        ) && f.versions@.contains(v)) by {
            lemma_published_data_format_table(v);
        }
    }
    r
}

/// The resource pack format numbered `id`, if there is one.
pub fn resource_format_by_id(id: u8) -> (r: Option<PackFormat>)
    ensures
        match r {
            Some(f) => format_with_id(resource_format_table(), id) == Some(entry_of(f)),
            None => format_with_id(resource_format_table(), id) is None,
        },
        forall|v: MinecraftVersion|
            #[trigger] published_resource_format(v) == Some(id) ==> (r matches Some(f) && f.versions@.contains(v)),
{
    let r = find_with_id(resource_formats(), id, Ghost(resource_format_table()));
    proof {
        assert forall|v: MinecraftVersion| #[trigger] published_resource_format(v) == Some(id) implies (r matches Some(
            f,
        ) && f.versions@.contains(v)) by {
            lemma_published_resource_format_table(v);
        }
    }
    r
}

/// The data pack format of the newest release.
pub fn latest_data_format() -> (r: PackFormat)
    ensures
        entry_of(r) == (81u8, release_range(21, 7, 7)),
{
    proof {
        lemma_latest_formats();
    }
    get_datapack_format_for_version(latest())
}

/// The resource pack format of the newest release.
pub fn latest_resource_format() -> (r: PackFormat)
    ensures
        entry_of(r) == (64u8, release_range(21, 7, 7)),
{
    proof {
        lemma_latest_formats();
    }
    get_resourcepack_format_for_version(latest())
}

/// The newest release has a data pack format (81) and a resource pack
/// format (64).
pub proof fn lemma_latest_formats()
    ensures
        format_for_version(data_format_table(), latest_version()) == Some(
            (81u8, release_range(21, 7, 7)),
        ),
        format_for_version(resource_format_table(), latest_version()) == Some(
            (64u8, release_range(21, 7, 7)),
        ),
{
    let v = latest_version();
    let d = data_format_table();
    let r = resource_format_table();
    assert forall|k: int| 0 <= k < 16 implies !(#[trigger] d[k]).1.contains(v) by {
        if d[k].1.contains(v) {
            let j = choose|j: int| 0 <= j < d[k].1.len() && d[k].1[j] == v;
        }
    }
    assert forall|k: int| 0 <= k < 16 implies !(#[trigger] r[k]).1.contains(v) by {
        if r[k].1.contains(v) {
            let j = choose|j: int| 0 <= j < r[k].1.len() && r[k].1[j] == v;
        }
    }
    assert(d[16].1[0] == v);
    assert(r[16].1[0] == v);
    lemma_first_entry_at(d, v, 16);
    lemma_first_entry_at(r, v, 16);
}

/// When entry `k` is the first to cover `version`, the lookup finds it.
pub proof fn lemma_first_entry_at(table: Seq<FormatEntry>, version: MinecraftVersion, k: int)
    requires
        0 <= k < table.len(),
        table[k].1.contains(version),
        forall|j: int| 0 <= j < k ==> !(#[trigger] table[j]).1.contains(version),
    ensures
        format_for_version(table, version) == Some(table[k]),
    decreases k,
{
    if k > 0 {
        assert(!table[0].1.contains(version));
        let rest = table.drop_first();
        assert forall|j: int| 0 <= j < k - 1 implies !(#[trigger] rest[j]).1.contains(version) by {
            assert(rest[j] == table[j + 1]);
        }
        lemma_first_entry_at(rest, version, k - 1);
    }
}


/// Each entry covers releases from its first to its last, and every release
/// of an entry is older than every release of a later entry.
pub open spec fn entries_ordered(table: Seq<FormatEntry>) -> bool {
    &&& forall|k: int| 0 <= k < table.len() ==> (#[trigger] table[k]).1.len() > 0
    &&& forall|k: int, x: MinecraftVersion|
        0 <= k < table.len() && #[trigger] table[k].1.contains(x) ==> version_le(table[k].1[0], x)
            && version_le(x, table[k].1.last())
    &&& forall|j: int, k: int|
        0 <= j < k < table.len() ==> version_lt((#[trigger] table[j]).1.last(), (#[trigger] table[k]).1[0])
}

/// Both tables list their formats from the oldest releases to the newest,
/// without overlap.
pub proof fn lemma_tables_ordered()
    ensures
        entries_ordered(data_format_table()),
        entries_ordered(resource_format_table()),
{
    let d = data_format_table();
    let r = resource_format_table();
    assert forall|k: int, x: MinecraftVersion|
        0 <= k < d.len() && #[trigger] d[k].1.contains(x) implies version_le(d[k].1[0], x)
            && version_le(x, d[k].1.last()) by {
        let i = choose|i: int| 0 <= i < d[k].1.len() && d[k].1[i] == x;
    }
    assert forall|k: int, x: MinecraftVersion|
        0 <= k < r.len() && #[trigger] r[k].1.contains(x) implies version_le(r[k].1[0], x)
            && version_le(x, r[k].1.last()) by {
        let i = choose|i: int| 0 <= i < r[k].1.len() && r[k].1[i] == x;
    }
}

/// In an ordered table, the lookup of a release finds the entry that
/// covers it.
pub proof fn lemma_entry_of_release(table: Seq<FormatEntry>, k: int, x: MinecraftVersion)
    requires
        entries_ordered(table),
        0 <= k < table.len(),
        table[k].1.contains(x),
    ensures
        format_for_version(table, x) == Some(table[k]),
{
    assert forall|j: int| 0 <= j < k implies !(#[trigger] table[j]).1.contains(x) by {
        if table[j].1.contains(x) {
            assert(version_le(x, table[j].1.last()));
            assert(version_lt(table[j].1.last(), table[k].1[0]));
            assert(version_le(table[k].1[0], x));
        }
    }
    lemma_first_entry_at(table, x, k);
}

/// The published data pack format of each release (1.<major>.<minor>),
/// written out release range by release range.
pub open spec fn published_data_format(v: MinecraftVersion) -> Option<u8> {
    if v.major == 13 && v.minor <= 2 {
        Some(4u8)
    } else if v.major == 14 && v.minor <= 4 {
        Some(4u8)
    } else if v.major == 15 && v.minor <= 2 {
        Some(5u8)
    } else if v.major == 16 && v.minor <= 5 {
        Some(5u8)
    } else if v.major == 17 && v.minor <= 1 {
        Some(7u8)
    } else if v.major == 18 && v.minor <= 1 {
        Some(8u8)
    } else if v.major == 18 && 2 <= v.minor && v.minor <= 2 {
        Some(9u8)
    } else if v.major == 19 && v.minor <= 3 {
        Some(10u8)
    } else if v.major == 19 && 4 <= v.minor && v.minor <= 4 {
        Some(12u8)
    } else if v.major == 20 && v.minor <= 1 {
        Some(15u8)
    } else if v.major == 20 && 2 <= v.minor && v.minor <= 2 {
        Some(18u8)
    } else if v.major == 20 && 3 <= v.minor && v.minor <= 4 {
        Some(26u8)
    } else if v.major == 20 && 5 <= v.minor && v.minor <= 6 {
        Some(41u8)
    } else if v.major == 21 && v.minor <= 1 {
        Some(48u8)
    } else if v.major == 21 && 2 <= v.minor && v.minor <= 3 {
        Some(57u8)
    } else if v.major == 21 && 4 <= v.minor && v.minor <= 4 {
        Some(61u8)
    } else if v.major == 21 && 5 <= v.minor && v.minor <= 5 {
        Some(71u8)
    } else if v.major == 21 && 6 <= v.minor && v.minor <= 6 {
        Some(80u8)
    } else if v.major == 21 && 7 <= v.minor && v.minor <= 7 {
        Some(81u8)
    } else {
        None
    }
}

/// The data pack format table gives each release its published format:
/// the format found for a release is the one `published_data_format` names, that
/// format's number finds the same entry, and a release with no published
/// format has none in the table.
pub proof fn lemma_published_data_format_table(v: MinecraftVersion)
    ensures
        match published_data_format(v) {
            Some(n) => format_for_version(data_format_table(), v) matches Some(e) && e.0 == n && e.1.contains(v)
                && format_with_id(data_format_table(), n) == Some(e),
            None => format_for_version(data_format_table(), v) is None,
        },
{
    let t = data_format_table();
    lemma_tables_ordered();
    lemma_tables_well_formed();
    assert forall|k: int, x: MinecraftVersion| 0 <= k < t.len() && #[trigger] t[k].1.contains(x) implies published_data_format(x) == Some(t[k].0) by {
        let i = choose|i: int| 0 <= i < t[k].1.len() && t[k].1[i] == x;
    }
    if v.major == 13 && v.minor <= 2 {
        assert(t[0].1[v.minor as int] == v);
        lemma_entry_of_release(t, 0, v);
        lemma_with_id_at(t, 0);
    } else if v.major == 14 && v.minor <= 4 {
        assert(t[0].1[3 + v.minor] == v);
        lemma_entry_of_release(t, 0, v);
        lemma_with_id_at(t, 0);
    } else if v.major == 15 && v.minor <= 2 {
        assert(t[1].1[v.minor as int] == v);
        lemma_entry_of_release(t, 1, v);
        lemma_with_id_at(t, 1);
    } else if v.major == 16 && v.minor <= 5 {
        assert(t[1].1[3 + v.minor] == v);
        lemma_entry_of_release(t, 1, v);
        lemma_with_id_at(t, 1);
    } else if v.major == 17 && v.minor <= 1 {
        assert(t[2].1[v.minor as int] == v);
        lemma_entry_of_release(t, 2, v);
        lemma_with_id_at(t, 2);
    } else if v.major == 18 && v.minor <= 1 {
        assert(t[3].1[v.minor as int] == v);
        lemma_entry_of_release(t, 3, v);
        lemma_with_id_at(t, 3);
    } else if v.major == 18 && 2 <= v.minor && v.minor <= 2 {
        assert(t[4].1[v.minor - 2] == v);
        lemma_entry_of_release(t, 4, v);
        lemma_with_id_at(t, 4);
    } else if v.major == 19 && v.minor <= 3 {
        assert(t[5].1[v.minor as int] == v);
        lemma_entry_of_release(t, 5, v);
        lemma_with_id_at(t, 5);
    } else if v.major == 19 && 4 <= v.minor && v.minor <= 4 {
        assert(t[6].1[v.minor - 4] == v);
        lemma_entry_of_release(t, 6, v);
        lemma_with_id_at(t, 6);
    } else if v.major == 20 && v.minor <= 1 {
        assert(t[7].1[v.minor as int] == v);
        lemma_entry_of_release(t, 7, v);
        lemma_with_id_at(t, 7);
    } else if v.major == 20 && 2 <= v.minor && v.minor <= 2 {
        assert(t[8].1[v.minor - 2] == v);
        lemma_entry_of_release(t, 8, v);
        lemma_with_id_at(t, 8);
    } else if v.major == 20 && 3 <= v.minor && v.minor <= 4 {
        assert(t[9].1[v.minor - 3] == v);
        lemma_entry_of_release(t, 9, v);
        lemma_with_id_at(t, 9);
    } else if v.major == 20 && 5 <= v.minor && v.minor <= 6 {
        assert(t[10].1[v.minor - 5] == v);
        lemma_entry_of_release(t, 10, v);
        lemma_with_id_at(t, 10);
    } else if v.major == 21 && v.minor <= 1 {
        assert(t[11].1[v.minor as int] == v);
        lemma_entry_of_release(t, 11, v);
        lemma_with_id_at(t, 11);
    } else if v.major == 21 && 2 <= v.minor && v.minor <= 3 {
        assert(t[12].1[v.minor - 2] == v);
        lemma_entry_of_release(t, 12, v);
        lemma_with_id_at(t, 12);
    } else if v.major == 21 && 4 <= v.minor && v.minor <= 4 {
        assert(t[13].1[v.minor - 4] == v);
        lemma_entry_of_release(t, 13, v);
        lemma_with_id_at(t, 13);
    } else if v.major == 21 && 5 <= v.minor && v.minor <= 5 {
        assert(t[14].1[v.minor - 5] == v);
        lemma_entry_of_release(t, 14, v);
        lemma_with_id_at(t, 14);
    } else if v.major == 21 && 6 <= v.minor && v.minor <= 6 {
        assert(t[15].1[v.minor - 6] == v);
        lemma_entry_of_release(t, 15, v);
        lemma_with_id_at(t, 15);
    } else if v.major == 21 && 7 <= v.minor && v.minor <= 7 {
        assert(t[16].1[v.minor - 7] == v);
        lemma_entry_of_release(t, 16, v);
        lemma_with_id_at(t, 16);
    } else {
        if format_for_version(t, v) is Some {
            lemma_for_version_in_table(t, v);
        }
    }
}

/// The published resource pack format of each release (1.<major>.<minor>),
/// written out release range by release range.
pub open spec fn published_resource_format(v: MinecraftVersion) -> Option<u8> {
    if v.major == 13 && v.minor <= 2 {
        Some(4u8)
    } else if v.major == 14 && v.minor <= 4 {
        Some(4u8)
    } else if v.major == 15 && v.minor <= 2 {
        Some(5u8)
    } else if v.major == 16 && v.minor <= 5 {
        Some(5u8)
    } else if v.major == 17 && v.minor <= 1 {
        Some(7u8)
    } else if v.major == 18 && v.minor <= 2 {
        Some(8u8)
    } else if v.major == 19 && v.minor <= 2 {
        Some(9u8)
    } else if v.major == 19 && 3 <= v.minor && v.minor <= 3 {
        Some(12u8)
    } else if v.major == 19 && 4 <= v.minor && v.minor <= 4 {
        Some(13u8)
    } else if v.major == 20 && v.minor <= 1 {
        Some(15u8)
    } else if v.major == 20 && 2 <= v.minor && v.minor <= 2 {
        Some(18u8)
    } else if v.major == 20 && 3 <= v.minor && v.minor <= 4 {
        Some(22u8)
    } else if v.major == 20 && 5 <= v.minor && v.minor <= 6 {
        Some(32u8)
    } else if v.major == 21 && v.minor <= 1 {
        Some(34u8)
    } else if v.major == 21 && 2 <= v.minor && v.minor <= 3 {
        Some(42u8)
    } else if v.major == 21 && 4 <= v.minor && v.minor <= 4 {
        Some(46u8)
    } else if v.major == 21 && 5 <= v.minor && v.minor <= 5 {
        Some(55u8)
    } else if v.major == 21 && 6 <= v.minor && v.minor <= 6 {
        Some(63u8)
    } else if v.major == 21 && 7 <= v.minor && v.minor <= 7 {
        Some(64u8)
    } else {
        None
    }
}

/// The resource pack format table gives each release its published format:
/// the format found for a release is the one `published_resource_format` names, that
/// format's number finds the same entry, and a release with no published
/// format has none in the table.
pub proof fn lemma_published_resource_format_table(v: MinecraftVersion)
    ensures
        match published_resource_format(v) {
            Some(n) => format_for_version(resource_format_table(), v) matches Some(e) && e.0 == n && e.1.contains(v)
                && format_with_id(resource_format_table(), n) == Some(e),
            None => format_for_version(resource_format_table(), v) is None,
        },
{
    let t = resource_format_table();
    lemma_tables_ordered();
    lemma_tables_well_formed();
    assert forall|k: int, x: MinecraftVersion| 0 <= k < t.len() && #[trigger] t[k].1.contains(x) implies published_resource_format(x) == Some(t[k].0) by {
        let i = choose|i: int| 0 <= i < t[k].1.len() && t[k].1[i] == x;
    }
    if v.major == 13 && v.minor <= 2 {
        assert(t[0].1[v.minor as int] == v);
        lemma_entry_of_release(t, 0, v);
        lemma_with_id_at(t, 0);
    } else if v.major == 14 && v.minor <= 4 {
        assert(t[0].1[3 + v.minor] == v);
        lemma_entry_of_release(t, 0, v);
        lemma_with_id_at(t, 0);
    } else if v.major == 15 && v.minor <= 2 {
        assert(t[1].1[v.minor as int] == v);
        lemma_entry_of_release(t, 1, v);
        lemma_with_id_at(t, 1);
    } else if v.major == 16 && v.minor <= 5 {
        assert(t[1].1[3 + v.minor] == v);
        lemma_entry_of_release(t, 1, v);
        lemma_with_id_at(t, 1);
    } else if v.major == 17 && v.minor <= 1 {
        assert(t[2].1[v.minor as int] == v);
        lemma_entry_of_release(t, 2, v);
        lemma_with_id_at(t, 2);
    } else if v.major == 18 && v.minor <= 2 {
        assert(t[3].1[v.minor as int] == v);
        lemma_entry_of_release(t, 3, v);
        lemma_with_id_at(t, 3);
    } else if v.major == 19 && v.minor <= 2 {
        assert(t[4].1[v.minor as int] == v);
        lemma_entry_of_release(t, 4, v);
        lemma_with_id_at(t, 4);
    } else if v.major == 19 && 3 <= v.minor && v.minor <= 3 {
        assert(t[5].1[v.minor - 3] == v);
        lemma_entry_of_release(t, 5, v);
        lemma_with_id_at(t, 5);
    } else if v.major == 19 && 4 <= v.minor && v.minor <= 4 {
        assert(t[6].1[v.minor - 4] == v);
        lemma_entry_of_release(t, 6, v);
        lemma_with_id_at(t, 6);
    } else if v.major == 20 && v.minor <= 1 {
        assert(t[7].1[v.minor as int] == v);
        lemma_entry_of_release(t, 7, v);
        lemma_with_id_at(t, 7);
    } else if v.major == 20 && 2 <= v.minor && v.minor <= 2 {
        assert(t[8].1[v.minor - 2] == v);
        lemma_entry_of_release(t, 8, v);
        lemma_with_id_at(t, 8);
    } else if v.major == 20 && 3 <= v.minor && v.minor <= 4 {
        assert(t[9].1[v.minor - 3] == v);
        lemma_entry_of_release(t, 9, v);
        lemma_with_id_at(t, 9);
    } else if v.major == 20 && 5 <= v.minor && v.minor <= 6 {
        assert(t[10].1[v.minor - 5] == v);
        lemma_entry_of_release(t, 10, v);
        lemma_with_id_at(t, 10);
    } else if v.major == 21 && v.minor <= 1 {
        assert(t[11].1[v.minor as int] == v);
        lemma_entry_of_release(t, 11, v);
        lemma_with_id_at(t, 11);
    } else if v.major == 21 && 2 <= v.minor && v.minor <= 3 {
        assert(t[12].1[v.minor - 2] == v);
        lemma_entry_of_release(t, 12, v);
        lemma_with_id_at(t, 12);
    } else if v.major == 21 && 4 <= v.minor && v.minor <= 4 {
        assert(t[13].1[v.minor - 4] == v);
        lemma_entry_of_release(t, 13, v);
        lemma_with_id_at(t, 13);
    } else if v.major == 21 && 5 <= v.minor && v.minor <= 5 {
        assert(t[14].1[v.minor - 5] == v);
        lemma_entry_of_release(t, 14, v);
        lemma_with_id_at(t, 14);
    } else if v.major == 21 && 6 <= v.minor && v.minor <= 6 {
        assert(t[15].1[v.minor - 6] == v);
        lemma_entry_of_release(t, 15, v);
        lemma_with_id_at(t, 15);
    } else if v.major == 21 && 7 <= v.minor && v.minor <= 7 {
        assert(t[16].1[v.minor - 7] == v);
        lemma_entry_of_release(t, 16, v);
        lemma_with_id_at(t, 16);
    } else {
        if format_for_version(t, v) is Some {
            lemma_for_version_in_table(t, v);
        }
    }
}

} // verus!
