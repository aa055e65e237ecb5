//! Between packs read from archives and projects: checking the kinds of the
//! packs, reading their metadata, and finding the release the project
//! targets from the pack formats.
use vstd::prelude::*;
use crate::data::adapters::AdapterError;
use crate::data::adapters::pack_info::{
    deserialize_pack_info_spec, lemma_pack_info_round_trip, serialize_pack_info_spec, text_of,
    PackInfoAdapter, PackInfoSerializationInput, PackInfoDeserializationError,
};
use crate::data::domain::pack_info::{PackDescription, PackInfo};
use crate::data::domain::project::{
    made_from, uuid_version, PackInfoProjectData, Project as DomainProject, ProjectSettings,
    ProjectVersion,
};
use crate::data::domain::versions::{
    data_format_by_id, data_format_table, entry_of, format_for_version, format_with_id,
    entries_ordered, get_datapack_format_for_version, get_resourcepack_format_for_version,
    is_data_version, is_resource_version, lemma_entry_of_release, lemma_tables_ordered,
    resource_format_by_id, resource_format_table, FormatEntry,
};
use crate::data::serialization::project::{Project as SerializedProject, SerializedProjectType};
use crate::mc_version::{version_le, version_lt, MinecraftVersion, PackFormat};
use crate::repositories::adapter_repo::{AdapterFailure, AdapterRepoError};
use crate::text::{dec_u8, push_dec_u8};

verus! {

/// Converts projects.
pub struct ProjectAdapter;

/// The packs of a project as read from, or written to, archives.
#[derive(Debug, Clone, PartialEq, Eq)]
pub enum SerializedProjectData {
    Data(SerializedProject),
    Resource(SerializedProject),
    Combined { data_project: SerializedProject, resource_project: SerializedProject },
}

/// Why packs could not be read as a project.
#[derive(Debug)]
pub enum ProjectDeserializeError {
    /// A pack's metadata could not be read.
    PackInfo(AdapterRepoError),
    /// A pack format is unknown, or the packs share no release.
    InvalidVersion(String),
    /// A pack is not of the expected kind.
    MismatchedType(String),
}

/// Why a project could not be written as packs.
#[derive(Debug)]
pub enum ProjectSerializeError {
    PackInfo(AdapterRepoError),
}

impl AdapterError for ProjectDeserializeError {
    open spec fn spec_failure(self) -> AdapterFailure {
        AdapterFailure::ProjectDeserialization(Box::new(self))
    }

    fn into_failure(self) -> (r: AdapterFailure) {
        AdapterFailure::ProjectDeserialization(Box::new(self))
    }
}

impl AdapterError for ProjectSerializeError {
    open spec fn spec_failure(self) -> AdapterFailure {
        AdapterFailure::ProjectSerialization(Box::new(self))
    }

    fn into_failure(self) -> (r: AdapterFailure) {
        AdapterFailure::ProjectSerialization(Box::new(self))
    }
}

/// What reading packs as a project comes to.
pub enum DeserializeOutcome {
    /// A project with this name, release and metadata.
    Project(String, MinecraftVersion, PackInfoProjectData),
    PackInfoError(PackInfoDeserializationError),
    InvalidVersion(Seq<char>),
    MismatchedType(Seq<char>),
}

/// `v` is a release both lists hold, and no release both hold is older.
pub open spec fn is_min_common(a: Seq<MinecraftVersion>, b: Seq<MinecraftVersion>, v: MinecraftVersion) -> bool {
    &&& a.contains(v)
    &&& b.contains(v)
    &&& forall|w: MinecraftVersion| a.contains(w) && b.contains(w) ==> version_le(v, w)
}

/// The oldest release both lists hold, if they share one.
pub open spec fn common_min(a: Seq<MinecraftVersion>, b: Seq<MinecraftVersion>) -> Option<MinecraftVersion> {
    if exists|w: MinecraftVersion| a.contains(w) && b.contains(w) {
        Some(choose|v: MinecraftVersion| is_min_common(a, b, v))
    } else {
        None
    }
}

/// The project metadata of a single pack.
pub open spec fn single_info(kind: SerializedProjectType, input: PackInfoSerializationInput) -> PackInfoProjectData {
    let info = PackInfo { description: input.description, datapack_info: None };
    match kind {
        SerializedProjectType::Data => PackInfoProjectData::Data(info),
        SerializedProjectType::Resource => PackInfoProjectData::Resource(info),
    }
}

pub open spec fn kind_word(kind: SerializedProjectType) -> Seq<char> {
    match kind {
        SerializedProjectType::Data => "data"@,
        SerializedProjectType::Resource => "resource"@,
    }
}

pub open spec fn table_of(kind: SerializedProjectType) -> Seq<FormatEntry> {
    match kind {
        SerializedProjectType::Data => data_format_table(),
        SerializedProjectType::Resource => resource_format_table(),
    }
}

/// What reading a single pack of kind `kind` comes to: it must be of that
/// kind, its metadata must read, and its format must be known; the project
/// then targets the oldest release of the format.
pub open spec fn single_outcome(project: SerializedProject, kind: SerializedProjectType) -> DeserializeOutcome {
    if project.project_type != kind {
        DeserializeOutcome::MismatchedType(
            "Expected "@ + kind_word(kind) + " zip, got "@ + project.project_type.debug_text(),
        )
    } else {
        match deserialize_pack_info_spec(project.pack_info) {
            Err(e) => DeserializeOutcome::PackInfoError(e),
            Ok(input) => match format_with_id(table_of(kind), input.format) {
                None => DeserializeOutcome::InvalidVersion(
                    "Invalid "@ + kind_word(kind) + " format "@ + dec_u8(input.format),
                ),
                Some(entry) => DeserializeOutcome::Project(
                    project.name,
                    entry.1[0],
                    single_info(kind, input),
                ),
            },
        }
    }
}

/// What reading a data pack and a resource pack together comes to: both
/// must be of their kinds, both metadata must read and both formats must be
/// known (data first), and the formats must share a release; the project
/// targets the oldest shared release and takes the data pack's name.
pub open spec fn combined_outcome(data: SerializedProject, resource: SerializedProject) -> DeserializeOutcome {
    if !(data.project_type == SerializedProjectType::Data && resource.project_type
        == SerializedProjectType::Resource) {
        DeserializeOutcome::MismatchedType(
            "Expected data and resource zips, got data: "@ + data.project_type.debug_text()
                + ", resource: "@ + resource.project_type.debug_text(),
        )
    } else {
        match deserialize_pack_info_spec(data.pack_info) {
            Err(e) => DeserializeOutcome::PackInfoError(e),
            Ok(data_input) => match format_with_id(data_format_table(), data_input.format) {
                None => DeserializeOutcome::InvalidVersion(
                    "Invalid "@ + kind_word(SerializedProjectType::Data) + " format "@ + dec_u8(data_input.format),
                ),
                Some(data_entry) => match deserialize_pack_info_spec(resource.pack_info) {
                    Err(e) => DeserializeOutcome::PackInfoError(e),
                    Ok(resource_input) => match format_with_id(
                        resource_format_table(),
                        resource_input.format,
                    ) {
                        None => DeserializeOutcome::InvalidVersion(
                            "Invalid "@ + kind_word(SerializedProjectType::Resource) + " format "@ + dec_u8(resource_input.format),
                        ),
                        Some(resource_entry) => match common_min(data_entry.1, resource_entry.1) {
                            None => DeserializeOutcome::InvalidVersion(
                                "No common mc versions between data and resource packs! Data format: "@
                                    + dec_u8(data_entry.0) + ", Resource format: "@ + dec_u8(
                                    resource_entry.0,
                                ),
                            ),
                            Some(v) => DeserializeOutcome::Project(
                                data.name,
                                v,
                                PackInfoProjectData::Combined {
                                    data_info: PackInfo {
                                        description: data_input.description,
                                        datapack_info: None,
                                    },
                                    resource_info: PackInfo {
                                        description: resource_input.description,
                                        datapack_info: None,
                                    },
                                },
                            ),
                        },
                    },
                },
            },
        }
    }
}

/// What reading packs as a project comes to.
pub open spec fn deserialize_project_spec(serialized: SerializedProjectData) -> DeserializeOutcome {
    match serialized {
        SerializedProjectData::Data(p) => single_outcome(p, SerializedProjectType::Data),
        SerializedProjectData::Resource(p) => single_outcome(p, SerializedProjectType::Resource),
        SerializedProjectData::Combined { data_project, resource_project } => combined_outcome(
            data_project,
            resource_project,
        ),
    }
}

/// A deserialization result agrees with its outcome.
pub open spec fn deserialized_as(r: Result<DomainProject, ProjectDeserializeError>, outcome: DeserializeOutcome) -> bool {
    match (r, outcome) {
        (Ok(p), DeserializeOutcome::Project(name, version, info)) => p.name == name
            && p.project_version.version == version && p.pack_info == info && p.path is None
            && !p.has_unsaved_changes && uuid_version(p.id) == 7,
        (
            Err(
                ProjectDeserializeError::PackInfo(
                    AdapterRepoError::DeserializationError(
                        AdapterFailure::PackInfoDeserialization(e),
                    ),
                ),
            ),
            DeserializeOutcome::PackInfoError(f),
        ) => e == f,
        (Err(ProjectDeserializeError::InvalidVersion(m)), DeserializeOutcome::InvalidVersion(t)) =>
            m@ == t,
        (Err(ProjectDeserializeError::MismatchedType(m)), DeserializeOutcome::MismatchedType(t)) =>
            m@ == t,
        _ => false,
    }
}

/// Every format of both tables covers at least one release, and no two
/// formats of a table share a number.
pub proof fn lemma_tables_well_formed()
    ensures
        forall|i: int|
            0 <= i < data_format_table().len() ==> (#[trigger] data_format_table()[i]).1.len() > 0,
        forall|i: int|
            0 <= i < resource_format_table().len() ==> (#[trigger] resource_format_table()[i]).1.len()
                > 0,
        forall|i: int, j: int|
            0 <= i < j < data_format_table().len() ==> (#[trigger] data_format_table()[i]).0 != (
            #[trigger] data_format_table()[j]).0,
        forall|i: int, j: int|
            0 <= i < j < resource_format_table().len() ==> (#[trigger] resource_format_table()[i]).0
                != (#[trigger] resource_format_table()[j]).0,
{
}

/// An entry found by number is an entry of the table.
pub proof fn lemma_with_id_in_table(table: Seq<FormatEntry>, id: u8)
    requires
        format_with_id(table, id) is Some,
    ensures
        exists|i: int| 0 <= i < table.len() && table[i] == format_with_id(table, id)->0 && table[i].0 == id,
    decreases table.len(),
{
    if table[0].0 != id {
        lemma_with_id_in_table(table.drop_first(), id);
        let i = choose|i: int|
            0 <= i < table.drop_first().len() && table.drop_first()[i] == format_with_id(
                table.drop_first(),
                id,
            )->0 && table.drop_first()[i].0 == id;
        assert(table[i + 1] == table.drop_first()[i]);
    } else {
        assert(table[0] == format_with_id(table, id)->0);
    }
}

/// An entry found by release is an entry of the table that covers it.
pub proof fn lemma_for_version_in_table(table: Seq<FormatEntry>, v: MinecraftVersion)
    requires
        format_for_version(table, v) is Some,
    ensures
        exists|i: int| 0 <= i < table.len() && table[i] == format_for_version(table, v)->0,
        (format_for_version(table, v)->0).1.contains(v),
    decreases table.len(),
{
    if !table[0].1.contains(v) {
        lemma_for_version_in_table(table.drop_first(), v);
        let i = choose|i: int|
            0 <= i < table.drop_first().len() && table.drop_first()[i] == format_for_version(
                table.drop_first(),
                v,
            )->0;
        assert(table[i + 1] == table.drop_first()[i]);
    } else {
        assert(table[0] == format_for_version(table, v)->0);
    }
}

/// In a table whose numbers are distinct, the lookup by number finds the
/// entry at any index with that number.
pub proof fn lemma_with_id_at(table: Seq<FormatEntry>, i: int)
    requires
        0 <= i < table.len(),
        forall|a: int, b: int| 0 <= a < b < table.len() ==> (#[trigger] table[a]).0 != (#[trigger] table[b]).0,
    ensures
        format_with_id(table, table[i].0) == Some(table[i]),
    decreases i,
{
    if i > 0 {
        let rest = table.drop_first();
        assert(table[0].0 != table[i].0);
        assert forall|a: int, b: int| 0 <= a < b < rest.len() implies (#[trigger] rest[a]).0 != (
        #[trigger] rest[b]).0 by {
            assert(rest[a] == table[a + 1]);
            assert(rest[b] == table[b + 1]);
        }
        assert(rest[i - 1] == table[i]);
        lemma_with_id_at(rest, i - 1);
    }
}

/// The oldest common release is the only one with its property.
pub proof fn lemma_min_common_unique(a: Seq<MinecraftVersion>, b: Seq<MinecraftVersion>, v: MinecraftVersion)
    requires
        is_min_common(a, b, v),
    ensures
        common_min(a, b) == Some(v),
{
    assert(a.contains(v) && b.contains(v));
    let w = choose|w: MinecraftVersion| is_min_common(a, b, w);
    assert(is_min_common(a, b, w));
    assert(version_le(v, w) && version_le(w, v));
}

/// Two lists that share a release share an oldest one.
pub proof fn lemma_min_common_exists(a: Seq<MinecraftVersion>, b: Seq<MinecraftVersion>, w: MinecraftVersion)
    requires
        a.contains(w),
        b.contains(w),
    ensures
        exists|v: MinecraftVersion| is_min_common(a, b, v),
    decreases a.len(),
{
    let rest = a.drop_last();
    let x = a.last();
    assert forall|u: MinecraftVersion| #[trigger] a.contains(u) implies rest.contains(u) || u == x by {
        let k = choose|k: int| 0 <= k < a.len() && a[k] == u;
        if k < a.len() - 1 {
            assert(rest[k] == u);
        }
    }
    assert forall|u: MinecraftVersion| #[trigger] rest.contains(u) implies a.contains(u) by {
        let k = choose|k: int| 0 <= k < rest.len() && rest[k] == u;
        assert(a[k] == u);
    }
    assert(a[a.len() - 1] == x);
    if exists|u: MinecraftVersion| rest.contains(u) && b.contains(u) {
        let u = choose|u: MinecraftVersion| rest.contains(u) && b.contains(u);
        lemma_min_common_exists(rest, b, u);
        let m = choose|v: MinecraftVersion| is_min_common(rest, b, v);
        if b.contains(x) && version_lt(x, m) {
            assert(is_min_common(a, b, x));
        } else {
            assert(is_min_common(a, b, m));
        }
    } else {
        assert(x == w);
        assert(is_min_common(a, b, x));
    }
}

/// A project's packs with only their descriptions kept.
pub open spec fn described(info: PackInfoProjectData) -> PackInfoProjectData {
    match info {
        PackInfoProjectData::Data(i) => PackInfoProjectData::Data(
            PackInfo { description: i.description, datapack_info: None },
        ),
        PackInfoProjectData::Resource(i) => PackInfoProjectData::Resource(
            PackInfo { description: i.description, datapack_info: None },
        ),
        PackInfoProjectData::Combined { data_info, resource_info } => PackInfoProjectData::Combined {
            data_info: PackInfo { description: data_info.description, datapack_info: None },
            resource_info: PackInfo { description: resource_info.description, datapack_info: None },
        },
    }
}

/// Release `w` has the pack formats that release `v` has, for the kinds of
/// packs in `info`.
pub open spec fn same_formats(info: PackInfoProjectData, v: MinecraftVersion, w: MinecraftVersion) -> bool {
    let data_same = is_data_version(w) && data_format_id(w) == data_format_id(v);
    let resource_same = is_resource_version(w) && resource_format_id(w) == resource_format_id(v);
    match info {
        PackInfoProjectData::Data(_) => data_same,
        PackInfoProjectData::Resource(_) => resource_same,
        PackInfoProjectData::Combined { .. } => data_same && resource_same,
    }
}

/// Where a release's entry stands in a table whose numbers are distinct,
/// the lookup by the entry's number finds the entry again, and every
/// release of it leads back to it.
proof fn lemma_entry_found_again(table: Seq<FormatEntry>, v: MinecraftVersion)
    requires
        format_for_version(table, v) is Some,
        entries_ordered(table),
        forall|a: int, b: int| 0 <= a < b < table.len() ==> (#[trigger] table[a]).0 != (#[trigger] table[b]).0,
    ensures
        (format_for_version(table, v)->0).1.len() > 0,
        format_with_id(table, (format_for_version(table, v)->0).0) == format_for_version(table, v),
        forall|x: MinecraftVersion| (format_for_version(table, v)->0).1.contains(x) ==> #[trigger] format_for_version(table, x) == format_for_version(table, v),
{
    lemma_for_version_in_table(table, v);
    let i = choose|i: int| 0 <= i < table.len() && table[i] == format_for_version(table, v)->0;
    lemma_with_id_at(table, i);
    assert(table[i].1.len() > 0);
    assert forall|x: MinecraftVersion| (format_for_version(table, v)->0).1.contains(x) implies #[trigger] format_for_version(table, x) == format_for_version(table, v) by {
        lemma_entry_of_release(table, i, x);
    }
}

/// Reading back the packs a project was written as gives an unnamed
/// project of the same kind, with the same descriptions, whose release has
/// the pack formats of the written project's release.
pub proof fn lemma_project_round_trip(p: DomainProject, s: SerializedProjectData)
    requires
        has_formats(p),
        serialized_from(p, s),
    ensures
        match deserialize_project_spec(s) {
            DeserializeOutcome::Project(name, w, info) => name@ == Seq::<char>::empty() && info
                == described(p.pack_info) && same_formats(p.pack_info, p.project_version.version, w),
            _ => false,
        },
{
    let v = p.project_version.version;
    lemma_tables_well_formed();
    lemma_tables_ordered();
    match (p.pack_info, s) {
        (PackInfoProjectData::Data(info), SerializedProjectData::Data(sp)) => {
            let input = PackInfoSerializationInput { description: info.description, format: data_format_id(v) };
            lemma_pack_info_round_trip(input);
            lemma_entry_found_again(data_format_table(), v);
            let entry = format_for_version(data_format_table(), v)->0;
            assert(entry.1.contains(entry.1[0]));
        },
        (PackInfoProjectData::Resource(info), SerializedProjectData::Resource(sp)) => {
            let input = PackInfoSerializationInput { description: info.description, format: resource_format_id(v) };
            lemma_pack_info_round_trip(input);
            lemma_entry_found_again(resource_format_table(), v);
            let entry = format_for_version(resource_format_table(), v)->0;
            assert(entry.1.contains(entry.1[0]));
        },
        (
            PackInfoProjectData::Combined { data_info, resource_info },
            SerializedProjectData::Combined { data_project, resource_project },
        ) => {
            let data_input = PackInfoSerializationInput { description: data_info.description, format: data_format_id(v) };
            let resource_input = PackInfoSerializationInput { description: resource_info.description, format: resource_format_id(v) };
            lemma_pack_info_round_trip(data_input);
            lemma_pack_info_round_trip(resource_input);
            lemma_entry_found_again(data_format_table(), v);
            lemma_entry_found_again(resource_format_table(), v);
            lemma_for_version_in_table(data_format_table(), v);
            lemma_for_version_in_table(resource_format_table(), v);
            let d = format_for_version(data_format_table(), v)->0;
            let r = format_for_version(resource_format_table(), v)->0;
            lemma_min_common_exists(d.1, r.1, v);
            let w = choose|w: MinecraftVersion| is_min_common(d.1, r.1, w);
            lemma_min_common_unique(d.1, r.1, w);
            assert(format_for_version(data_format_table(), w) == format_for_version(data_format_table(), v));
            assert(format_for_version(resource_format_table(), w) == format_for_version(resource_format_table(), v));
        },
        _ => {},
    }
}

/// The oldest release both formats cover.
fn oldest_common_version(a: &Vec<MinecraftVersion>, b: &PackFormat) -> (r: Option<MinecraftVersion>)
    ensures
        r == common_min(a@, b.versions@),
{
    let mut best: Option<MinecraftVersion> = None;
    let mut i: usize = 0;
    while i < a.len()
        invariant
            i <= a@.len(),
            match best {
                Some(v) => a@.take(i as int).contains(v) && b.versions@.contains(v) && forall|
                    w: MinecraftVersion,
                | a@.take(i as int).contains(w) && b.versions@.contains(w) ==> version_le(v, w),
                None => forall|w: MinecraftVersion|
                    a@.take(i as int).contains(w) ==> !b.versions@.contains(w),
            },
        decreases a@.len() - i,
    {
        let x = a[i];
        let ghost before = a@.take(i as int);
        let ghost after = a@.take(i + 1);
        assert(after =~= before.push(x));
        assert forall|w: MinecraftVersion| after.contains(w) implies before.contains(w) || w == x by {
            let k = choose|k: int| 0 <= k < after.len() && after[k] == w;
            if k < i {
                assert(before[k] == w);
            }
        }
        assert(after[i as int] == x);
        let ghost old_best = best;
        if b.contains(x) {
            best = match best {
                Some(v) => if x.lt(&v) {
                    Some(x)
                } else {
                    Some(v)
                },
                None => Some(x),
            };
        }
        proof {
            assert forall|w: MinecraftVersion| #[trigger] before.contains(w) implies after.contains(w) by {
                let k = choose|k: int| 0 <= k < before.len() && before[k] == w;
                assert(after[k] == w);
            }
            match best {
                Some(v) => {
                    assert(after.contains(v));
                    assert forall|w: MinecraftVersion|
                        after.contains(w) && b.versions@.contains(w) implies version_le(v, w) by {
                        if w != x {
                            assert(before.contains(w));
                            match old_best {
                                Some(v0) => {
                                    assert(version_le(v0, w));
                                },
                                None => {
                                    assert(!b.versions@.contains(w));
                                },
                            }
                        }
                    }
                },
                None => {
                    assert(old_best is None);
                    assert forall|w: MinecraftVersion| after.contains(w) implies !b.versions@.contains(w) by {
                        if w != x {
                            assert(before.contains(w));
                        }
                    }
                },
            }
        }
        i = i + 1;
    }
    assert(a@.take(i as int) =~= a@);
    match best {
        Some(v) => {
            proof {
                lemma_min_common_unique(a@, b.versions@, v);
            }
            Some(v)
        },
        None => None,
    }
}

fn mismatch_message(expected: SerializedProjectType, got: SerializedProjectType) -> (r: String)
    ensures
        r@ == "Expected "@ + kind_word(expected) + " zip, got "@ + got.debug_text(),
{
    let mut m = "Expected ".to_owned();
    match expected {
        SerializedProjectType::Data => m.append("data"),
        SerializedProjectType::Resource => m.append("resource"),
    }
    m.append(" zip, got ");
    let got_text = got.debug_string();
    m.append(got_text.as_str());
    m
}

fn invalid_format_message(kind: SerializedProjectType, format: u8) -> (r: String)
    ensures
        r@ == "Invalid "@ + kind_word(kind) + " format "@ + dec_u8(format),
{
    let mut m = "Invalid ".to_owned();
    match kind {
        SerializedProjectType::Data => m.append("data"),
        SerializedProjectType::Resource => m.append("resource"),
    }
    m.append(" format ");
    push_dec_u8(&mut m, format);
    m
}

fn format_by_id(kind: SerializedProjectType, id: u8) -> (r: Option<PackFormat>)
    ensures
        match r {
            Some(f) => format_with_id(table_of(kind), id) == Some(entry_of(f)),
            None => format_with_id(table_of(kind), id) is None,
        },
{
    match kind {
        SerializedProjectType::Data => data_format_by_id(id),
        SerializedProjectType::Resource => resource_format_by_id(id),
    }
}

fn pack_info_error(e: PackInfoDeserializationError) -> (r: ProjectDeserializeError)
    ensures
        r == ProjectDeserializeError::PackInfo(
            AdapterRepoError::DeserializationError(AdapterFailure::PackInfoDeserialization(e)),
        ),
{
    ProjectDeserializeError::PackInfo(
        AdapterRepoError::DeserializationError(AdapterFailure::PackInfoDeserialization(e)),
    )
}

/// Reads one pack of kind `kind` as a project.
fn deserialize_single(project: &SerializedProject, kind: SerializedProjectType) -> (r: Result<
    DomainProject,
    ProjectDeserializeError,
>)
    ensures
        deserialized_as(r, single_outcome(*project, kind)),
{
    if project.project_type != kind {
        return Err(
            ProjectDeserializeError::MismatchedType(mismatch_message(kind, project.project_type)),
        );
    }
    let input = match PackInfoAdapter::deserialize(&project.pack_info) {
        Ok(input) => input,
        Err(e) => {
            return Err(pack_info_error(e));
        },
    };
    let format = match format_by_id(kind, input.format) {
        Some(format) => format,
        None => {
            return Err(
                ProjectDeserializeError::InvalidVersion(invalid_format_message(kind, input.format)),
            );
        },
    };
    proof {
        lemma_tables_well_formed();
        lemma_with_id_in_table(table_of(kind), input.format);
    }
    let version = ProjectVersion::from_pack_format(&format);
    let info = PackInfo::new(input.description, None);
    let pack_info = match kind {
        SerializedProjectType::Data => PackInfoProjectData::Data(info),
        SerializedProjectType::Resource => PackInfoProjectData::Resource(info),
    };
    Ok(DomainProject::new(project.name.clone(), version, pack_info))
}

/// Reads a data pack and a resource pack together as a project.
fn deserialize_combined(data_project: &SerializedProject, resource_project: &SerializedProject) -> (r: Result<
    DomainProject,
    ProjectDeserializeError,
>)
    ensures
        deserialized_as(r, combined_outcome(*data_project, *resource_project)),
{
    if !(data_project.project_type == SerializedProjectType::Data && resource_project.project_type
        == SerializedProjectType::Resource) {
        let mut m = "Expected data and resource zips, got data: ".to_owned();
        let d = data_project.project_type.debug_string();
        m.append(d.as_str());
        m.append(", resource: ");
        let r = resource_project.project_type.debug_string();
        m.append(r.as_str());
        return Err(ProjectDeserializeError::MismatchedType(m));
    }
    let data_input = match PackInfoAdapter::deserialize(&data_project.pack_info) {
        Ok(input) => input,
        Err(e) => {
            return Err(pack_info_error(e));
        },
    };
    let data_format = match data_format_by_id(data_input.format) {
        Some(format) => format,
        None => {
            return Err(
                ProjectDeserializeError::InvalidVersion(
                    invalid_format_message(SerializedProjectType::Data, data_input.format),
                ),
            );
        },
    };
    let resource_input = match PackInfoAdapter::deserialize(&resource_project.pack_info) {
        Ok(input) => input,
        Err(e) => {
            return Err(pack_info_error(e));
        },
    };
    let resource_format = match resource_format_by_id(resource_input.format) {
        Some(format) => format,
        None => {
            return Err(
                ProjectDeserializeError::InvalidVersion(
                    invalid_format_message(SerializedProjectType::Resource, resource_input.format),
                ),
            );
        },
    };
    let min_mc_version = match oldest_common_version(&data_format.versions, &resource_format) {
        Some(v) => v,
        None => {
            let mut m = "No common mc versions between data and resource packs! Data format: ".to_owned();
            push_dec_u8(&mut m, data_format.format_id);
            m.append(", Resource format: ");
            push_dec_u8(&mut m, resource_format.format_id);
            return Err(ProjectDeserializeError::InvalidVersion(m));
        },
    };
    let pack_info = PackInfoProjectData::Combined {
        data_info: PackInfo::new(data_input.description, None),
        resource_info: PackInfo::new(resource_input.description, None),
    };
    Ok(
        DomainProject::new(
            data_project.name.clone(),
            ProjectVersion::from_version(min_mc_version),
            pack_info,
        ),
    )
}

/// The data pack format number of a release.
pub open spec fn data_format_id(v: MinecraftVersion) -> u8 {
    (format_for_version(data_format_table(), v)->0).0
}

/// The resource pack format number of a release.
pub open spec fn resource_format_id(v: MinecraftVersion) -> u8 {
    (format_for_version(resource_format_table(), v)->0).0
}

/// Whether the formats a project's packs need are known for its release.
pub open spec fn has_formats(p: DomainProject) -> bool {
    match p.pack_info {
        PackInfoProjectData::Data(_) => is_data_version(p.project_version.version),
        PackInfoProjectData::Resource(_) => is_resource_version(p.project_version.version),
        PackInfoProjectData::Combined { .. } => is_data_version(p.project_version.version)
            && is_resource_version(p.project_version.version),
    }
}

/// An unnamed pack of kind `kind` with a description and a format.
pub open spec fn written_pack(s: SerializedProject, kind: SerializedProjectType, info: PackInfo, format: u8) -> bool {
    &&& s.name@ == Seq::<char>::empty()
    &&& s.project_type == kind
    &&& s.pack_info == serialize_pack_info_spec(
        PackInfoSerializationInput { description: info.description, format },
    )
}

/// The packs a project is written as: one unnamed pack per pack of the
/// project, with its description and the format of the project's release.
pub open spec fn serialized_from(p: DomainProject, s: SerializedProjectData) -> bool {
    let v = p.project_version.version;
    match (p.pack_info, s) {
        (PackInfoProjectData::Data(info), SerializedProjectData::Data(sp)) => written_pack(
            sp,
            SerializedProjectType::Data,
            info,
            data_format_id(v),
        ),
        (PackInfoProjectData::Resource(info), SerializedProjectData::Resource(sp)) => written_pack(
            sp,
            SerializedProjectType::Resource,
            info,
            resource_format_id(v),
        ),
        (
            PackInfoProjectData::Combined { data_info, resource_info },
            SerializedProjectData::Combined { data_project, resource_project },
        ) => written_pack(data_project, SerializedProjectType::Data, data_info, data_format_id(v))
            && written_pack(
            resource_project,
            SerializedProjectType::Resource,
            resource_info,
            resource_format_id(v),
        ),
        _ => false,
    }
}

fn write_pack(info: &PackInfo, kind: SerializedProjectType, format: u8) -> (r: SerializedProject)
    ensures
        written_pack(r, kind, *info, format),
{
    let input = PackInfoSerializationInput::new(info.description.duplicate(), format);
    let pack_info = match PackInfoAdapter::serialize(&input) {
        Ok(p) => p,
        Err(_) => {
            assert(false);
            return SerializedProject::new(kind, crate::data::serialization::pack_info::PackInfo::default_data());
        },
    };
    SerializedProject::new(kind, pack_info)
}

impl ProjectAdapter {
    /// Reads packs as a project.
    pub fn deserialize(serialized: &SerializedProjectData) -> (r: Result<
        DomainProject,
        ProjectDeserializeError,
    >)
        ensures
            deserialized_as(r, deserialize_project_spec(*serialized)),
    {
        match serialized {
            SerializedProjectData::Data(project) => deserialize_single(
                project,
                SerializedProjectType::Data,
            ),
            SerializedProjectData::Resource(project) => deserialize_single(
                project,
                SerializedProjectType::Resource,
            ),
            SerializedProjectData::Combined { data_project, resource_project } =>
                deserialize_combined(data_project, resource_project),
        }
    }

    /// Writes a project as packs, each in the format of the project's
    /// release.
    pub fn serialize(project: &DomainProject) -> (r: Result<
        SerializedProjectData,
        ProjectSerializeError,
    >)
        requires
            has_formats(*project),
        ensures
            match r {
                Ok(s) => serialized_from(*project, s),
                Err(_) => false,
            },
    {
        let project_version = project.project_version;
        match &project.pack_info {
            PackInfoProjectData::Data(pack_info) => {
                let format = get_datapack_format_for_version(
                    project_version.get_base_data_mc_version(),
                );
                Ok(
                    SerializedProjectData::Data(
                        write_pack(pack_info, SerializedProjectType::Data, format.get_format_id()),
                    ),
                )
            },
            PackInfoProjectData::Resource(pack_info) => {
                let format = get_resourcepack_format_for_version(
                    project_version.get_base_resource_mc_version(),
                );
                Ok(
                    SerializedProjectData::Resource(
                        write_pack(
                            pack_info,
                            SerializedProjectType::Resource,
                            format.get_format_id(),
                        ),
                    ),
                )
            },
            PackInfoProjectData::Combined { data_info, resource_info } => {
                let data_format = get_datapack_format_for_version(
                    project_version.get_base_data_mc_version(),
                );
                let resource_format = get_resourcepack_format_for_version(
                    project_version.get_base_resource_mc_version(),
                );
                Ok(
                    SerializedProjectData::Combined {
                        data_project: write_pack(
                            data_info,
                            SerializedProjectType::Data,
                            data_format.get_format_id(),
                        ),
                        resource_project: write_pack(
                            resource_info,
                            SerializedProjectType::Resource,
                            resource_format.get_format_id(),
                        ),
                    },
                )
            },
        }
    }
}

/// Written as packs, a combined project made from settings gives its data
/// pack the settings' data description and its resource pack the
/// settings' resource description.
pub proof fn lemma_combined_packs_carry_their_descriptions(
    p: DomainProject,
    name: String,
    data_description: PackDescription,
    resource_description: PackDescription,
    path: Option<String>,
    project_version: ProjectVersion,
    s: SerializedProjectData,
)
    requires
        made_from(
            p,
            ProjectSettings::Combined { name, data_description, resource_description, path, project_version },
        ),
        serialized_from(p, s),
    ensures
        s matches SerializedProjectData::Combined { data_project, resource_project }
            && data_project.project_type == SerializedProjectType::Data
            && resource_project.project_type == SerializedProjectType::Resource
            && data_project.pack_info.pack.description == text_of(data_description)
            && resource_project.pack_info.pack.description == text_of(resource_description),
{
}

} // verus!
