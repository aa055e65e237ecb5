//! Projects: a data pack, a resource pack, or both, with a name, a place on
//! disk, a base Minecraft release, and pack metadata.
use vstd::prelude::*;
use crate::data::domain::pack_info::{PackDescription, PackInfo};
use crate::data::domain::versions::{
    data_format_table, entry_of, format_for_version, get_datapack_format_for_version,
    get_resourcepack_format_for_version, is_data_version, is_resource_version,
    resource_format_table,
};
use crate::mc_version::{MinecraftVersion, PackFormat};

verus! {

/// The identifier of a project: a UUID held as its 128-bit value.
pub type ProjectID = u128;

/// The version field of a UUID.
pub open spec fn uuid_version(id: u128) -> u128 {
    (id >> 76u128) & 0xfu128
}

/// The system clock's time.
#[verifier::external_type_specification]
#[verifier::external_body]
pub struct ExSystemTime(std::time::SystemTime);

/// `SystemTime::now()`: the clock's current time. Nothing is stated of it.
#[verifier::external_body]
fn clock_now() -> std::time::SystemTime {
    std::time::SystemTime::now()
}

/// `SystemTime::duration_since(UNIX_EPOCH)`: the time since the Unix
/// epoch, or nothing when `t` is before it. Nothing is stated of it.
#[verifier::external_body]
fn since_unix_epoch(t: &std::time::SystemTime) -> Option<std::time::Duration> {
    match t.duration_since(std::time::UNIX_EPOCH) {
        Ok(d) => Some(d),
        Err(_) => None,
    }
}

/// `Duration::as_secs`: the whole seconds of `d`. Nothing is stated of it.
#[verifier::external_body]
fn whole_seconds(d: &std::time::Duration) -> u64 {
    d.as_secs()
}

/// Calls `uuid::Uuid::new_v7(Timestamp::from_unix(NoContext, seconds, 0))`
/// and returns `Uuid::as_u128` of it. The rest of the UUID is random; the
/// uuid crate sets the version field to 7.
#[verifier::external_body]
fn uuid_v7(seconds: u64) -> (r: u128)
    ensures
        uuid_version(r) == 7,
{
    uuid::Uuid::new_v7(uuid::Timestamp::from_unix(uuid::NoContext, seconds, 0)).as_u128()
}

/// The lowercase hexadecimal digit of `d`, below 16.
pub open spec fn hex_digit(d: nat) -> char {
    seq!['0', '1', '2', '3', '4', '5', '6', '7', '8', '9', 'a', 'b', 'c', 'd', 'e', 'f'][d as int]
}

/// The last `k` hexadecimal digits of `n`, most significant first.
pub open spec fn hex_digits(n: nat, k: nat) -> Seq<char>
    decreases k,
{
    if k == 0 {
        Seq::empty()
    } else {
        hex_digits(n / 16, (k - 1) as nat).push(hex_digit(n % 16))
    }
}

/// How a UUID is written: its 32 lowercase hexadecimal digits, most
/// significant first, in groups of 8, 4, 4, 4 and 12 joined by hyphens.
pub open spec fn uuid_text(id: u128) -> Seq<char> {
    let h = hex_digits(id as nat, 32);
    h.subrange(0, 8) + seq!['-'] + h.subrange(8, 12) + seq!['-'] + h.subrange(12, 16) + seq!['-']
        + h.subrange(16, 20) + seq!['-'] + h.subrange(20, 32)
}

/// Writes `uuid::Uuid::from_u128(id)` with its `Display`, which the uuid
/// crate documents as the hyphenated lowercase form of the value, most
/// significant digits first; the contract states that form.
#[verifier::external_body]
pub(crate) fn uuid_string(id: u128) -> (r: String)
    ensures
        r@ == uuid_text(id),
{
    uuid::Uuid::from_u128(id).to_string()
}

/// A version 7 UUID is never the nil UUID.
pub proof fn lemma_uuid_v7_not_nil(id: u128)
    requires
        uuid_version(id) == 7,
    ensures
        id != 0,
{
    assert(((id >> 76u128) & 0xfu128) == 7 ==> id != 0) by (bit_vector);
}

/// The Minecraft release a project targets.
#[derive(Debug, Clone, Copy, PartialEq, Eq, Hash, Structural)]
pub struct ProjectVersion {
    pub version: MinecraftVersion,
}

impl ProjectVersion {
    /// The data pack format of the project's release.
    pub fn get_data_format(&self) -> (r: PackFormat)
        requires
            is_data_version(self.version),
        ensures
            format_for_version(data_format_table(), self.version) == Some(entry_of(r)),
    {
        get_datapack_format_for_version(self.version)
    }

    /// The resource pack format of the project's release.
    pub fn get_resource_format(&self) -> (r: PackFormat)
        requires
            is_resource_version(self.version),
        ensures
            format_for_version(resource_format_table(), self.version) == Some(entry_of(r)),
    {
        get_resourcepack_format_for_version(self.version)
    }

    pub fn get_base_data_mc_version(&self) -> (r: MinecraftVersion)
        ensures
            r == self.version,
    {
        self.version
    }

    pub fn get_base_resource_mc_version(&self) -> (r: MinecraftVersion)
        ensures
            r == self.version,
    {
        self.version
    }

    pub fn from_version(version: MinecraftVersion) -> (r: Self)
        ensures
            r.version == version,
    {
        ProjectVersion { version }
    }

    /// The oldest release a format covers.
    pub fn from_pack_format(format: &PackFormat) -> (r: Self)
        requires
            format.versions@.len() > 0,
        ensures
            r.version == format.versions@[0],
    {
        ProjectVersion { version: format.versions[0] }
    }
}

/// The kind of a project.
#[derive(Debug, Clone, Copy, PartialEq, Eq, Hash, Structural)]
pub enum ProjectType {
    DataPack,
    ResourcePack,
    Combined,
}

/// The descriptions of a project's packs.
#[derive(Debug, Clone, PartialEq, Eq, Hash)]
pub enum ProjectDescription {
    Single(PackDescription),
    Combined { data_description: PackDescription, resource_description: PackDescription },
}

/// The pack metadata of a project, one per pack.
#[derive(Debug, Clone, PartialEq, Eq, Hash)]
pub enum PackInfoProjectData {
    Data(PackInfo),
    Resource(PackInfo),
    Combined { data_info: PackInfo, resource_info: PackInfo },
}

/// What a new project is made from.
#[derive(Debug, Clone, PartialEq, Eq, Hash)]
pub enum ProjectSettings {
    DataPack {
        name: String,
        description: PackDescription,
        path: Option<String>,
        project_version: ProjectVersion,
    },
    ResourcePack {
        name: String,
        description: PackDescription,
        path: Option<String>,
        project_version: ProjectVersion,
    },
    Combined {
        name: String,
        data_description: PackDescription,
        resource_description: PackDescription,
        path: Option<String>,
        project_version: ProjectVersion,
    },
}

impl ProjectSettings {
    pub open spec fn spec_name(&self) -> String {
        match self {
            ProjectSettings::DataPack { name, .. } => *name,
            ProjectSettings::ResourcePack { name, .. } => *name,
            ProjectSettings::Combined { name, .. } => *name,
        }
    }

    pub open spec fn spec_path(&self) -> Option<String> {
        match self {
            ProjectSettings::DataPack { path, .. } => *path,
            ProjectSettings::ResourcePack { path, .. } => *path,
            ProjectSettings::Combined { path, .. } => *path,
        }
    }

    /// The same settings with another path.
    pub open spec fn spec_with_path(self, new_path: Option<String>) -> ProjectSettings {
        match self {
            ProjectSettings::DataPack { name, description, path: _, project_version } =>
                ProjectSettings::DataPack { name, description, path: new_path, project_version },
            ProjectSettings::ResourcePack { name, description, path: _, project_version } =>
                ProjectSettings::ResourcePack { name, description, path: new_path, project_version },
            ProjectSettings::Combined {
                name,
                data_description,
                resource_description,
                path: _,
                project_version,
            } => ProjectSettings::Combined {
                name,
                data_description,
                resource_description,
                path: new_path,
                project_version,
            },
        }
    }

    pub fn with_path(self, new_path: Option<String>) -> (r: Self)
        ensures
            r == self.spec_with_path(new_path),
    {
        match self {
            ProjectSettings::DataPack { name, description, path: _, project_version } => {
                ProjectSettings::DataPack { name, description, path: new_path, project_version }
            },
            ProjectSettings::ResourcePack { name, description, path: _, project_version } => {
                ProjectSettings::ResourcePack { name, description, path: new_path, project_version }
            },
            ProjectSettings::Combined {
                name,
                data_description,
                resource_description,
                path: _,
                project_version,
            } => {
                ProjectSettings::Combined {
                    name,
                    data_description,
                    resource_description,
                    path: new_path,
                    project_version,
                }
            },
        }
    }

    pub fn name(&self) -> (r: &String)
        ensures
            *r == self.spec_name(),
    {
        match self {
            ProjectSettings::DataPack { name, .. } => name,
            ProjectSettings::ResourcePack { name, .. } => name,
            ProjectSettings::Combined { name, .. } => name,
        }
    }

    pub fn path(&self) -> (r: Option<&String>)
        ensures
            match (r, self.spec_path()) {
                (Some(a), Some(b)) => *a == b,
                (None, None) => true,
                _ => false,
            },
    {
        match self {
            ProjectSettings::DataPack { path, .. } => path.as_ref(),
            ProjectSettings::ResourcePack { path, .. } => path.as_ref(),
            ProjectSettings::Combined { path, .. } => path.as_ref(),
        }
    }
}

/// A project open in the editor.
#[derive(Debug, Clone, PartialEq, Eq, Hash)]
pub struct Project {
    pub name: String,
    pub id: ProjectID,
    pub path: Option<String>,
    pub project_version: ProjectVersion,
    pub pack_info: PackInfoProjectData,
    pub has_unsaved_changes: bool,
}

/// The kind of project that pack metadata belongs to.
pub open spec fn kind_of(pack_info: PackInfoProjectData) -> ProjectType {
    match pack_info {
        PackInfoProjectData::Data(_) => ProjectType::DataPack,
        PackInfoProjectData::Resource(_) => ProjectType::ResourcePack,
        PackInfoProjectData::Combined { .. } => ProjectType::Combined,
    }
}

/// The project that settings describe, apart from its identifier: no
/// unsaved changes, and each pack's metadata made of its description.
pub open spec fn made_from(p: Project, settings: ProjectSettings) -> bool {
    &&& !p.has_unsaved_changes
    &&& match settings {
        ProjectSettings::DataPack { name, description, path, project_version } => p.name == name
            && p.path == path && p.project_version == project_version && p.pack_info
            == PackInfoProjectData::Data(PackInfo { description, datapack_info: None }),
        ProjectSettings::ResourcePack { name, description, path, project_version } => p.name
            == name && p.path == path && p.project_version == project_version && p.pack_info
            == PackInfoProjectData::Resource(PackInfo { description, datapack_info: None }),
        ProjectSettings::Combined {
            name,
            data_description,
            resource_description,
            path,
            project_version,
        } => p.name == name && p.path == path && p.project_version == project_version
            && p.pack_info == PackInfoProjectData::Combined {
            data_info: PackInfo { description: data_description, datapack_info: None },
            resource_info: PackInfo { description: resource_description, datapack_info: None },
        },
    }
}

fn clone_path(path: &Option<String>) -> (r: Option<String>)
    ensures
        r == *path,
{
    match path {
        Some(p) => Some(p.clone()),
        None => None,
    }
}

impl Project {
    fn generate_id() -> (r: ProjectID)
        ensures
            uuid_version(r) == 7,
    {
        let now = clock_now();
        let seconds = match since_unix_epoch(&now) {
            Some(d) => whole_seconds(&d),
            None => 0,
        };
        uuid_v7(seconds)
    }

    /// A new project, with a fresh identifier, no path and no unsaved
    /// changes.
    pub fn new(name: String, project_version: ProjectVersion, pack_info: PackInfoProjectData) -> (r: Self)
        ensures
            r.name == name,
            r.path is None,
            r.project_version == project_version,
            r.pack_info == pack_info,
            !r.has_unsaved_changes,
            uuid_version(r.id) == 7,
    {
        let id = Self::generate_id();
        Project { name, id, path: None, project_version, pack_info, has_unsaved_changes: false }
    }

    /// The project that `settings` describe, with a fresh identifier: each
    /// pack takes the description the settings give for that pack.
    pub fn from_settings(settings: ProjectSettings) -> (r: Self)
        ensures
            made_from(r, settings),
            uuid_version(r.id) == 7,
            match settings {
                ProjectSettings::DataPack { description, .. } => (r.pack_info matches PackInfoProjectData::Data(
                    info,
                ) && info.description == description),
                ProjectSettings::ResourcePack { description, .. } => (r.pack_info matches PackInfoProjectData::Resource(
                    info,
                ) && info.description == description),
                ProjectSettings::Combined { data_description, resource_description, .. } => (r.pack_info
                    matches PackInfoProjectData::Combined { data_info, resource_info }
                    && data_info.description == data_description && resource_info.description
                    == resource_description),
            },
    {
        let id = Self::generate_id();
        match settings {
            ProjectSettings::DataPack { name, description, path, project_version } => {
                Project {
                    name,
                    id,
                    path,
                    project_version,
                    pack_info: PackInfoProjectData::Data(PackInfo::new(description, None)),
                    has_unsaved_changes: false,
                }
            },
            ProjectSettings::ResourcePack { name, description, path, project_version } => {
                Project {
                    name,
                    id,
                    path,
                    project_version,
                    pack_info: PackInfoProjectData::Resource(PackInfo::new(description, None)),
                    has_unsaved_changes: false,
                }
            },
            ProjectSettings::Combined {
                name,
                data_description,
                resource_description,
                path,
                project_version,
            } => {
                Project {
                    name,
                    id,
                    path,
                    project_version,
                    pack_info: PackInfoProjectData::Combined {
                        data_info: PackInfo::new(data_description, None),
                        resource_info: PackInfo::new(resource_description, None),
                    },
                    has_unsaved_changes: false,
                }
            },
        }
    }

    /// The same project, with unsaved changes.
    pub fn with_unsaved_changes(settings: ProjectSettings) -> (r: Self)
        ensures
            made_from(Project { has_unsaved_changes: false, ..r }, settings),
            r.has_unsaved_changes,
            uuid_version(r.id) == 7,
    {
        let mut p = Self::from_settings(settings);
        p.has_unsaved_changes = true;
        p
    }

    /// A fresh identifier, as new projects get.
    pub fn generate_test_id() -> (r: ProjectID)
        ensures
            uuid_version(r) == 7,
    {
        Self::generate_id()
    }

    pub fn set_id(&mut self, id: ProjectID)
        ensures
            *final(self) == (Project { id, ..*old(self) }),
    {
        self.id = id;
    }

    pub fn flag_unsaved_changes(&mut self)
        ensures
            *final(self) == (Project { has_unsaved_changes: true, ..*old(self) }),
    {
        self.has_unsaved_changes = true;
    }

    pub fn clear_unsaved_changes(&mut self)
        ensures
            *final(self) == (Project { has_unsaved_changes: false, ..*old(self) }),
    {
        self.has_unsaved_changes = false;
    }

    pub fn project_type(&self) -> (r: ProjectType)
        ensures
            r == kind_of(self.pack_info),
    {
        match &self.pack_info {
            PackInfoProjectData::Data(_) => ProjectType::DataPack,
            PackInfoProjectData::Resource(_) => ProjectType::ResourcePack,
            PackInfoProjectData::Combined { .. } => ProjectType::Combined,
        }
    }

    pub fn name(&self) -> (r: &String)
        ensures
            *r == self.name,
    {
        &self.name
    }

    pub fn id(&self) -> (r: &ProjectID)
        ensures
            *r == self.id,
    {
        &self.id
    }

    pub fn path(&self) -> (r: &Option<String>)
        ensures
            *r == self.path,
    {
        &self.path
    }

    pub fn project_version(&self) -> (r: &ProjectVersion)
        ensures
            *r == self.project_version,
    {
        &self.project_version
    }

    pub fn pack_info(&self) -> (r: &PackInfoProjectData)
        ensures
            *r == self.pack_info,
    {
        &self.pack_info
    }

    pub fn has_unsaved_changes(&self) -> (r: &bool)
        ensures
            *r == self.has_unsaved_changes,
    {
        &self.has_unsaved_changes
    }

    /// The settings this project would be made from.
    pub open spec fn spec_settings(&self) -> ProjectSettings {
        match self.pack_info {
            PackInfoProjectData::Data(info) => ProjectSettings::DataPack {
                name: self.name,
                description: info.description,
                path: self.path,
                project_version: self.project_version,
            },
            PackInfoProjectData::Resource(info) => ProjectSettings::ResourcePack {
                name: self.name,
                description: info.description,
                path: self.path,
                project_version: self.project_version,
            },
            PackInfoProjectData::Combined { data_info, resource_info } => ProjectSettings::Combined {
                name: self.name,
                data_description: data_info.description,
                resource_description: resource_info.description,
                path: self.path,
                project_version: self.project_version,
            },
        }
    }

    /// The settings this project would be made from.
    pub fn recreate_settings(&self) -> (r: ProjectSettings)
        ensures
            r == self.spec_settings(),
            match self.pack_info {
                PackInfoProjectData::Data(info) => (r matches ProjectSettings::DataPack { description, .. }
                    && description == info.description),
                PackInfoProjectData::Resource(info) => (r matches ProjectSettings::ResourcePack {
                    description,
                    ..
                } && description == info.description),
                PackInfoProjectData::Combined { data_info, resource_info } => (r matches ProjectSettings::Combined {
                    data_description,
                    resource_description,
                    ..
                } && data_description == data_info.description && resource_description
                    == resource_info.description),
            },
    {
        match &self.pack_info {
            PackInfoProjectData::Data(info) => {
                ProjectSettings::DataPack {
                    name: self.name.clone(),
                    description: info.description.duplicate(),
                    path: clone_path(&self.path),
                    project_version: self.project_version,
                }
            },
            PackInfoProjectData::Resource(info) => {
                ProjectSettings::ResourcePack {
                    name: self.name.clone(),
                    description: info.description.duplicate(),
                    path: clone_path(&self.path),
                    project_version: self.project_version,
                }
            },
            PackInfoProjectData::Combined { data_info, resource_info } => {
                ProjectSettings::Combined {
                    name: self.name.clone(),
                    data_description: data_info.description.duplicate(),
                    resource_description: resource_info.description.duplicate(),
                    path: clone_path(&self.path),
                    project_version: self.project_version,
                }
            },
        }
    }
}

/// A project made from settings gives those settings back, keeps their
/// name and path, and is of the kind they describe.
pub proof fn lemma_settings_round_trip(p: Project, settings: ProjectSettings)
    requires
        made_from(p, settings),
    ensures
        p.spec_settings() == settings,
        p.name == settings.spec_name(),
        p.path == settings.spec_path(),
        kind_of(p.pack_info) == match settings {
            ProjectSettings::DataPack { .. } => ProjectType::DataPack,
            ProjectSettings::ResourcePack { .. } => ProjectType::ResourcePack,
            ProjectSettings::Combined { .. } => ProjectType::Combined,
        },
{
}

/// A combined project made from settings holds the data description in
/// its data pack's metadata and the resource description in its resource
/// pack's metadata, and taking its settings back gives each description
/// to the same pack again.
pub proof fn lemma_combined_descriptions_kept(
    p: Project,
    name: String,
    data_description: PackDescription,
    resource_description: PackDescription,
    path: Option<String>,
    project_version: ProjectVersion,
)
    requires
        made_from(
            p,
            ProjectSettings::Combined { name, data_description, resource_description, path, project_version },
        ),
    ensures
        p.pack_info matches PackInfoProjectData::Combined { data_info, resource_info }
            && data_info.description == data_description && resource_info.description
            == resource_description,
        p.spec_settings() matches ProjectSettings::Combined {
            data_description: d,
            resource_description: r,
            ..
        } && d == data_description && r == resource_description,
{
}

} // verus!
