//! A pack as it is stored in a zip archive: its name, its kind, and its
//! `pack.mcmeta`.
use vstd::prelude::*;
use crate::data::serialization::pack_info::PackInfo;

verus! {

/// Whether an archive holds a data pack or a resource pack.
#[derive(Debug, Clone, Copy, PartialEq, Eq, Structural)]
pub enum SerializedProjectType {
    Data,
    Resource,
}

impl SerializedProjectType {
    /// The name the kind is printed with.
    pub open spec fn debug_text(self) -> Seq<char> {
        match self {
            SerializedProjectType::Data => "Data"@,
            SerializedProjectType::Resource => "Resource"@,
        }
    }

    pub fn debug_string(&self) -> (r: String)
        ensures
            r@ == self.debug_text(),
    {
        match self {
            SerializedProjectType::Data => "Data".to_owned(),
            SerializedProjectType::Resource => "Resource".to_owned(),
        }
    }
}

/// A pack read from, or to be written to, an archive.
#[derive(Debug, Clone, PartialEq, Eq)]
pub struct Project {
    pub name: String,
    pub project_type: SerializedProjectType,
    pub pack_info: PackInfo,
}

impl Project {
    /// An unnamed pack.
    pub fn new(project_type: SerializedProjectType, pack_info: PackInfo) -> (r: Self)
        ensures
            r.name@ == Seq::<char>::empty(),
            r.project_type == project_type,
            r.pack_info == pack_info,
    {
        Project { name: String::new(), project_type, pack_info }
    }

    pub fn with_name(name: String, project_type: SerializedProjectType, pack_info: PackInfo) -> (r: Self)
        ensures
            r == (Project { name, project_type, pack_info }),
    {
        Project { name, project_type, pack_info }
    }

    pub fn name(&self) -> (r: &String)
        ensures
            *r == self.name,
    {
        &self.name
    }

    pub fn project_type(&self) -> (r: &SerializedProjectType)
        ensures
            *r == self.project_type,
    {
        &self.project_type
    }

    pub fn pack_info(&self) -> (r: &PackInfo)
        ensures
            *r == self.pack_info,
    {
        &self.pack_info
    }
}

/// Why an archive could not be read or written as a pack.
#[derive(Debug, Clone, PartialEq, Eq)]
pub enum SerializedProjectError {
    Zip(String),
    IOError(String),
    InvalidZipFile(String),
}

/// The kind of pack an archive holds: a data pack when it has a `data/`
/// folder, else a resource pack when it has an `assets/` folder.
pub fn archive_project_type(has_data_dir: bool, has_assets_dir: bool) -> (r: Result<
    SerializedProjectType,
    SerializedProjectError,
>)
    ensures
        match r {
            Ok(t) => t == (if has_data_dir {
                SerializedProjectType::Data
            } else {
                SerializedProjectType::Resource
            }) && (has_data_dir || has_assets_dir),
            Err(e) => !has_data_dir && !has_assets_dir && e == SerializedProjectError::InvalidZipFile(
                e->InvalidZipFile_0,
            ) && e->InvalidZipFile_0@ == "No data or assets directory found!"@,
        },
{
    if has_data_dir {
        Ok(SerializedProjectType::Data)
    } else if has_assets_dir {
        Ok(SerializedProjectType::Resource)
    } else {
        Err(SerializedProjectError::InvalidZipFile("No data or assets directory found!".to_owned()))
    }
}

/// The name of the metadata file in an archive.
pub open spec fn metadata_file_name() -> Seq<char> {
    "pack.mcmeta"@
}

} // verus!
