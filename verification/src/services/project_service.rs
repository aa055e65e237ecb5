//! The project operations of the editor: making projects from settings,
//! closing them, and moving them in and out of zip archives.
use vstd::prelude::*;
use crate::data::adapters::project::{
    deserialize_project_spec, deserialized_as, has_formats, serialized_from, SerializedProjectData,
};
use crate::data::domain::project::{
    kind_of, made_from, Project, ProjectID, ProjectSettings, ProjectType,
};
use crate::data::serialization::project::{Project as SerializedProject, SerializedProjectType};
use crate::repositories::adapter_repo::{
    register_default_adapters, AdapterFailure, AdapterRepoError, AdapterRepository, AdapterType,
};
use crate::repositories::project_repo::{ProjectCreationError, ProjectRepoError, ProjectRepository};
use crate::services::filesystem_service::{FilesystemProvider, FilesystemProviderError};
use crate::services::path_names::{illegal_name_char, sanitize_path, sanitized_path};
use crate::services::zip_service::{self, ZipProvider};

verus! {

/// Where a project's archives go, or come from: one archive for a project
/// of one pack, two for a project of both packs.
#[derive(Debug, Clone, PartialEq, Eq)]
pub enum ZipPath {
    Single(String),
    Combined { data_path: String, resource_path: String },
}

/// A project and where to export it.
#[derive(Debug)]
pub struct ProjectZipData {
    pub project_id: ProjectID,
    pub path: ZipPath,
}

/// Why a project could not be saved.
#[derive(Debug, Clone, Copy, PartialEq, Eq, Structural)]
pub enum SaveError {
    NoChangesToSave,
    NoPathSet,
}

impl SaveError {
    /// The message the error reads as.
    pub fn to_string(&self) -> (r: String)
        ensures
            *self == SaveError::NoChangesToSave ==> r@ == "No changes to save!"@,
            *self == SaveError::NoPathSet ==> r@ == "No filepath set for project!"@,
    {
        match self {
            SaveError::NoChangesToSave => "No changes to save!".to_owned(),
            SaveError::NoPathSet => "No filepath set for project!".to_owned(),
        }
    }
}

/// Why moving a project in or out of archives failed.
#[derive(Debug)]
pub enum ZipError {
    /// The archives asked for do not fit the kind of project.
    MismatchedPaths(ProjectType, ZipPath),
    Zipping(zip_service::ZipError),
    Deserialization(AdapterRepoError),
    Serialization(AdapterRepoError),
}

/// Why a project operation failed.
#[derive(Debug)]
pub enum ProjectServiceError {
    RepoError(ProjectRepoError),
    CannotCloseUnsavedChanges,
    ProjectDoesNotExist,
    Save(SaveError),
    Zip(ZipError),
}

/// Whether archives of this shape fit a project of this kind.
pub open spec fn path_fits_kind(path: ZipPath, kind: ProjectType) -> bool {
    match path {
        ZipPath::Single(_) => kind != ProjectType::Combined,
        ZipPath::Combined { .. } => kind == ProjectType::Combined,
    }
}

/// The error importing reports for a failed reading of packs.
pub open spec fn import_error(e: crate::data::adapters::project::ProjectDeserializeError) -> ProjectServiceError {
    ProjectServiceError::Zip(
        ZipError::Deserialization(
            AdapterRepoError::DeserializationError(AdapterFailure::ProjectDeserialization(Box::new(e))),
        ),
    )
}

/// The archive each pack goes to, in the order they are written: the one
/// pack to the one path; the data pack to the data path, then the resource
/// pack to the resource path. None where the archives do not fit the packs.
pub open spec fn export_pairs(path: ZipPath, packs: SerializedProjectData) -> Option<
    Seq<(String, SerializedProject)>,
> {
    match (path, packs) {
        (ZipPath::Single(p), SerializedProjectData::Data(sp)) => Some(seq![(p, sp)]),
        (ZipPath::Single(p), SerializedProjectData::Resource(sp)) => Some(seq![(p, sp)]),
        (
            ZipPath::Combined { data_path, resource_path },
            SerializedProjectData::Combined { data_project, resource_project },
        ) => Some(seq![(data_path, data_project), (resource_path, resource_project)]),
        _ => None,
    }
}

/// The archives a project is read from, in order: the one path; the data
/// path, then the resource path.
pub open spec fn import_paths(path: ZipPath) -> Seq<String> {
    match path {
        ZipPath::Single(p) => seq![p],
        ZipPath::Combined { data_path, resource_path } => seq![data_path, resource_path],
    }
}

/// The packs read from archives, each in its place: one pack goes where
/// its own kind says; of two, the first is the data pack and the second
/// the resource pack.
pub open spec fn placed_packs(read: Seq<SerializedProject>) -> Option<SerializedProjectData> {
    if read.len() == 1 {
        Some(
            match read[0].project_type {
                SerializedProjectType::Data => SerializedProjectData::Data(read[0]),
                SerializedProjectType::Resource => SerializedProjectData::Resource(read[0]),
            },
        )
    } else if read.len() == 2 {
        Some(SerializedProjectData::Combined { data_project: read[0], resource_project: read[1] })
    } else {
        None
    }
}

/// The paths of the archives a project is read from, in the order read.
pub fn import_sources(path: ZipPath) -> (r: Vec<String>)
    ensures
        r@ == import_paths(path),
{
    match path {
        ZipPath::Single(p) => vec![p],
        ZipPath::Combined { data_path, resource_path } => vec![data_path, resource_path],
    }
}

/// Puts the packs read from archives in their places.
pub fn place_packs(read: Vec<SerializedProject>) -> (r: Option<SerializedProjectData>)
    ensures
        r == placed_packs(read@),
{
    let ghost given = read@;
    let mut read = read;
    if read.len() == 1 {
        let p = read.pop().unwrap();
        assert(p == given[0]);
        Some(
            match p.project_type {
                SerializedProjectType::Data => SerializedProjectData::Data(p),
                SerializedProjectType::Resource => SerializedProjectData::Resource(p),
            },
        )
    } else if read.len() == 2 {
        let resource_project = read.pop().unwrap();
        let data_project = read.pop().unwrap();
        assert(data_project == given[0] && resource_project == given[1]);
        Some(SerializedProjectData::Combined { data_project, resource_project })
    } else {
        None
    }
}

/// The archive writer's answers behind an export of `pairs`: a success
/// means each pack was written to its own path and the writer answered
/// that it was; a writing failure comes from a write that failed, and is
/// that write's error or the error of the clean-up after it, at the same
/// path.
pub open spec fn export_answered<Z: ZipProvider>(
    archives: Z,
    pairs: Seq<(String, SerializedProject)>,
    overwrite_existing: bool,
    r: Result<(), ProjectServiceError>,
) -> bool {
    &&& r is Ok ==> forall|i: int|
        0 <= i < pairs.len() ==> #[trigger] written(archives, pairs[i], overwrite_existing)
    &&& r matches Err(ProjectServiceError::Zip(ZipError::Zipping(e))) ==> exists|i: int|
        0 <= i < pairs.len() && #[trigger] failed_write(archives, pairs[i], overwrite_existing, e)
}

/// The writer answered a failure for writing this pack to its path, and
/// `e` is that failure or the failure of the clean-up after it.
pub open spec fn failed_write<Z: ZipProvider>(
    archives: Z,
    pair: (String, SerializedProject),
    overwrite_existing: bool,
    e: zip_service::ZipError,
) -> bool {
    exists|w: zip_service::ZipError| #![auto]
        archives.may_zip_as(pair.0@, pair.1, overwrite_existing, Err(w)) && (e == w
            || archives.may_clean_as(pair.0@, Err(e)))
}

/// The writer answered a success for writing this pack to its path.
pub open spec fn written<Z: ZipProvider>(archives: Z, pair: (String, SerializedProject), overwrite_existing: bool) -> bool {
    exists|answer: Result<(), zip_service::ZipError>| #![auto]
        answer is Ok && archives.may_zip_as(pair.0@, pair.1, overwrite_existing, answer)
}

/// The archive reader's answers behind packs read from `paths`: each pack
/// is what the reader answered for the path in its place.
pub open spec fn read_from<Z: ZipProvider>(archives: Z, paths: Seq<String>, read: Seq<SerializedProject>) -> bool {
    &&& read.len() == paths.len()
    &&& forall|i: int| 0 <= i < paths.len() ==> #[trigger] archives.may_extract_as(paths[i]@, Ok(read[i]))
}

/// What writing one archive comes to: a failed write is cleaned up after,
/// and a failed clean-up is reported before the failed write.
pub fn single_export_outcome(
    result: Result<(), zip_service::ZipError>,
    cleanup: Result<(), zip_service::ZipError>,
) -> (r: Result<(), ProjectServiceError>)
    ensures
        result is Ok ==> r is Ok,
        result is Err && cleanup is Err ==> (r matches Err(
            ProjectServiceError::Zip(ZipError::Zipping(e)),
        ) && e == cleanup->Err_0),
        result is Err && cleanup is Ok ==> (r matches Err(
            ProjectServiceError::Zip(ZipError::Zipping(e)),
        ) && e == result->Err_0),
{
    match result {
        Ok(()) => Ok(()),
        Err(e) => match cleanup {
            Err(c) => Err(ProjectServiceError::Zip(ZipError::Zipping(c))),
            Ok(()) => Err(ProjectServiceError::Zip(ZipError::Zipping(e))),
        },
    }
}

/// What writing two archives comes to: the first failure in the order
/// data write, resource write, data clean-up, resource clean-up.
pub fn combined_export_outcome(
    data_result: Result<(), zip_service::ZipError>,
    resource_result: Result<(), zip_service::ZipError>,
    data_cleanup: Result<(), zip_service::ZipError>,
    resource_cleanup: Result<(), zip_service::ZipError>,
) -> (r: Result<(), ProjectServiceError>)
    ensures
        data_result is Err ==> (r matches Err(ProjectServiceError::Zip(ZipError::Zipping(e)))
            && e == data_result->Err_0),
        data_result is Ok && resource_result is Err ==> (r matches Err(
            ProjectServiceError::Zip(ZipError::Zipping(e)),
        ) && e == resource_result->Err_0),
        data_result is Ok && resource_result is Ok && data_cleanup is Err ==> (r matches Err(
            ProjectServiceError::Zip(ZipError::Zipping(e)),
        ) && e == data_cleanup->Err_0),
        data_result is Ok && resource_result is Ok && data_cleanup is Ok && resource_cleanup is Err
            ==> (r matches Err(ProjectServiceError::Zip(ZipError::Zipping(e))) && e
            == resource_cleanup->Err_0),
        r is Ok <==> (data_result is Ok && resource_result is Ok && data_cleanup is Ok
            && resource_cleanup is Ok),
{
    if let Err(e) = data_result {
        return Err(ProjectServiceError::Zip(ZipError::Zipping(e)));
    }
    if let Err(e) = resource_result {
        return Err(ProjectServiceError::Zip(ZipError::Zipping(e)));
    }
    if let Err(e) = data_cleanup {
        return Err(ProjectServiceError::Zip(ZipError::Zipping(e)));
    }
    if let Err(e) = resource_cleanup {
        return Err(ProjectServiceError::Zip(ZipError::Zipping(e)));
    }
    Ok(())
}

/// The project operations, over the open projects, a file system and a
/// reader and writer of archives. `windows` says whether file names follow
/// Windows rules.
pub struct ProjectService<F, Z> {
    projects: ProjectRepository,
    adapters: AdapterRepository,
    filesystem: F,
    zip_provider: Z,
    windows: bool,
}

impl<F: FilesystemProvider, Z: ZipProvider> ProjectService<F, Z> {
    /// Projects can be converted: their adapter, and that of pack
    /// metadata, are registered.
    pub closed spec fn wf(&self) -> bool {
        self.adapters.view().contains(AdapterType::Project) && self.adapters.view().contains(
            AdapterType::PackInfo,
        )
    }

    /// The open projects.
    pub closed spec fn view(&self) -> Map<ProjectID, Project> {
        self.projects.view()
    }

    /// Whether file names follow Windows rules.
    pub closed spec fn spec_windows(&self) -> bool {
        self.windows
    }

    /// The reader and writer of archives.
    pub closed spec fn archives(&self) -> Z {
        self.zip_provider
    }

    /// The file system projects are created on.
    pub closed spec fn filesystem(&self) -> F {
        self.filesystem
    }

    /// No project open.
    pub fn new(filesystem: F, zip_provider: Z, windows: bool) -> (r: Self)
        ensures
            r.wf(),
            r.view() == Map::<ProjectID, Project>::empty(),
            r.spec_windows() == windows,
    {
        let mut adapters = AdapterRepository::new();
        register_default_adapters(&mut adapters);
        ProjectService { projects: ProjectRepository::new(), adapters, filesystem, zip_provider, windows }
    }

    /// The open project with this id.
    pub fn get_project(&self, project_id: ProjectID) -> (r: Option<&Project>)
        ensures
            match r {
                Some(p) => self.view().contains_key(project_id) && *p == self.view()[project_id],
                None => !self.view().contains_key(project_id),
            },
    {
        self.projects.get_project(project_id)
    }

    /// Marks the open project with this id as changed or saved; false
    /// where no such project is open.
    pub fn set_unsaved_changes(&mut self, project_id: ProjectID, unsaved: bool) -> (r: bool)
        ensures
            r == old(self).view().contains_key(project_id),
            r ==> final(self).view() == old(self).view().insert(
                project_id,
                Project { has_unsaved_changes: unsaved, ..old(self).view()[project_id] },
            ),
            !r ==> final(self).view() == old(self).view(),
            final(self).spec_windows() == old(self).spec_windows(),
            final(self).wf() == old(self).wf(),
    {
        self.projects.set_unsaved_changes(project_id, unsaved)
    }

    /// A path made of clean names, segment by segment, on the service's
    /// rules (see `sanitized_path`).
    pub fn sanitize_path(&self, path: &str) -> (r: String)
        ensures
            r@ == sanitized_path(path@, self.spec_windows()),
            forall|i: int| 0 <= i < r@.len() ==> #[trigger] r@[i] == '/' || !illegal_name_char(r@[i]),
    {
        sanitize_path(path, self.windows)
    }

    /// The settings with their path, if they have one, made of clean names.
    pub fn sanitize_project_settings(&self, settings: ProjectSettings) -> (r: ProjectSettings)
        ensures
            settings.spec_path() is None ==> r == settings,
            settings.spec_path() is Some ==> r.spec_path() is Some && r == settings.spec_with_path(
                r.spec_path(),
            ) && r.spec_path()->0@ == sanitized_path(settings.spec_path()->0@, self.spec_windows()),
    {
        let path = match settings.path() {
            Some(p) => Some(self.sanitize_path(p.as_str())),
            None => None,
        };
        match path {
            Some(p) => settings.with_path(Some(p)),
            None => settings,
        }
    }

    /// Makes the project `settings` describe, with its path made of clean
    /// names, and opens it. A project with a path is refused when a file
    /// is already there and overwriting is not allowed, or when looking for
    /// the file fails; what the file system answers is its own to decide.
    pub fn create_project(&mut self, settings: ProjectSettings, overwrite_existing: bool) -> (r: Result<
        ProjectID,
        ProjectServiceError,
    >)
        ensures
            final(self).spec_windows() == old(self).spec_windows(),
            final(self).wf() == old(self).wf(),
            r is Err ==> final(self).view() == old(self).view() && r->Err_0 is RepoError,
            final(self).archives() == old(self).archives(),
            final(self).filesystem() == old(self).filesystem(),
            settings.spec_path() is None ==> r is Ok,
            settings.spec_path() is Some ==> exists|
                path: Seq<char>,
                found: Result<bool, FilesystemProviderError>,
            | #![trigger old(self).filesystem().may_find_as(path, found)]
                old(self).filesystem().may_find_as(path, found) && path == sanitized_path(
                    settings.spec_path()->0@,
                    old(self).spec_windows(),
                ) && (found matches Err(e) ==> (r matches Err(
                    ProjectServiceError::RepoError(ProjectRepoError::Filesystem(x)),
                ) && x == e)) && (found == Ok::<bool, FilesystemProviderError>(true)
                    && !overwrite_existing ==> r matches Err(
                    ProjectServiceError::RepoError(ProjectRepoError::Create(ProjectCreationError::FileAlreadyExists)),
                )) && (found == Ok::<bool, FilesystemProviderError>(false) || (found is Ok
                    && overwrite_existing) ==> r is Ok) && (r is Ok ==> (final(self).view()[r->Ok_0].path
                    matches Some(q) && q@ == path)),
            r is Ok ==> {
                let id = r->Ok_0;
                let p = final(self).view()[id];
                &&& final(self).view() == old(self).view().insert(id, p)
                &&& p.id == id
                &&& exists|s: ProjectSettings| made_from(p, s) && (settings.spec_path() is None ==> s == settings)
                    && (settings.spec_path() is Some ==> s.spec_path() is Some && s
                    == settings.spec_with_path(s.spec_path()) && s.spec_path()->0@ == sanitized_path(
                    settings.spec_path()->0@,
                    old(self).spec_windows(),
                ))
            },
    {
        let sanitized = self.sanitize_project_settings(settings);
        let project = Project::from_settings(sanitized);
        let path_exists = match &project.path {
            Some(p) => self.filesystem.file_exists(p.as_str()),
            None => Ok(false),
        };
        let ghost made = project;
        let ghost found = path_exists;
        proof {
            if settings.spec_path() is Some {
                assert(made_from(made, sanitized));
                assert(self.filesystem().may_find_as(made.path->0@, found));
            }
        }
        match self.projects.add_project(project, overwrite_existing, path_exists) {
            Ok(id) => {
                assert(made_from(made, sanitized));
                Ok(id)
            },
            Err(e) => Err(ProjectServiceError::RepoError(e)),
        }
    }

    /// Closes the open project with this id. An unknown project and one
    /// with unsaved changes are refused and stay as they are; otherwise
    /// the store closes it.
    pub fn close_project(&mut self, project_id: ProjectID) -> (r: Result<(), ProjectServiceError>)
        ensures
            final(self).wf() == old(self).wf(),
            final(self).spec_windows() == old(self).spec_windows(),
            final(self).archives() == old(self).archives(),
            final(self).filesystem() == old(self).filesystem(),
            !old(self).view().contains_key(project_id) ==> (r matches Err(
                ProjectServiceError::ProjectDoesNotExist,
            ) && final(self).view() == old(self).view()),
            old(self).view().contains_key(project_id) && old(self).view()[project_id].has_unsaved_changes
                ==> (r matches Err(ProjectServiceError::CannotCloseUnsavedChanges) && final(self).view()
                == old(self).view()),
            old(self).view().contains_key(project_id) && !old(self).view()[project_id].has_unsaved_changes
                ==> r is Ok && final(self).view() == old(self).view().remove(project_id),
    {
        match self.projects.has_unsaved_changes(project_id) {
            None => Err(ProjectServiceError::ProjectDoesNotExist),
            Some(true) => Err(ProjectServiceError::CannotCloseUnsavedChanges),
            Some(false) => match self.projects.close_project(project_id) {
                Ok(()) => Ok(()),
                Err(e) => Err(ProjectServiceError::RepoError(e)),
            },
        }
    }

    /// Reads packs as a project and opens it.
    pub fn import_packs(&mut self, serialized: &SerializedProjectData) -> (r: Result<
        ProjectID,
        ProjectServiceError,
    >)
        requires
            old(self).wf(),
        ensures
            final(self).wf(),
            final(self).spec_windows() == old(self).spec_windows(),
            (deserialize_project_spec(*serialized) is Project) <==> r is Ok,
            r is Ok ==> {
                let id = r->Ok_0;
                let p = final(self).view()[id];
                &&& final(self).view() == old(self).view().insert(id, p)
                &&& p.id == id
                &&& deserialized_as(Ok(p), deserialize_project_spec(*serialized))
            },
            r is Err ==> final(self).view() == old(self).view() && exists|e| r->Err_0 == import_error(e)
                && deserialized_as(Err(e), deserialize_project_spec(*serialized)),
    {
        match self.adapters.deserialize_project(serialized) {
            Ok(project) => {
                let ghost p = project;
                match self.projects.add_project(project, false, Ok(false)) {
                    Ok(id) => {
                        assert(self.view()[id] == p);
                        Ok(id)
                    },
                    Err(e) => {
                        assert(false);
                        Err(ProjectServiceError::RepoError(e))
                    },
                }
            },
            Err(e) => {
                let ghost g = e;
                proof {
                    match g {
                        AdapterRepoError::DeserializationError(AdapterFailure::ProjectDeserialization(b)) => {
                            assert(import_error(*b) == ProjectServiceError::Zip(ZipError::Deserialization(g)));
                        },
                        _ => {},
                    }
                }
                Err(ProjectServiceError::Zip(ZipError::Deserialization(e)))
            },
        }
    }

    /// Reads a project from its archives and opens it: the archives are
    /// read in the order of `import_paths`, each once, and the packs read
    /// are put in their places (see `placed_packs`) and read as a project
    /// (see `import_packs`). What an archive holds is the archive reader's
    /// to say; a failure to read one, or to read the packs as a project, is
    /// reported and opens nothing.
    pub fn import_zip(&mut self, path: ZipPath) -> (r: Result<ProjectID, ProjectServiceError>)
        requires
            old(self).wf(),
        ensures
            final(self).wf(),
            final(self).spec_windows() == old(self).spec_windows(),
            r is Err ==> final(self).view() == old(self).view(),
            r is Err ==> (r->Err_0 matches ProjectServiceError::Zip(ZipError::Zipping(_))
                || r->Err_0 matches ProjectServiceError::Zip(ZipError::Deserialization(_))),
            r is Ok ==> {
                let id = r->Ok_0;
                let p = final(self).view()[id];
                &&& final(self).view() == old(self).view().insert(id, p)
                &&& p.id == id
                &&& exists|read: Seq<SerializedProject>| #![auto]
                    read_from(old(self).archives(), import_paths(path), read) && placed_packs(read) is Some
                        && deserialized_as(Ok(p), deserialize_project_spec(placed_packs(read)->0))
            },
            r matches Err(ProjectServiceError::Zip(ZipError::Zipping(e))) ==> exists|i: int|
                0 <= i < import_paths(path).len() && #[trigger] old(self).archives().may_extract_as(
                    import_paths(path)[i]@,
                    Err(e),
                ),
            r matches Err(ProjectServiceError::Zip(ZipError::Deserialization(_))) ==> exists|
                read: Seq<SerializedProject>,
            | #![auto]
                read_from(old(self).archives(), import_paths(path), read) && placed_packs(read) is Some
                    && !(deserialize_project_spec(placed_packs(read)->0) is Project) && exists|
                    e: crate::data::adapters::project::ProjectDeserializeError,
                | #![auto]
                    r->Err_0 == import_error(e) && deserialized_as(
                        Err(e),
                        deserialize_project_spec(placed_packs(read)->0),
                    ),
    {
        let ghost given = path;
        let sources = import_sources(path);
        let read = match self.read_archives(&sources) {
            Ok(read) => read,
            Err(e) => {
                assert(sources@ == import_paths(given));
                return Err(ProjectServiceError::Zip(ZipError::Zipping(e)));
            },
        };
        let ghost all = read@;
        let packs = match place_packs(read) {
            Some(packs) => packs,
            None => {
                assert(false);
                return Err(ProjectServiceError::ProjectDoesNotExist);
            },
        };
        let r = self.import_packs(&packs);
        proof {
            assert(read_from(old(self).archives(), import_paths(given), all) && placed_packs(all) is Some);
        }
        r
    }

    /// The packs in the archives at `sources`, read in order, each once,
    /// up to the first that fails.
    fn read_archives(&self, sources: &Vec<String>) -> (r: Result<Vec<SerializedProject>, zip_service::ZipError>)
        ensures
            r is Ok ==> read_from(self.archives(), sources@, r->Ok_0@),
            r matches Err(e) ==> exists|i: int|
                0 <= i < sources@.len() && #[trigger] self.archives().may_extract_as(sources@[i]@, Err(e)),
    {
        let mut read: Vec<SerializedProject> = Vec::new();
        let mut i: usize = 0;
        while i < sources.len()
            invariant
                i <= sources.len(),
                read.len() == i,
                forall|k: int| 0 <= k < i ==> #[trigger] self.archives().may_extract_as(sources@[k]@, Ok(read@[k])),
            decreases sources.len() - i,
        {
            let answer = self.zip_provider.extract(sources[i].as_str());
            match answer {
                Ok(p) => {
                    let ghost before = read@;
                    read.push(p);
                    assert forall|k: int| 0 <= k < i + 1 implies #[trigger] self.archives().may_extract_as(
                        sources@[k]@,
                        Ok(read@[k]),
                    ) by {
                        if k < i {
                            assert(read@[k] == before[k]);
                        }
                    }
                },
                Err(e) => {
                    assert(self.archives().may_extract_as(sources@[i as int]@, Err(e)));
                    return Err(e);
                },
            }
            i = i + 1;
        }
        Ok(read)
    }

    /// The packs the open project with this id is written as.
    fn packs_of(&self, project_id: ProjectID) -> (r: Option<(SerializedProjectData, ProjectType)>)
        requires
            self.wf(),
            self.view().contains_key(project_id) ==> has_formats(self.view()[project_id]),
        ensures
            match r {
                Some((s, t)) => self.view().contains_key(project_id) && serialized_from(
                    self.view()[project_id],
                    s,
                ) && t == kind_of(self.view()[project_id].pack_info),
                None => !self.view().contains_key(project_id),
            },
    {
        match self.projects.get_project(project_id) {
            None => None,
            Some(project) => {
                match self.adapters.serialize_project(project) {
                    Ok(s) => Some((s, project.project_type())),
                    Err(_) => None,
                }
            },
        }
    }

    /// Each archive path with the pack the open project with this id writes
    /// there, in the order written. An unknown project, and archives that do
    /// not fit the kind of project, are refused.
    pub fn export_plan(&self, zip_data: ProjectZipData) -> (r: Result<
        Vec<(String, SerializedProject)>,
        ProjectServiceError,
    >)
        requires
            self.wf(),
            self.view().contains_key(zip_data.project_id) ==> has_formats(
                self.view()[zip_data.project_id],
            ),
        ensures
            !self.view().contains_key(zip_data.project_id) <==> r matches Err(
                ProjectServiceError::ProjectDoesNotExist,
            ),
            self.view().contains_key(zip_data.project_id) && !path_fits_kind(
                zip_data.path,
                kind_of(self.view()[zip_data.project_id].pack_info),
            ) <==> r matches Err(ProjectServiceError::Zip(ZipError::MismatchedPaths(_, _))),
            r matches Err(ProjectServiceError::Zip(ZipError::MismatchedPaths(t, p))) ==> t == kind_of(
                self.view()[zip_data.project_id].pack_info,
            ) && p == zip_data.path,
            r is Ok <==> self.view().contains_key(zip_data.project_id) && path_fits_kind(
                zip_data.path,
                kind_of(self.view()[zip_data.project_id].pack_info),
            ),
            r is Ok ==> exists|s: SerializedProjectData| #![auto]
                serialized_from(self.view()[zip_data.project_id], s) && export_pairs(
                    zip_data.path,
                    s,
                ) == Some(r->Ok_0@),
    {
        let (serialized, project_type) = match self.packs_of(zip_data.project_id) {
            Some(x) => x,
            None => {
                return Err(ProjectServiceError::ProjectDoesNotExist);
            },
        };
        let ghost s = serialized;
        let r = match (zip_data.path, serialized) {
            (ZipPath::Single(p), SerializedProjectData::Data(sp)) => Ok(vec![(p, sp)]),
            (ZipPath::Single(p), SerializedProjectData::Resource(sp)) => Ok(vec![(p, sp)]),
            (
                ZipPath::Combined { data_path, resource_path },
                SerializedProjectData::Combined { data_project, resource_project },
            ) => Ok(vec![(data_path, data_project), (resource_path, resource_project)]),
            (path, _) => Err(ProjectServiceError::Zip(ZipError::MismatchedPaths(project_type, path))),
        };
        proof {
            if r is Ok {
                assert(export_pairs(zip_data.path, s) == Some(r->Ok_0@));
            }
        }
        r
    }

    /// Writes the open project with this id to archives: one for a project
    /// of one pack, one per pack for a project of both, each pack to the
    /// path `export_plan` gives it. An unknown project, and archives that
    /// do not fit the kind of project, are refused before anything is
    /// written. A failed write is cleaned up after; whether a write or a
    /// clean-up succeeds is the archive writer's to decide.
    pub fn export_zip(&self, zip_data: ProjectZipData, overwrite_existing: bool) -> (r: Result<
        (),
        ProjectServiceError,
    >)
        requires
            self.wf(),
            self.view().contains_key(zip_data.project_id) ==> has_formats(
                self.view()[zip_data.project_id],
            ),
        ensures
            !self.view().contains_key(zip_data.project_id) <==> r matches Err(
                ProjectServiceError::ProjectDoesNotExist,
            ),
            self.view().contains_key(zip_data.project_id) && !path_fits_kind(
                zip_data.path,
                kind_of(self.view()[zip_data.project_id].pack_info),
            ) <==> r matches Err(ProjectServiceError::Zip(ZipError::MismatchedPaths(_, _))),
            r matches Err(ProjectServiceError::Zip(ZipError::MismatchedPaths(t, p))) ==> t == kind_of(
                self.view()[zip_data.project_id].pack_info,
            ) && p == zip_data.path,
            self.view().contains_key(zip_data.project_id) && path_fits_kind(
                zip_data.path,
                kind_of(self.view()[zip_data.project_id].pack_info),
            ) ==> r is Ok || r matches Err(ProjectServiceError::Zip(ZipError::Zipping(_))),
            self.view().contains_key(zip_data.project_id) && path_fits_kind(
                zip_data.path,
                kind_of(self.view()[zip_data.project_id].pack_info),
            ) ==> exists|s: SerializedProjectData| #![auto]
                serialized_from(self.view()[zip_data.project_id], s) && export_pairs(zip_data.path, s) is Some
                    && export_answered(
                    self.archives(),
                    export_pairs(zip_data.path, s)->0,
                    overwrite_existing,
                    r,
                ),
    {
        let ghost path = zip_data.path;
        let ghost id = zip_data.project_id;
        let plan = match self.export_plan(zip_data) {
            Ok(plan) => plan,
            Err(e) => {
                return Err(e);
            },
        };
        let ghost s = choose|s: SerializedProjectData| #![auto]
            serialized_from(self.view()[id], s) && export_pairs(path, s) == Some(plan@);
        let ghost pairs = plan@;
        let r = if plan.len() == 1 {
            let result = self.write_archive(&plan[0], overwrite_existing);
            let cleanup = match &result {
                Err(_) => self.clean_archive(&plan[0]),
                Ok(()) => Ok(()),
            };
            let r = single_export_outcome(result, cleanup);
            proof {
                assert forall|i: int| 0 <= i < pairs.len() && r is Ok implies #[trigger] written(
                    self.archives(),
                    pairs[i],
                    overwrite_existing,
                ) by {
                    assert(i == 0);
                    assert(result is Ok && self.archives().may_zip_as(pairs[0].0@, pairs[0].1, overwrite_existing, result));
                }
                if r is Err {
                    assert(self.archives().may_zip_as(pairs[0].0@, pairs[0].1, overwrite_existing, result));
                    assert(self.archives().may_clean_as(pairs[0].0@, cleanup));
                    let e = r->Err_0->Zip_0->Zipping_0;
                    assert(failed_write(self.archives(), pairs[0], overwrite_existing, e));
                }
            }
            r
        } else {
            let data_result = self.write_archive(&plan[0], overwrite_existing);
            let resource_result = self.write_archive(&plan[1], overwrite_existing);
            let data_cleanup = match &data_result {
                Err(_) => self.clean_archive(&plan[0]),
                Ok(()) => Ok(()),
            };
            let resource_cleanup = match &resource_result {
                Err(_) => self.clean_archive(&plan[1]),
                Ok(()) => Ok(()),
            };
            let r = combined_export_outcome(data_result, resource_result, data_cleanup, resource_cleanup);
            proof {
                assert forall|i: int| 0 <= i < pairs.len() && r is Ok implies #[trigger] written(
                    self.archives(),
                    pairs[i],
                    overwrite_existing,
                ) by {
                    assert(i == 0 || i == 1);
                    assert(data_result is Ok && self.archives().may_zip_as(pairs[0].0@, pairs[0].1, overwrite_existing, data_result));
                    assert(resource_result is Ok && self.archives().may_zip_as(pairs[1].0@, pairs[1].1, overwrite_existing, resource_result));
                }
                assert(self.archives().may_zip_as(pairs[0].0@, pairs[0].1, overwrite_existing, data_result));
                assert(self.archives().may_zip_as(pairs[1].0@, pairs[1].1, overwrite_existing, resource_result));
                if data_result is Err {
                    assert(self.archives().may_clean_as(pairs[0].0@, data_cleanup));
                }
                if resource_result is Err {
                    assert(self.archives().may_clean_as(pairs[1].0@, resource_cleanup));
                }
                if r is Err {
                    let e = r->Err_0->Zip_0->Zipping_0;
                    if data_result is Err {
                        assert(e == data_result->Err_0);
                        assert(failed_write(self.archives(), pairs[0], overwrite_existing, e));
                    } else {
                        assert(resource_result is Err && e == resource_result->Err_0);
                        assert(failed_write(self.archives(), pairs[1], overwrite_existing, e));
                    }
                }
            }
            r
        };
        assert(export_answered(self.archives(), pairs, overwrite_existing, r));
        r
    }

    /// Writes one pack to its archive.
    fn write_archive(&self, entry: &(String, SerializedProject), overwrite_existing: bool) -> (r: Result<
        (),
        zip_service::ZipError,
    >)
        ensures
            self.archives().may_zip_as(entry.0@, entry.1, overwrite_existing, r),
    {
        self.zip_provider.zip(entry.0.as_str(), &entry.1, overwrite_existing)
    }

    /// Removes what a failed write of one pack left at its archive's path.
    fn clean_archive(&self, entry: &(String, SerializedProject)) -> (r: Result<(), zip_service::ZipError>)
        ensures
            self.archives().may_clean_as(entry.0@, r),
    {
        self.zip_provider.cleanup_file(entry.0.as_str())
    }
}

} // verus!
