//! The open projects, by id.
use vstd::prelude::*;
use std::collections::HashMap;
use crate::data::domain::project::{Project, ProjectID};
use crate::services::filesystem_service::FilesystemProviderError;

verus! {

broadcast use vstd::std_specs::hash::group_hash_axioms;

/// The extension of project files.
pub const PROJECT_EXTENSION: &'static str = "json";

/// Why a project could not be made.
#[derive(Debug, Clone, PartialEq, Eq)]
pub enum ProjectCreationError {
    FileAlreadyExists,
    InvalidPath(String),
}

/// Why a project could not be opened.
#[derive(Debug, Clone, Copy, PartialEq, Eq, Structural)]
pub enum ProjectOpenError {
    AlreadyOpen,
}

/// Why a project could not be closed.
#[derive(Debug, Clone, Copy, PartialEq, Eq, Structural)]
pub enum ProjectCloseError {
    FileNotOpen,
}

/// Why the store of projects refused an operation.
#[derive(Debug, Clone, PartialEq, Eq)]
pub enum ProjectRepoError {
    Filesystem(FilesystemProviderError),
    Create(ProjectCreationError),
    Open(ProjectOpenError),
    Save,
    Close(ProjectCloseError),
}

impl ProjectCreationError {
    /// The message the error reads as.
    pub fn to_string(&self) -> (r: String)
        ensures
            self is FileAlreadyExists ==> r@ == "File Already Exists!"@,
            self matches ProjectCreationError::InvalidPath(p) ==> r@ == "Invalid Path: "@ + p@ + "!"@,
    {
        match self {
            ProjectCreationError::FileAlreadyExists => "File Already Exists!".to_owned(),
            ProjectCreationError::InvalidPath(p) => {
                let mut r = "Invalid Path: ".to_owned();
                r.append(p.as_str());
                r.append("!");
                r
            },
        }
    }
}

impl ProjectOpenError {
    /// The message the error reads as.
    pub fn to_string(&self) -> (r: String)
        ensures
            r@ == "File Already Open!"@,
    {
        "File Already Open!".to_owned()
    }
}

impl ProjectCloseError {
    /// The message the error reads as.
    pub fn to_string(&self) -> (r: String)
        ensures
            r@ == "File Not Open!"@,
    {
        "File Not Open!".to_owned()
    }
}

impl ProjectRepoError {
    /// The message the error reads as: that of the error it wraps, or the
    /// one of a failed save.
    pub fn to_string(&self) -> (r: String)
        ensures
            self is Save ==> r@ == "Could not save project!"@,
            self matches ProjectRepoError::Create(e) ==> (e is FileAlreadyExists ==> r@ == "File Already Exists!"@),
            self matches ProjectRepoError::Open(e) ==> r@ == "File Already Open!"@,
            self matches ProjectRepoError::Close(e) ==> r@ == "File Not Open!"@,
    {
        match self {
            ProjectRepoError::Filesystem(e) => e.to_string(),
            ProjectRepoError::Create(e) => e.to_string(),
            ProjectRepoError::Open(e) => e.to_string(),
            ProjectRepoError::Save => "Could not save project!".to_owned(),
            ProjectRepoError::Close(e) => e.to_string(),
        }
    }
}

/// The open projects, by id.
pub struct ProjectRepository {
    projects: HashMap<ProjectID, Project>,
}

impl ProjectRepository {
    /// The open projects.
    pub closed spec fn view(&self) -> Map<ProjectID, Project> {
        self.projects@
    }

    /// No project open.
    pub fn new() -> (r: Self)
        ensures
            r.view() == Map::<ProjectID, Project>::empty(),
    {
        ProjectRepository { projects: HashMap::new() }
    }

    /// No project open.
    pub fn default() -> (r: Self)
        ensures
            r.view() == Map::<ProjectID, Project>::empty(),
    {
        Self::new()
    }

    /// The extension of project files: `json`.
    pub fn get_project_extension(&self) -> (r: &'static str)
        ensures
            r@ == PROJECT_EXTENSION@,
    {
        PROJECT_EXTENSION
    }

    /// Opens a project under its id, replacing any open project with that
    /// id. A project with a path is refused when a file is already there
    /// and overwriting is not allowed; `path_exists` is what looking for
    /// that file found, or why looking failed. A project without a path is
    /// always added and `path_exists` is not consulted.
    pub fn add_project(
        &mut self,
        project: Project,
        overwrite_existing: bool,
        path_exists: Result<bool, FilesystemProviderError>,
    ) -> (r: Result<ProjectID, ProjectRepoError>)
        ensures
            project.path is Some && path_exists is Err ==> r == Err::<ProjectID, ProjectRepoError>(
                ProjectRepoError::Filesystem(path_exists->Err_0),
            ),
            project.path is Some && path_exists == Ok::<bool, FilesystemProviderError>(true)
                && !overwrite_existing ==> r == Err::<ProjectID, ProjectRepoError>(
                ProjectRepoError::Create(ProjectCreationError::FileAlreadyExists),
            ),
            r is Err ==> final(self).view() == old(self).view(),
            (project.path is None || path_exists == Ok::<bool, FilesystemProviderError>(false)
                || (path_exists is Ok && overwrite_existing)) ==> r == Ok::<
                ProjectID,
                ProjectRepoError,
            >(project.id),
            r is Ok ==> r->Ok_0 == project.id && final(self).view() == old(self).view().insert(
                project.id,
                project,
            ),
    {
        if project.path.is_some() {
            match path_exists {
                Err(e) => {
                    return Err(ProjectRepoError::Filesystem(e));
                },
                Ok(exists) => {
                    if exists && !overwrite_existing {
                        return Err(ProjectRepoError::Create(ProjectCreationError::FileAlreadyExists));
                    }
                },
            }
        }
        let id = project.id;
        self.projects.insert(id, project);
        Ok(id)
    }

    /// Closes the open project with this id; one that is not open is
    /// refused and nothing changes.
    pub fn close_project(&mut self, project_id: ProjectID) -> (r: Result<(), ProjectRepoError>)
        ensures
            old(self).view().contains_key(project_id) ==> r is Ok && final(self).view() == old(
                self,
            ).view().remove(project_id),
            !old(self).view().contains_key(project_id) ==> r == Err::<(), ProjectRepoError>(
                ProjectRepoError::Close(ProjectCloseError::FileNotOpen),
            ) && final(self).view() == old(self).view(),
    {
        match self.projects.remove(&project_id) {
            Some(_) => Ok(()),
            None => Err(ProjectRepoError::Close(ProjectCloseError::FileNotOpen)),
        }
    }

    /// The open project with this id.
    pub fn get_project(&self, project_id: ProjectID) -> (r: Option<&Project>)
        ensures
            match r {
                Some(p) => self.view().contains_key(project_id) && *p == self.view()[project_id],
                None => !self.view().contains_key(project_id),
            },
    {
        self.projects.get(&project_id)
    }

    /// Whether the open project with this id has unsaved changes; `None`
    /// where no such project is open.
    pub fn has_unsaved_changes(&self, project_id: ProjectID) -> (r: Option<bool>)
        ensures
            match r {
                Some(b) => self.view().contains_key(project_id) && b == self.view()[project_id].has_unsaved_changes,
                None => !self.view().contains_key(project_id),
            },
    {
        match self.projects.get(&project_id) {
            Some(p) => Some(p.has_unsaved_changes),
            None => None,
        }
    }

    /// Marks the open project with this id as changed or saved; false
    /// where no such project is open.
    pub fn set_unsaved_changes(&mut self, project_id: ProjectID, unsaved: bool) -> (r: bool)
        ensures
            r == old(self).view().contains_key(project_id),
            r ==> final(self).view() == old(self).view().insert(
                project_id,
                Project { has_unsaved_changes: unsaved, ..old(self).view()[project_id] },
            ),
            !r ==> final(self).view() == old(self).view(),
    {
        match self.projects.remove(&project_id) {
            Some(mut p) => {
                p.has_unsaved_changes = unsaved;
                self.projects.insert(project_id, p);
                proof {
                    assert(self.view() =~= old(self).view().insert(
                        project_id,
                        Project { has_unsaved_changes: unsaved, ..old(self).view()[project_id] },
                    ));
                }
                true
            },
            None => {
                proof {
                    assert(self.view() =~= old(self).view());
                }
                false
            },
        }
    }
}

} // verus!
