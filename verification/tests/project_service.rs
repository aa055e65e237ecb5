use std::cell::RefCell;
use std::rc::Rc;

use gaea::data::adapters::project::{ProjectAdapter, SerializedProjectData};
use gaea::data::domain::pack_info::PackDescription;
use gaea::data::domain::project::{ProjectSettings, ProjectType, ProjectVersion};
use gaea::data::serialization::pack_info::PackInfo as SerializedPackInfo;
use gaea::data::serialization::project::{Project as SerializedProject, SerializedProjectType};
use gaea::mc_version::MinecraftVersion;
use gaea::repositories::project_repo::{ProjectCreationError, ProjectRepoError};
use gaea::services::filesystem_service::{
    FileDeleteOptions, FilesystemProvider, FilesystemProviderError, PathValidationStatus,
};
use gaea::services::project_service::{
    combined_export_outcome, import_sources, place_packs, single_export_outcome, ProjectService,
    ProjectServiceError, ProjectZipData, ZipError, ZipPath,
};
use gaea::services::zip_service::{self, ZipProvider};

struct Disk {
    existing: Vec<String>,
    broken: bool,
}

impl FilesystemProvider for Disk {
    fn file_exists(&self, path: &str) -> Result<bool, FilesystemProviderError> {
        if self.broken {
            return Err(FilesystemProviderError::IO("disk unavailable".to_string()));
        }
        Ok(self.existing.iter().any(|p| p == path))
    }

    fn validate_path(&self, _path: &str) -> Result<PathValidationStatus, FilesystemProviderError> {
        Ok(PathValidationStatus::Missing { missing_segment_index: 1 })
    }

    fn list_directory(&self, _path: &str) -> Result<Vec<String>, FilesystemProviderError> {
        Ok(Vec::new())
    }

    fn is_directory(&self, _path: &str) -> Result<bool, FilesystemProviderError> {
        Ok(false)
    }

    fn read_file(&self, path: &str) -> Result<Vec<u8>, FilesystemProviderError> {
        Err(FilesystemProviderError::IO(format!("no file at {}", path)))
    }

    fn delete_file(&self, _path: &str, _options: FileDeleteOptions) -> Result<(), FilesystemProviderError> {
        Ok(())
    }
}

#[derive(Default)]
struct Archives {
    stored: Rc<RefCell<Vec<(String, SerializedProject, bool)>>>,
    cleaned: Rc<RefCell<Vec<String>>>,
    fail_writes: bool,
    fail_cleanup: bool,
    to_read: Vec<(String, SerializedProject)>,
}

impl ZipProvider for Archives {
    fn extract(&self, path: &str) -> Result<SerializedProject, zip_service::ZipError> {
        for (p, project) in &self.to_read {
            if p == path {
                return Ok(project.clone());
            }
        }
        Err(zip_service::ZipError::InvalidPath(path.to_string()))
    }

    fn zip(&self, path: &str, data: &SerializedProject, overwrite_existing: bool) -> Result<(), zip_service::ZipError> {
        if self.fail_writes {
            return Err(zip_service::ZipError::ZipArchiveError("write failed".to_string()));
        }
        self.stored.borrow_mut().push((path.to_string(), data.clone(), overwrite_existing));
        Ok(())
    }

    fn cleanup_file(&self, path: &str) -> Result<(), zip_service::ZipError> {
        self.cleaned.borrow_mut().push(path.to_string());
        if self.fail_cleanup {
            return Err(zip_service::ZipError::ZipArchiveError("cleanup failed".to_string()));
        }
        Ok(())
    }
}

fn disk() -> Disk {
    Disk { existing: Vec::new(), broken: false }
}

fn version() -> ProjectVersion {
    ProjectVersion::from_version(MinecraftVersion::new(20, 4))
}

fn data_settings(name: &str, path: Option<&str>) -> ProjectSettings {
    ProjectSettings::DataPack {
        name: name.to_string(),
        description: PackDescription::new("A data pack".to_string()),
        path: path.map(|p| p.to_string()),
        project_version: version(),
    }
}

fn combined_settings(name: &str) -> ProjectSettings {
    ProjectSettings::Combined {
        name: name.to_string(),
        data_description: PackDescription::new("Data".to_string()),
        resource_description: PackDescription::new("Resources".to_string()),
        path: None,
        project_version: version(),
    }
}

#[test]
fn test_create_project_concurrent() {
    let mut service = ProjectService::new(disk(), Archives::default(), false);
    let first = service.create_project(data_settings("one", None), false).unwrap();
    let second = service.create_project(data_settings("two", None), false).unwrap();
    assert_ne!(first, second);
    assert_eq!(service.get_project(first).unwrap().name, "one");
    assert_eq!(service.get_project(second).unwrap().name, "two");
}

#[test]
fn test_close_project_concurrent() {
    let mut service = ProjectService::new(disk(), Archives::default(), false);
    let id = service.create_project(data_settings("one", None), false).unwrap();
    assert!(service.set_unsaved_changes(id, true));
    assert!(matches!(service.close_project(id), Err(ProjectServiceError::CannotCloseUnsavedChanges)));
    assert!(matches!(service.close_project(id + 1), Err(ProjectServiceError::ProjectDoesNotExist)));
}

#[test]
fn test_save_project_concurrent() {
    let mut service = ProjectService::new(disk(), Archives::default(), false);
    let id = service.create_project(data_settings("one", None), false).unwrap();
    assert!(!service.get_project(id).unwrap().has_unsaved_changes);
    assert!(service.set_unsaved_changes(id, true));
    assert!(service.get_project(id).unwrap().has_unsaved_changes);
    assert!(service.set_unsaved_changes(id, false));
    assert!(!service.get_project(id).unwrap().has_unsaved_changes);
}

#[test]
fn create_project_sanitizes_its_path() {
    let mut service = ProjectService::new(disk(), Archives::default(), false);
    let id = service.create_project(data_settings("odd", Some("projects/my:pack?/x*y")), false).unwrap();
    let project = service.get_project(id).unwrap();
    assert_eq!(project.path.as_deref(), Some("projects/my_pack_/x_y"));
    assert_eq!(project.project_type(), ProjectType::DataPack);
}

#[test]
fn create_project_refuses_an_existing_file() {
    let existing = Disk { existing: vec!["out/pack".to_string()], broken: false };
    let mut service = ProjectService::new(existing, Archives::default(), false);
    let r = service.create_project(data_settings("a", Some("out/pack")), false);
    assert!(matches!(
        r,
        Err(ProjectServiceError::RepoError(ProjectRepoError::Create(ProjectCreationError::FileAlreadyExists)))
    ));
    let id = service.create_project(data_settings("a", Some("out/pack")), true).unwrap();
    assert!(service.get_project(id).is_some());
}

#[test]
fn create_project_reports_a_failing_disk() {
    let broken = Disk { existing: Vec::new(), broken: true };
    let mut service = ProjectService::new(broken, Archives::default(), false);
    let r = service.create_project(data_settings("a", Some("out/pack")), false);
    assert!(matches!(r, Err(ProjectServiceError::RepoError(ProjectRepoError::Filesystem(_)))));
    assert!(service.create_project(data_settings("b", None), false).is_ok());
}

#[test]
fn export_single_pack_writes_one_archive() {
    let mut service = ProjectService::new(disk(), Archives::default(), false);
    let id = service.create_project(data_settings("one", None), false).unwrap();
    let r = service.export_zip(ProjectZipData { project_id: id, path: ZipPath::Single("one.zip".to_string()) }, true);
    assert!(r.is_ok());
}

#[test]
fn export_refuses_paths_that_do_not_fit() {
    let mut service = ProjectService::new(disk(), Archives::default(), false);
    let id = service.create_project(combined_settings("both"), false).unwrap();
    let r = service.export_zip(ProjectZipData { project_id: id, path: ZipPath::Single("both.zip".to_string()) }, false);
    assert!(matches!(r, Err(ProjectServiceError::Zip(ZipError::MismatchedPaths(ProjectType::Combined, _)))));
    let r = service.export_zip(
        ProjectZipData {
            project_id: id,
            path: ZipPath::Combined { data_path: "d.zip".to_string(), resource_path: "r.zip".to_string() },
        },
        false,
    );
    assert!(r.is_ok());
    let r = service.export_zip(ProjectZipData { project_id: id + 1, path: ZipPath::Single("x.zip".to_string()) }, false);
    assert!(matches!(r, Err(ProjectServiceError::ProjectDoesNotExist)));
}

#[test]
fn export_failure_cleans_up() {
    let archives = Archives { fail_writes: true, ..Archives::default() };
    let mut service = ProjectService::new(disk(), archives, false);
    let id = service.create_project(data_settings("one", None), false).unwrap();
    let r = service.export_zip(ProjectZipData { project_id: id, path: ZipPath::Single("one.zip".to_string()) }, false);
    assert!(matches!(r, Err(ProjectServiceError::Zip(ZipError::Zipping(zip_service::ZipError::ZipArchiveError(_))))));
}

#[test]
fn import_reads_a_data_pack() {
    let pack = SerializedProject::with_name("imported".to_string(), SerializedProjectType::Data, SerializedPackInfo::default_data());
    let archives = Archives { to_read: vec![("in.zip".to_string(), pack)], ..Archives::default() };
    let mut service = ProjectService::new(disk(), archives, false);
    let id = service.import_zip(ZipPath::Single("in.zip".to_string())).unwrap();
    let project = service.get_project(id).unwrap();
    assert_eq!(project.name, "imported");
    assert_eq!(project.project_type(), ProjectType::DataPack);
    assert_eq!(project.project_version.version, MinecraftVersion::new(21, 7));
    assert!(project.path.is_none());
}

#[test]
fn import_reports_a_missing_archive() {
    let mut service = ProjectService::new(disk(), Archives::default(), false);
    let r = service.import_zip(ZipPath::Single("missing.zip".to_string()));
    assert!(matches!(r, Err(ProjectServiceError::Zip(ZipError::Zipping(zip_service::ZipError::InvalidPath(_))))));
}

#[test]
fn import_combined_with_a_resource_pack_as_data_is_refused() {
    let resource = SerializedProject::new(SerializedProjectType::Resource, SerializedPackInfo::default_resource());
    let archives = Archives {
        to_read: vec![("d.zip".to_string(), resource.clone()), ("r.zip".to_string(), resource)],
        ..Archives::default()
    };
    let mut service = ProjectService::new(disk(), archives, false);
    let r = service.import_zip(ZipPath::Combined { data_path: "d.zip".to_string(), resource_path: "r.zip".to_string() });
    assert!(matches!(r, Err(ProjectServiceError::Zip(ZipError::Deserialization(_)))));
}

#[test]
fn export_then_import_keeps_the_formats() {
    let mut service = ProjectService::new(disk(), Archives::default(), false);
    let id = service.create_project(data_settings("round", None), false).unwrap();
    let project = service.get_project(id).unwrap().clone();
    let packs = ProjectAdapter::serialize(&project).unwrap();
    let id2 = service.import_packs(&packs).unwrap();
    let back = service.get_project(id2).unwrap();
    assert_eq!(back.pack_info, project.pack_info);
    assert_eq!(back.name, "");
    assert_eq!(back.project_version.version, MinecraftVersion::new(20, 3));
    assert!(matches!(packs, SerializedProjectData::Data(_)));
}

#[test]
fn export_outcomes_follow_their_order() {
    let fail = |m: &str| Err(zip_service::ZipError::ZipArchiveError(m.to_string()));
    assert!(single_export_outcome(Ok(()), Ok(())).is_ok());
    let r = single_export_outcome(fail("write"), fail("cleanup"));
    assert!(matches!(r, Err(ProjectServiceError::Zip(ZipError::Zipping(zip_service::ZipError::ZipArchiveError(m)))) if m == "cleanup"));
    let r = single_export_outcome(fail("write"), Ok(()));
    assert!(matches!(r, Err(ProjectServiceError::Zip(ZipError::Zipping(zip_service::ZipError::ZipArchiveError(m)))) if m == "write"));
    let r = combined_export_outcome(Ok(()), fail("resource"), fail("data cleanup"), Ok(()));
    assert!(matches!(r, Err(ProjectServiceError::Zip(ZipError::Zipping(zip_service::ZipError::ZipArchiveError(m)))) if m == "resource"));
    let r = combined_export_outcome(Ok(()), Ok(()), fail("data cleanup"), fail("resource cleanup"));
    assert!(matches!(r, Err(ProjectServiceError::Zip(ZipError::Zipping(zip_service::ZipError::ZipArchiveError(m)))) if m == "data cleanup"));
    assert!(combined_export_outcome(Ok(()), Ok(()), Ok(()), Ok(())).is_ok());
}

#[test]
fn export_combined_writes_each_pack_to_its_own_path() {
    let mut service = ProjectService::new(disk(), Archives::default(), false);
    let id = service.create_project(combined_settings("both"), false).unwrap();
    let path = ZipPath::Combined { data_path: "d.zip".to_string(), resource_path: "r.zip".to_string() };
    let plan = service.export_plan(ProjectZipData { project_id: id, path: path.clone() }).unwrap();
    assert_eq!(plan.len(), 2);
    assert_eq!(plan[0].0, "d.zip");
    assert_eq!(plan[0].1.project_type, SerializedProjectType::Data);
    assert_eq!(plan[1].0, "r.zip");
    assert_eq!(plan[1].1.project_type, SerializedProjectType::Resource);
}

#[test]
fn export_plan_of_one_pack_names_its_path() {
    let mut service = ProjectService::new(disk(), Archives::default(), false);
    let id = service.create_project(data_settings("one", None), false).unwrap();
    let plan = service.export_plan(ProjectZipData { project_id: id, path: ZipPath::Single("one.zip".to_string()) }).unwrap();
    assert_eq!(plan.len(), 1);
    assert_eq!(plan[0].0, "one.zip");
    assert_eq!(plan[0].1.project_type, SerializedProjectType::Data);
    let r = service.export_plan(ProjectZipData { project_id: id + 1, path: ZipPath::Single("x.zip".to_string()) });
    assert!(matches!(r, Err(ProjectServiceError::ProjectDoesNotExist)));
    let r = service.export_plan(ProjectZipData {
        project_id: id,
        path: ZipPath::Combined { data_path: "d.zip".to_string(), resource_path: "r.zip".to_string() },
    });
    assert!(matches!(r, Err(ProjectServiceError::Zip(ZipError::MismatchedPaths(ProjectType::DataPack, _)))));
}

#[test]
fn import_sources_list_the_data_archive_first() {
    assert_eq!(import_sources(ZipPath::Single("p.zip".to_string())), vec!["p.zip".to_string()]);
    assert_eq!(
        import_sources(ZipPath::Combined { data_path: "d.zip".to_string(), resource_path: "r.zip".to_string() }),
        vec!["d.zip".to_string(), "r.zip".to_string()]
    );
}

#[test]
fn packs_read_go_to_their_places() {
    let data = SerializedProject::with_name("d".to_string(), SerializedProjectType::Data, SerializedPackInfo::default_data());
    let resource = SerializedProject::with_name("r".to_string(), SerializedProjectType::Resource, SerializedPackInfo::default_resource());
    assert!(matches!(place_packs(vec![resource.clone()]), Some(SerializedProjectData::Resource(p)) if p.name == "r"));
    assert!(matches!(place_packs(vec![data.clone()]), Some(SerializedProjectData::Data(p)) if p.name == "d"));
    match place_packs(vec![data.clone(), resource.clone()]) {
        Some(SerializedProjectData::Combined { data_project, resource_project }) => {
            assert_eq!(data_project.name, "d");
            assert_eq!(resource_project.name, "r");
        },
        _ => panic!("two packs make a combined project"),
    }
    assert!(place_packs(Vec::new()).is_none());
    assert!(place_packs(vec![data.clone(), resource.clone(), data]).is_none());
}

#[test]
fn import_combined_reads_each_slot_from_its_own_path() {
    let data = SerializedProject::with_name("both".to_string(), SerializedProjectType::Data, SerializedPackInfo::default_data());
    let resource = SerializedProject::with_name("both".to_string(), SerializedProjectType::Resource, SerializedPackInfo::default_resource());
    let archives = Archives {
        to_read: vec![("d.zip".to_string(), data), ("r.zip".to_string(), resource)],
        ..Archives::default()
    };
    let mut service = ProjectService::new(disk(), archives, false);
    let id = service
        .import_zip(ZipPath::Combined { data_path: "d.zip".to_string(), resource_path: "r.zip".to_string() })
        .unwrap();
    assert_eq!(service.get_project(id).unwrap().project_type(), ProjectType::Combined);
    let swapped = service.import_zip(ZipPath::Combined { data_path: "r.zip".to_string(), resource_path: "d.zip".to_string() });
    assert!(matches!(swapped, Err(ProjectServiceError::Zip(ZipError::Deserialization(_)))));
}

#[test]
fn export_failure_cleans_up_the_path_written() {
    let archives = Archives { fail_writes: true, ..Archives::default() };
    let cleaned = archives.cleaned.clone();
    let mut service = ProjectService::new(disk(), archives, false);
    let id = service.create_project(combined_settings("both"), false).unwrap();
    let r = service.export_zip(
        ProjectZipData {
            project_id: id,
            path: ZipPath::Combined { data_path: "d.zip".to_string(), resource_path: "r.zip".to_string() },
        },
        false,
    );
    assert!(matches!(r, Err(ProjectServiceError::Zip(ZipError::Zipping(_)))));
    assert_eq!(*cleaned.borrow(), vec!["d.zip".to_string(), "r.zip".to_string()]);
}

#[test]
fn test_export_combined_project() {
    let archives = Archives::default();
    let stored = archives.stored.clone();
    let cleaned = archives.cleaned.clone();
    let mut service = ProjectService::new(disk(), archives, false);
    let settings = ProjectSettings::Combined {
        name: "Test Project".to_string(),
        data_description: PackDescription::new("Test Description".to_string()),
        resource_description: PackDescription::new("Test Description".to_string()),
        path: Some("test/file/path".to_string()),
        project_version: version(),
    };
    let id = service.create_project(settings, false).unwrap();
    let path = ZipPath::Combined {
        data_path: "test/file/path_data.zip".to_string(),
        resource_path: "test/file/path_resource.zip".to_string(),
    };
    let r = service.export_zip(ProjectZipData { project_id: id, path }, false);
    assert!(r.is_ok());
    let stored = stored.borrow();
    assert_eq!(stored.len(), 2);
    assert_eq!(stored[0].0, "test/file/path_data.zip");
    assert_eq!(stored[0].1.project_type, SerializedProjectType::Data);
    assert!(!stored[0].2);
    assert_eq!(stored[1].0, "test/file/path_resource.zip");
    assert_eq!(stored[1].1.project_type, SerializedProjectType::Resource);
    assert!(cleaned.borrow().is_empty());
}

#[test]
fn close_project_closes_a_saved_project() {
    let mut service = ProjectService::new(disk(), Archives::default(), false);
    let id = service.create_project(data_settings("one", None), false).unwrap();
    let other = service.create_project(data_settings("two", None), false).unwrap();
    assert!(service.close_project(id).is_ok());
    assert!(service.get_project(id).is_none());
    assert!(service.get_project(other).is_some());
    assert!(matches!(service.close_project(id), Err(ProjectServiceError::ProjectDoesNotExist)));
}

#[test]
fn test_create_project_invalid_path() {
    let mut service = ProjectService::new(disk(), Archives::default(), false);
    let settings = ProjectSettings::DataPack {
        name: "Test Project".to_string(),
        description: PackDescription::new("Test Description".to_string()),
        path: Some("test?/invalid</path>".to_string()),
        project_version: version(),
    };
    let id = service.create_project(settings, false).unwrap();
    assert_eq!(service.get_project(id).unwrap().path.as_deref(), Some("test_/invalid_/path_"));
}

#[test]
fn export_errors_come_from_failed_writes() {
    let archives = Archives { fail_cleanup: true, ..Archives::default() };
    let cleaned = archives.cleaned.clone();
    let mut service = ProjectService::new(disk(), archives, false);
    let id = service.create_project(data_settings("one", None), false).unwrap();
    let r = service.export_zip(ProjectZipData { project_id: id, path: ZipPath::Single("one.zip".to_string()) }, false);
    assert!(r.is_ok());
    assert!(cleaned.borrow().is_empty());

    let archives = Archives { fail_writes: true, fail_cleanup: true, ..Archives::default() };
    let mut service = ProjectService::new(disk(), archives, false);
    let id = service.create_project(data_settings("one", None), false).unwrap();
    let r = service.export_zip(ProjectZipData { project_id: id, path: ZipPath::Single("one.zip".to_string()) }, false);
    assert!(matches!(
        r,
        Err(ProjectServiceError::Zip(ZipError::Zipping(zip_service::ZipError::ZipArchiveError(m)))) if m == "cleanup failed"
    ));
}
