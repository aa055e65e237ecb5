use std::cell::RefCell;

use gaea::services::filesystem_service::{
    FileDeleteOptions, FilesystemProvider, FilesystemProviderError, PathValidationStatus,
};
use gaea::services::translation_service::{
    language_entry_outcome, language_file_code, language_folder_check, read_language_file, LanguageCode,
    TranslationError, TranslationService,
};
use gaea::services::zip_service::{cleanup_file, name_extension, name_stem, path_file_name, ZipError};

const DEFAULT_LANGUAGE_PATH: &str = "./resources/assets/localization";

/// A folder of files held in memory.
struct Folder {
    status: Result<PathValidationStatus, FilesystemProviderError>,
    files: Vec<(String, Vec<u8>)>,
    folders: Vec<String>,
    unreadable: Vec<String>,
    unknown_kind: Vec<String>,
    deleted: RefCell<Vec<String>>,
    fail_delete: bool,
}

impl Folder {
    fn new(files: Vec<(String, Vec<u8>)>) -> Folder {
        Folder {
            status: Ok(PathValidationStatus::Valid { is_file: false }),
            files,
            folders: Vec::new(),
            unreadable: Vec::new(),
            unknown_kind: Vec::new(),
            deleted: RefCell::new(Vec::new()),
            fail_delete: false,
        }
    }
}

impl FilesystemProvider for Folder {
    fn file_exists(&self, path: &str) -> Result<bool, FilesystemProviderError> {
        if self.unknown_kind.iter().any(|p| p == path) {
            return Err(FilesystemProviderError::IO("cannot look".to_string()));
        }
        Ok(self.files.iter().any(|(p, _)| p == path))
    }

    fn validate_path(&self, _path: &str) -> Result<PathValidationStatus, FilesystemProviderError> {
        self.status.clone()
    }

    fn list_directory(&self, _path: &str) -> Result<Vec<String>, FilesystemProviderError> {
        let mut all: Vec<String> = self.files.iter().map(|(p, _)| p.clone()).collect();
        all.extend(self.folders.iter().cloned());
        all.extend(self.unknown_kind.iter().cloned());
        Ok(all)
    }

    fn is_directory(&self, path: &str) -> Result<bool, FilesystemProviderError> {
        if self.unknown_kind.iter().any(|p| p == path) {
            return Err(FilesystemProviderError::IO("cannot look".to_string()));
        }
        Ok(self.folders.iter().any(|p| p == path))
    }

    fn read_file(&self, path: &str) -> Result<Vec<u8>, FilesystemProviderError> {
        if self.unreadable.iter().any(|p| p == path) {
            return Err(FilesystemProviderError::IO("File not found".to_string()));
        }
        match self.files.iter().find(|(p, _)| p == path) {
            Some((_, bytes)) => Ok(bytes.clone()),
            None => Err(FilesystemProviderError::IO("File not found".to_string())),
        }
    }

    fn delete_file(&self, path: &str, _options: FileDeleteOptions) -> Result<(), FilesystemProviderError> {
        if self.fail_delete {
            return Err(FilesystemProviderError::IO("busy".to_string()));
        }
        self.deleted.borrow_mut().push(path.to_string());
        Ok(())
    }
}

fn create_test_language_content(code: &str, name: &str, translations: Vec<(&str, &str)>) -> Vec<u8> {
    let mut translation_obj = serde_json::Map::new();
    for (key, value) in translations {
        translation_obj.insert(key.to_string(), serde_json::Value::String(value.to_string()));
    }
    let mut language = serde_json::Map::new();
    language.insert("code".to_string(), serde_json::Value::String(code.to_string()));
    language.insert("name".to_string(), serde_json::Value::String(name.to_string()));
    language.insert("translations".to_string(), serde_json::Value::Object(translation_obj));
    serde_json::to_vec(&serde_json::Value::Object(language)).unwrap()
}

fn file_in_folder(name: &str) -> String {
    format!("{}/{}", DEFAULT_LANGUAGE_PATH, name)
}

#[test]
fn test_read_languages_multiple_files() {
    let folder = Folder::new(vec![
        (
            file_in_folder("en_us.json"),
            create_test_language_content("en_us", "English", vec![("hello", "Hello"), ("goodbye", "Goodbye")]),
        ),
        (
            file_in_folder("fr_fr.json"),
            create_test_language_content("fr_fr", "French", vec![("hello", "Bonjour"), ("goodbye", "Au revoir")]),
        ),
    ]);
    let service = TranslationService::try_with_default_language(&folder);
    assert!(service.is_ok());
    let service = service.unwrap();
    assert_eq!(service.default_language_code, LanguageCode("en_us".to_string()));
    assert_eq!(service.current_language_code, LanguageCode("en_us".to_string()));
    let languages = service.get_languages();
    assert_eq!(languages.len(), 2);
    assert!(service.get_language(LanguageCode("en_us".to_string())).is_some());
    assert!(service.get_language(LanguageCode("fr_fr".to_string())).is_some());
    let french = service.get_language(LanguageCode("fr_fr".to_string())).unwrap();
    assert_eq!(french.name, "French");
    assert!(french.translation_map.contains(&("goodbye".to_string(), "Au revoir".to_string())));
}

#[test]
fn read_languages_refuses_a_path_that_is_no_folder() {
    let mut folder = Folder::new(Vec::new());
    folder.status = Ok(PathValidationStatus::Valid { is_file: true });
    assert_eq!(
        TranslationService::read_languages("lang/en_us.json", &folder),
        Err(TranslationError::InvalidFilepath("lang/en_us.json".to_string()))
    );
    folder.status = Ok(PathValidationStatus::Missing { missing_segment_index: 1 });
    assert_eq!(
        TranslationService::read_languages("lang", &folder),
        Err(TranslationError::InvalidFilepath("lang".to_string()))
    );
    folder.status = Err(FilesystemProviderError::IO("denied".to_string()));
    assert_eq!(TranslationService::read_languages("lang", &folder), Err(TranslationError::IO("denied".to_string())));
}

#[test]
fn read_languages_stops_at_an_unreadable_file() {
    let mut folder = Folder::new(vec![(
        file_in_folder("en_us.json"),
        create_test_language_content("en_us", "English", vec![("hello", "Hello")]),
    )]);
    folder.unreadable.push(file_in_folder("en_us.json"));
    assert_eq!(
        TranslationService::read_languages(DEFAULT_LANGUAGE_PATH, &folder),
        Err(TranslationError::IO("File not found".to_string()))
    );
}

#[test]
fn read_languages_passes_over_what_is_no_language() {
    let mut folder = Folder::new(vec![
        (file_in_folder("en_us.json"), create_test_language_content("en_us", "English", vec![("hello", "Hello")])),
        (file_in_folder("notes.txt"), create_test_language_content("notes", "Notes", Vec::new())),
        (file_in_folder("broken.json"), b"{ not json".to_vec()),
        (file_in_folder("list.json"), b"[1, 2]".to_vec()),
        (file_in_folder("nameless.json"), br#"{"translations": {}}"#.to_vec()),
        (file_in_folder("untranslated.json"), br#"{"name": "X"}"#.to_vec()),
        (file_in_folder("numbers.json"), br#"{"name": "X", "translations": {"a": 1}}"#.to_vec()),
        (file_in_folder("odd_name.json"), br#"{"name": 5, "translations": 3}"#.to_vec()),
    ]);
    folder.folders.push(file_in_folder("nested.json"));
    folder.unknown_kind.push(file_in_folder("lost.json"));
    let languages = TranslationService::read_languages(DEFAULT_LANGUAGE_PATH, &folder).unwrap();
    assert_eq!(languages.len(), 1);
    assert_eq!(languages[0].code, LanguageCode("en_us".to_string()));
    assert_eq!(languages[0].name, "English");
}

#[test]
fn read_languages_refuses_a_name_that_is_not_text() {
    let folder = Folder::new(vec![(file_in_folder("odd.json"), br#"{"name": 5, "translations": {"a": "b"}}"#.to_vec())]);
    assert_eq!(
        TranslationService::read_languages(DEFAULT_LANGUAGE_PATH, &folder),
        Err(TranslationError::Parse("odd".to_string()))
    );
}

#[test]
fn language_codes_come_from_json_file_names() {
    assert_eq!(language_file_code("lang/en_us.json", false), Some("en_us".to_string()));
    assert_eq!(language_file_code("lang/en_us.json", true), None);
    assert_eq!(language_file_code("lang/en_us.txt", false), None);
    assert_eq!(language_file_code("lang/.json", false), None);
    assert_eq!(language_file_code("lang/a.b.json", false), Some("a.b".to_string()));
    assert_eq!(language_file_code("lang/..", false), None);
    assert_eq!(language_file_code("en_us.json/", false), Some("en_us".to_string()));
}

#[test]
fn file_names_split_at_their_last_dot() {
    assert_eq!(path_file_name("a/b/c.zip"), Some("c.zip".to_string()));
    assert_eq!(path_file_name("a/./"), Some("a".to_string()));
    assert_eq!(path_file_name("a/.."), None);
    assert_eq!(path_file_name(""), None);
    assert_eq!(name_extension("c.tar.gz"), Some("gz".to_string()));
    assert_eq!(name_extension("c."), Some("".to_string()));
    assert_eq!(name_extension(".hidden"), None);
    assert_eq!(name_stem("c.tar.gz"), "c.tar");
    assert_eq!(name_stem(".hidden"), ".hidden");
}

#[test]
fn the_language_folder_must_be_a_folder() {
    assert_eq!(language_folder_check("lang", Ok(PathValidationStatus::Valid { is_file: false })), Ok(()));
    assert_eq!(
        language_folder_check("lang", Ok(PathValidationStatus::Valid { is_file: true })),
        Err(TranslationError::InvalidFilepath("lang".to_string()))
    );
    assert_eq!(
        language_folder_check("lang", Err(FilesystemProviderError::JoinError("join".to_string()))),
        Err(TranslationError::IO("join".to_string()))
    );
}

#[test]
fn one_language_file_is_read() {
    let bytes = create_test_language_content("de_de", "Deutsch", vec![("hello", "Hallo")]);
    let language = read_language_file("de_de".to_string(), Ok(bytes)).unwrap().unwrap();
    assert_eq!(language.code, LanguageCode("de_de".to_string()));
    assert_eq!(language.name, "Deutsch");
    assert_eq!(language.translation_map, vec![("hello".to_string(), "Hallo".to_string())]);
    assert_eq!(read_language_file("x".to_string(), Ok(b"nope".to_vec())), Ok(None));
    assert_eq!(
        read_language_file("x".to_string(), Err(FilesystemProviderError::IO("gone".to_string()))),
        Err(TranslationError::IO("gone".to_string()))
    );
    assert_eq!(language_entry_outcome("x".to_string(), None), Ok(None));
}

#[test]
fn cleanup_removes_only_a_file_that_is_there() {
    let folder = Folder::new(vec![("out.zip".to_string(), Vec::new())]);
    assert_eq!(cleanup_file(&folder, "out.zip"), Ok(()));
    assert_eq!(cleanup_file(&folder, "other.zip"), Ok(()));
    assert_eq!(*folder.deleted.borrow(), vec!["out.zip".to_string()]);
    let mut failing = Folder::new(vec![("out.zip".to_string(), Vec::new())]);
    failing.fail_delete = true;
    assert_eq!(
        cleanup_file(&failing, "out.zip"),
        Err(ZipError::IOError(FilesystemProviderError::IO("busy".to_string())))
    );
    failing.unknown_kind.push("lost.zip".to_string());
    assert_eq!(
        cleanup_file(&failing, "lost.zip"),
        Err(ZipError::IOError(FilesystemProviderError::IO("cannot look".to_string())))
    );
}

#[test]
fn test_try_with_default_language_success() {
    let folder = Folder::new(vec![(
        file_in_folder("en_us.json"),
        create_test_language_content("en_us", "English", vec![("hello", "Hello"), ("goodbye", "Goodbye")]),
    )]);
    let result = TranslationService::try_with_default_language(&folder);
    assert!(result.is_ok());
    let service = result.unwrap();
    assert_eq!(service.default_language_code, LanguageCode("en_us".to_string()));
    assert_eq!(service.current_language_code, LanguageCode("en_us".to_string()));
    assert_eq!(service.language_path, DEFAULT_LANGUAGE_PATH);
    let language = service.get_language(LanguageCode("en_us".to_string())).unwrap();
    assert_eq!(language.name, "English");
    assert_eq!(language.translation_map.len(), 2);
    assert_eq!(service.translate_str("hello"), "Hello");
    assert_eq!(service.translate_str("goodbye"), "Goodbye");
}

#[test]
fn test_try_new_with_custom_language() {
    let path = "./test/localization";
    let folder = Folder::new(vec![(
        format!("{}/fr_fr.json", path),
        create_test_language_content("fr_fr", "French", vec![("hello", "Bonjour"), ("goodbye", "Au revoir")]),
    )]);
    let code = LanguageCode("fr_fr".to_string());
    let service = TranslationService::try_new(code.clone(), path.to_string(), &folder).unwrap();
    assert_eq!(service.current_language_code, code);
    assert_eq!(service.default_language_code, code);
    assert_eq!(service.language_path, "./test/localization");
    let language = service.get_language(code).unwrap();
    assert_eq!(language.name, "French");
    assert!(language.translation_map.contains(&("goodbye".to_string(), "Au revoir".to_string())));
}

#[test]
fn test_try_new_language_not_found() {
    let language_code = LanguageCode("invalid".to_string());
    let mut folder = Folder::new(vec![(file_in_folder("invalid.json"), Vec::new())]);
    folder.unreadable.push(file_in_folder("invalid.json"));
    let result = TranslationService::try_new(language_code, DEFAULT_LANGUAGE_PATH.to_string(), &folder);
    assert!(result.is_err());
    assert!(matches!(result, Err(TranslationError::IO(_))));
    assert_eq!(result.unwrap_err(), TranslationError::IO("File not found".to_string()));
}

#[test]
fn reloading_reads_the_folder_again() {
    let mut folder = Folder::new(vec![
        (file_in_folder("en_us.json"), create_test_language_content("en_us", "English", vec![("hello", "Hello")])),
        (file_in_folder("fr_fr.json"), create_test_language_content("fr_fr", "French", vec![("hello", "Bonjour")])),
    ]);
    let mut service = TranslationService::try_with_default_language(&folder).unwrap();
    let french = service.get_language(LanguageCode("fr_fr".to_string())).unwrap();
    service.set_language(&french).unwrap();
    folder.files.pop();
    assert!(service.reload_languages(&folder).is_ok());
    assert_eq!(service.get_languages().len(), 1);
    assert_eq!(service.current_language_code, LanguageCode("en_us".to_string()));
    folder.status = Ok(PathValidationStatus::Valid { is_file: true });
    assert!(matches!(service.reload_languages(&folder), Err(TranslationError::InvalidFilepath(_))));
    assert_eq!(service.get_languages().len(), 1);
}
