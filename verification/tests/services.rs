use std::cell::Cell;

use gaea::json::JsonValue;
use gaea::services::filesystem_service::{
    after_read, delete_failure_tolerated, on_chunk_answer, open_flags, path_status, ChunkVerdict,
    ChunkedFileReadResult, FileDeleteOptions, FileWriteOptions, FilesystemProviderError, PathValidationStatus,
    ReadStep,
};
use gaea::services::path_names::sanitize_path;
use gaea::services::translation_service::{
    insert_language, is_language_file, language_from_json, Language, LanguageCode, LanguageFileError,
    TranslationError, TranslationService,
};
use gaea::services::undo_service::{Command, CommandData, GlobalCommand, UndoError, UndoService, UndoStackID};
use gaea::services::zip_service::{archive_name, zip_write_options};

fn language_file(name: &str, pairs: &[(&str, &str)]) -> JsonValue {
    let translations = pairs
        .iter()
        .map(|(k, v)| (k.to_string(), JsonValue::String(v.to_string())))
        .collect();
    JsonValue::Object(vec![
        ("name".to_string(), JsonValue::String(name.to_string())),
        ("translations".to_string(), JsonValue::Object(translations)),
    ])
}

fn languages() -> Vec<Language> {
    let mut all = Vec::new();
    let en = language_from_json(
        "en_us".to_string(),
        &language_file("English", &[("test.hello", "Hello"), ("test.hello_default_only", "Hello Default")]),
    )
    .unwrap();
    let fr = language_from_json("fr_fr".to_string(), &language_file("French", &[("test.hello", "Bonjour")])).unwrap();
    insert_language(&mut all, en);
    insert_language(&mut all, fr);
    all
}

fn translation_service() -> TranslationService {
    TranslationService::with_default_language(languages())
}

#[test]
fn test_translate_key() {
    assert_eq!(translation_service().translate_str("test.hello"), "Hello");
}

#[test]
fn test_translate_key_non_default_language() {
    let mut service = translation_service();
    let language = service.get_language(LanguageCode("fr_fr".to_string())).unwrap();
    service.set_language(&language).unwrap();
    assert_eq!(service.translate_str("test.hello"), "Bonjour");
}

#[test]
fn test_translate_key_default_fallback() {
    let mut service = translation_service();
    let language = service.get_language(LanguageCode("fr_fr".to_string())).unwrap();
    service.set_language(&language).unwrap();
    assert_eq!(service.translate_str("test.hello_default_only"), "Hello Default");
}

#[test]
fn test_translate_key_missing() {
    assert_eq!(translation_service().translate_str("test.invalid"), "test.invalid");
}

#[test]
fn test_set_language() {
    let mut service = translation_service();
    let language = service.get_language(LanguageCode("fr_fr".to_string())).unwrap();
    assert!(service.set_language(&language).is_ok());
    assert_eq!(service.get_current_language().code, LanguageCode("fr_fr".to_string()));
}

#[test]
fn test_set_language_to_default() {
    let mut service = translation_service();
    let language = service.get_language(LanguageCode("fr_fr".to_string())).unwrap();
    service.set_language(&language).unwrap();
    service.set_language_to_default().unwrap();
    assert_eq!(service.get_current_language().code, LanguageCode("en_us".to_string()));
}

#[test]
fn test_set_language_nonexistent() {
    let mut service = translation_service();
    let invalid = Language { code: LanguageCode("invalid".to_string()), name: "Invalid".to_string(), translation_map: Vec::new() };
    assert!(matches!(service.set_language(&invalid), Err(TranslationError::LanguageNotFound(_))));
}

#[test]
fn language_files_are_checked() {
    assert!(matches!(language_from_json("x".to_string(), &JsonValue::Array(Vec::new())), Err(LanguageFileError::NotObject)));
    let no_translations = JsonValue::Object(vec![("name".to_string(), JsonValue::String("X".to_string()))]);
    assert!(matches!(language_from_json("x".to_string(), &no_translations), Err(LanguageFileError::MissingTranslations)));
    assert!(is_language_file(false, Some("json")));
    assert!(!is_language_file(true, Some("json")));
    assert!(!is_language_file(false, Some("txt")));
    assert!(!is_language_file(false, None));
}

struct Counter<'a> {
    runs: &'a Cell<u32>,
    undos: &'a Cell<u32>,
    fail: bool,
}

impl<'a> Command for Counter<'a> {
    fn execute(&self) -> Result<(), anyhow::Error> {
        if self.fail {
            return Err(anyhow::Error::msg("refused"));
        }
        self.runs.set(self.runs.get() + 1);
        Ok(())
    }

    fn undo(&self) -> Result<(), anyhow::Error> {
        self.undos.set(self.undos.get() + 1);
        Ok(())
    }
}

impl<'a> GlobalCommand for Counter<'a> {
    fn affected_resources(&self) -> Vec<UndoStackID> {
        Vec::new()
    }
}

#[test]
fn undo_reverts_the_last_command_without_removing_it() {
    let runs = Cell::new(0);
    let undos = Cell::new(0);
    let mut service: UndoService<Counter, Counter> = UndoService::new();
    let command = Counter { runs: &runs, undos: &undos, fail: false };
    service.execute(CommandData::Single { command, undo_stack_id: UndoStackID::Project(7) }).unwrap();
    assert_eq!(runs.get(), 1);
    service.undo(UndoStackID::Project(7)).unwrap();
    service.undo(UndoStackID::Project(7)).unwrap();
    assert_eq!(undos.get(), 2);
}

#[test]
fn undo_refuses_unknown_and_empty_stacks() {
    let runs = Cell::new(0);
    let undos = Cell::new(0);
    let mut service: UndoService<Counter, Counter> = UndoService::new();
    let e = service.undo(UndoStackID::Resource(3)).unwrap_err();
    assert!(matches!(e, UndoError::InvalidStackID(UndoStackID::Resource(3))));
    assert_eq!(e.to_string(), "Invalid Stack ID Resource(00000000-0000-0000-0000-000000000003)!");
    let e = service.undo(UndoStackID::Project(0xa1a2a3a4b1b2c1c2d1d2d3d4d5d6d7d8)).unwrap_err();
    assert_eq!(e.to_string(), "Invalid Stack ID Project(a1a2a3a4-b1b2-c1c2-d1d2-d3d4d5d6d7d8)!");
    let failing = Counter { runs: &runs, undos: &undos, fail: true };
    let e = service.execute(CommandData::Global { command: failing }).unwrap_err();
    assert!(matches!(e, UndoError::CommandError(_)));
    let e = service.undo(UndoStackID::Global).unwrap_err();
    assert!(matches!(e, UndoError::NothingToUndo));
    assert_eq!(e.to_string(), "Nothing to undo!");
    assert_eq!(runs.get(), 0);
    assert_eq!(undos.get(), 0);
}

#[test]
fn write_options_open_files_as_asked() {
    let f = open_flags(FileWriteOptions::Overwrite);
    assert!(f.write && f.truncate && !f.create_new && !f.append && f.create);
    let f = open_flags(FileWriteOptions::CreateNew);
    assert!(f.create_new && !f.truncate);
    let f = open_flags(FileWriteOptions::Append);
    assert!(f.append && f.create);
    let f = open_flags(FileWriteOptions::AppendDontCreate);
    assert!(f.append && !f.create);
    assert_eq!(zip_write_options(true), FileWriteOptions::Overwrite);
    assert_eq!(zip_write_options(false), FileWriteOptions::CreateNew);
}

#[test]
fn missing_files_are_tolerated_only_when_allowed() {
    assert!(delete_failure_tolerated(FileDeleteOptions::AllowNonexistent, true));
    assert!(!delete_failure_tolerated(FileDeleteOptions::AllowNonexistent, false));
    assert!(!delete_failure_tolerated(FileDeleteOptions::ErrorIfNotExists, true));
}

#[test]
fn path_status_counts_missing_segments() {
    assert_eq!(path_status(&vec![true, true], true), PathValidationStatus::Valid { is_file: true });
    assert_eq!(path_status(&vec![false, true, true], false), PathValidationStatus::Missing { missing_segment_index: 1 });
    assert_eq!(path_status(&vec![false, false, false, true], false), PathValidationStatus::Missing { missing_segment_index: 3 });
    assert_eq!(path_status(&vec![false, false], false), PathValidationStatus::Missing { missing_segment_index: 2 });
}

#[test]
fn chunked_reads_stop_and_fail_as_told() {
    assert_eq!(after_read(0, 8), ReadStep::Stop);
    assert_eq!(after_read(8, 8), ReadStep::Send { last: false });
    assert_eq!(after_read(3, 8), ReadStep::Send { last: true });
    assert_eq!(on_chunk_answer(ChunkedFileReadResult::Continue), ChunkVerdict::Continue);
    assert_eq!(on_chunk_answer(ChunkedFileReadResult::Done), ChunkVerdict::Cancel);
    match on_chunk_answer(ChunkedFileReadResult::Error(anyhow::Error::msg("bad chunk"))) {
        ChunkVerdict::Fail(e) => {
            assert_eq!(e, FilesystemProviderError::ChunkedReaderCallbackError("bad chunk".to_string()));
            assert_eq!(e.to_string(), "Error in chunked reader callback: bad chunk");
        },
        other => panic!("unexpected {:?}", other),
    }
}

#[test]
fn paths_are_sanitized_segment_by_segment() {
    assert_eq!(sanitize_path("projects/my pack", false), "projects/my pack");
    assert_eq!(sanitize_path("a/b?c/d<e>", false), "a/b_c/d_e_");
    assert_eq!(sanitize_path("/abs/path", false), "_/abs/path");
    assert_eq!(sanitize_path("./x/../y", false), "_/x/_/y");
    assert_eq!(sanitize_path("a//b/./c/", false), "a/b/c");
    assert_eq!(sanitize_path("", false), "");
    let long = "x".repeat(300);
    assert_eq!(sanitize_path(&long, false).len(), 255);
}

#[test]
fn archive_names_drop_the_extension() {
    assert_eq!(archive_name("exports/My Pack.zip"), "My Pack");
    assert_eq!(archive_name("a.b.zip"), "a.b");
    assert_eq!(archive_name("dir/.zip"), ".zip");
    assert_eq!(archive_name("plain"), "plain");
    assert_eq!(archive_name("dir/pack.zip/"), "pack");
}

#[test]
fn long_names_are_cut_at_255_bytes() {
    let name = format!("{}a", ".".repeat(300));
    assert_eq!(sanitize_path(&name, false), ".".repeat(255));
    let wide = "é".repeat(200);
    let clean = sanitize_path(&wide, false);
    assert_eq!(clean.len(), 254);
    assert_eq!(clean.chars().count(), 127);
}

#[test]
fn test_set_language_to_current() {
    let mut service = translation_service();
    let language = service.get_language(LanguageCode("fr_fr".to_string())).unwrap();
    service.set_language(&language).unwrap();
    assert!(service.set_language(&language).is_ok());
    assert_eq!(service.current_language_code, language.code);
}

#[test]
fn test_set_language_to_default_current() {
    let mut service = translation_service();
    assert_eq!(service.get_current_language().code, service.default_language_code);
    assert!(service.set_language_to_default().is_ok());
    assert_eq!(service.current_language_code, service.default_language_code);
}

#[test]
fn windows_rules_also_replace_device_names() {
    assert_eq!(sanitize_path("out/con", true), "out/_");
    assert_eq!(sanitize_path("out/name. ", true), "out/name_");
    assert_eq!(sanitize_path("out/CON.txt", true), "out/_");
    assert_eq!(sanitize_path("out/com1", true), "out/_");
    assert_eq!(sanitize_path("out/Lpt9.log", true), "out/_");
    assert_eq!(sanitize_path("out/con1", true), "out/con1");
    assert_eq!(sanitize_path("out/auxiliary", true), "out/auxiliary");
    assert_eq!(sanitize_path("out/comx", true), "out/comx");
    assert_eq!(sanitize_path("out/a...", true), "out/a_");
    assert_eq!(sanitize_path("out/ . ", true), "out/_");
    assert_eq!(sanitize_path("out/a. b", true), "out/a. b");
    assert_eq!(sanitize_path("out/...", true), "out/_");
    assert_eq!(sanitize_path("out/con?", true), "out/con_");
    assert_eq!(sanitize_path("out/con", false), "out/con");
}
