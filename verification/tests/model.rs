use gaea::data::domain::version::MinecraftVersion as Release;
use gaea::data::domain::versions::{
    data_format_by_id, get_datapack_format_for_version, get_resourcepack_format_for_version, latest,
    resource_format_by_id,
};
use gaea::editor::{HighlightCursor, LineChange, ScopeRange, ScopeRangeIterator, Theme};
use gaea::header::HeaderTranslations;
use gaea::json::JsonValue;
use gaea::mc_version::{MinecraftVersion, PackFormat, VersionParseError};
use gaea::services::translation_service::{insert_language, language_from_json, TranslationService};
use gaea::version::{MinecraftVersion as EditorVersion, MinecraftVersionError};

#[test]
fn versions_print_and_read_back() {
    let v = MinecraftVersion::new(20, 4);
    assert_eq!(v.to_string(), "1.20.4");
    assert_eq!(MinecraftVersion::from_str("1.20.4").unwrap(), v);
    assert_eq!(MinecraftVersion::from_str("1.7.10").unwrap(), MinecraftVersion::new(7, 10));
}

#[test]
fn version_parse_errors() {
    let e = MinecraftVersion::from_str("1.20").unwrap_err();
    assert_eq!(e, VersionParseError::InvalidFormat("1.20".to_string()));
    assert_eq!(e.to_string(), "Invalid Minecraft version format: 1.20");
    let e = MinecraftVersion::from_str("1.x.4").unwrap_err();
    assert_eq!(e.to_string(), "Non-numeric contents in Minecraft version: 1.x.4");
    let e = MinecraftVersion::from_str("2.20.4").unwrap_err();
    assert_eq!(e, VersionParseError::InvalidVersion("2.20.4".to_string()));
    assert!(MinecraftVersion::from_str("1.256.0").is_err());
}

#[test]
fn pack_formats_compare_by_number() {
    let a = PackFormat::new(8, vec![MinecraftVersion::new(18, 0)]);
    let b = PackFormat::new(8, vec![MinecraftVersion::new(18, 1)]);
    assert!(a == b);
    assert_eq!(a.get_format_id(), 8);
    assert!(a.contains(MinecraftVersion::new(18, 0)));
    assert!(!a.contains(MinecraftVersion::new(18, 1)));
}

#[test]
fn format_tables() {
    assert_eq!(latest(), MinecraftVersion::new(21, 7));
    assert_eq!(get_datapack_format_for_version(latest()).get_format_id(), 81);
    assert_eq!(get_resourcepack_format_for_version(latest()).get_format_id(), 64);
    assert_eq!(get_datapack_format_for_version(MinecraftVersion::new(20, 1)).get_format_id(), 15);
    assert_eq!(get_resourcepack_format_for_version(MinecraftVersion::new(19, 3)).get_format_id(), 12);
    assert_eq!(data_format_by_id(48).unwrap().get_versions().len(), 2);
    assert!(data_format_by_id(13).is_none());
    assert!(resource_format_by_id(13).is_some());
}

#[test]
fn supported_release_registry() {
    assert_eq!(Release::all().len(), 6);
    assert_eq!(Release::latest(), Release { major: 20, minor: 4 });
    assert_eq!(Release::default(), Release::latest());
    assert_eq!(Release::get(18, 2), Some(Release { major: 18, minor: 2 }));
    assert_eq!(Release::get(18, 1), None);
    assert_eq!(Release::from_str("1.19.4").unwrap(), Release { major: 19, minor: 4 });
    assert_eq!(Release::from_str("1.19.04").unwrap(), Release { major: 19, minor: 4 });
    assert_eq!(Release::from_str("1.19.3").unwrap_err(), VersionParseError::InvalidVersion("1.19.3".to_string()));
    assert_eq!(Release::from_str("1.19").unwrap_err(), VersionParseError::InvalidFormat("1.19".to_string()));
    assert_eq!(Release { major: 17, minor: 1 }.to_string(), "1.17.1");
}

#[test]
fn editor_versions() {
    let v = EditorVersion::default();
    assert_eq!(v, EditorVersion::V1_20_4);
    assert_eq!(v.as_str(), "1.20.4");
    assert_eq!(v.as_numeric_value(), 12004);
    assert_eq!(EditorVersion::from_str("1.20.4").unwrap(), v);
    let e = EditorVersion::from_str("1.21").unwrap_err();
    assert_eq!(e, MinecraftVersionError::InvalidVersion("1.21".to_string()));
    assert_eq!(e.to_string(), "Invalid Minecraft version: 1.21");
    assert!(!v.lt(&v));
}

#[test]
fn themes() {
    assert!(Theme::SolarizedDark.is_dark());
    assert!(!Theme::InspiredGitHub.is_dark());
    assert_eq!(Theme::Base16Ocean.key(), "base16-ocean.dark");
    assert_eq!(Theme::SolarizedDark.key(), "Solarized (dark)");
    assert_eq!(Theme::Base16Eighties.to_string(), "Eighties");
    assert_eq!(Theme::all().len(), 5);
}

#[test]
fn highlighter_resumes_from_saved_states() {
    let mut cursor = HighlightCursor::new();
    for _ in 0..120 {
        cursor.highlight_line();
    }
    assert_eq!(cursor, HighlightCursor { snapshots: 3, current_line: 120 });
    assert_eq!(cursor.change_line(75), LineChange { keep: 1, current_line: 50 });
    assert_eq!(cursor, HighlightCursor { snapshots: 2, current_line: 50 });
    assert_eq!(cursor.change_line(500), LineChange { keep: 1, current_line: 0 });
    assert_eq!(cursor.change_line(10), LineChange { keep: 0, current_line: 0 });
    assert_eq!(cursor.snapshots, 1);
}

#[test]
fn scope_ranges_cover_the_line() {
    let mut ranges = ScopeRangeIterator::new(vec![0, 3, 7], 10);
    let mut seen = Vec::new();
    while let Some(r) = ranges.next() {
        seen.push(r);
    }
    assert_eq!(
        seen,
        vec![
            ScopeRange { start: 0, end: 0, op: None },
            ScopeRange { start: 0, end: 3, op: Some(0) },
            ScopeRange { start: 3, end: 7, op: Some(1) },
            ScopeRange { start: 7, end: 10, op: Some(2) },
        ]
    );
    assert!(ranges.next().is_none());
}

#[test]
fn header_texts_in_the_chosen_language() {
    let file = JsonValue::Object(vec![
        ("name".to_string(), JsonValue::String("English".to_string())),
        (
            "translations".to_string(),
            JsonValue::Object(vec![
                ("file_menu.title".to_string(), JsonValue::String("File".to_string())),
                ("file_menu.import".to_string(), JsonValue::String("Import Project".to_string())),
            ]),
        ),
    ]);
    let mut languages = Vec::new();
    insert_language(&mut languages, language_from_json("en_us".to_string(), &file).unwrap());
    let service = TranslationService::with_default_language(languages);
    let texts = HeaderTranslations::translate(&service);
    assert_eq!(texts.file_menu.title, "File");
    assert_eq!(texts.file_menu.import, "Import Project");
    assert_eq!(texts.file_menu.export, "file_menu.export");
    assert_eq!(HeaderTranslations::default().file_menu.title, "");
}

use gaea::editor::{EditorAction, EditorError, EditorEvent, TextEditorState};

#[test]
fn text_editor_ignores_requests_while_loading() {
    let mut editor = TextEditorState::new(Theme::SolarizedDark);
    assert!(editor.is_loading && editor.word_wrap && !editor.is_dirty);
    assert_eq!(editor.update(EditorEvent::OpenFile), EditorAction::Nothing);
    assert_eq!(editor.update(EditorEvent::SaveFile), EditorAction::Nothing);
    let opened = EditorEvent::FileOpened(Ok(("a.mcfunction".to_string(), "say hi".to_string())));
    assert_eq!(editor.update(opened), EditorAction::ShowText("say hi".to_string()));
    assert_eq!(editor.file.as_deref(), Some("a.mcfunction"));
    assert!(!editor.is_loading);
}

#[test]
fn text_editor_tracks_changes_and_saves() {
    let mut editor = TextEditorState::new(Theme::InspiredGitHub);
    editor.update(EditorEvent::FileOpened(Err(EditorError::DialogClosed)));
    assert!(!editor.is_loading && editor.file.is_none());
    assert_eq!(editor.update(EditorEvent::ActionPerformed { is_edit: false }), EditorAction::ApplyAction);
    assert!(!editor.is_dirty);
    editor.update(EditorEvent::ActionPerformed { is_edit: true });
    assert!(editor.is_dirty);
    assert_eq!(editor.update(EditorEvent::SaveFile), EditorAction::SaveText(None));
    assert!(editor.is_loading);
    editor.update(EditorEvent::FileSaved(Err(EditorError::IoError("PermissionDenied".to_string()))));
    assert!(editor.is_dirty && !editor.is_loading);
    editor.update(EditorEvent::SaveFile);
    editor.update(EditorEvent::FileSaved(Ok("out.mcfunction".to_string())));
    assert!(!editor.is_dirty);
    assert_eq!(editor.file.as_deref(), Some("out.mcfunction"));
    assert_eq!(editor.update(EditorEvent::NewFile), EditorAction::ClearText);
    assert!(editor.file.is_none());
    assert_eq!(editor.update(EditorEvent::WordWrapToggled(false)), EditorAction::Nothing);
    assert!(!editor.word_wrap);
}

use gaea::editor::{is_syntax_file, syntax_release_for};

#[test]
fn syntax_files_and_releases() {
    assert!(is_syntax_file(Some("sublime-syntax")));
    assert!(!is_syntax_file(Some("json")));
    assert!(!is_syntax_file(None));
    let v = EditorVersion::V1_20_4;
    assert_eq!(syntax_release_for(&vec![v], v), Some(v));
    assert_eq!(syntax_release_for(&Vec::new(), v), None);
}

use gaea::data::domain::pack_info::PackInfoTranslationKeys;
use gaea::header::FileMenuTranslationKeys;
use gaea::services::translation_service::TranslationKey;

#[test]
fn translation_keys_know_their_english_texts() {
    assert_eq!(FileMenuTranslationKeys::Import.english_text(), "Import Project");
    assert_eq!(FileMenuTranslationKeys::all_variants().len(), 3);
    assert_eq!(FileMenuTranslationKeys::all_variants()[2].key(), "file_menu.export");
    assert_eq!(
        PackInfoTranslationKeys::DefaultDataDescription.english_text(),
        "MISSING_TRANSLATION_FOR_DEFAULT_DATA_DESCRIPTION"
    );
    assert_eq!(PackInfoTranslationKeys::all_variants(), vec![
        PackInfoTranslationKeys::DefaultResourceDescription,
        PackInfoTranslationKeys::DefaultDataDescription,
    ]);
}

use gaea::editor::cursor_label;

#[test]
fn status_line_shows_file_and_cursor() {
    let mut editor = TextEditorState::new(Theme::SolarizedDark);
    assert_eq!(editor.file_label(), "New file");
    assert_eq!(editor.highlight_token(), "json");
    editor.file = Some("packs/data/function/tick.mcfunction".to_string());
    assert_eq!(editor.file_label(), "packs/data/function/tick.mcfunction");
    assert_eq!(editor.highlight_token(), "mcfunction");
    let long = format!("{}/{}", "a".repeat(30), "b".repeat(40));
    editor.file = Some(long.clone());
    assert_eq!(editor.file_label(), format!("...{}", "b".repeat(40)));
    let wide = format!("{}é{}", "c".repeat(60), "d".repeat(38));
    editor.file = Some(wide);
    assert_eq!(editor.file_label(), format!("...é{}", "d".repeat(38)));
    editor.file = Some("notes/readme".to_string());
    assert_eq!(editor.highlight_token(), "json");
    assert_eq!(cursor_label(0, 0), "1:1");
    assert_eq!(cursor_label(11, 4), "12:5");
}

use gaea::editor::{command_syntaxes, syntax_release_of, EditorControls};

#[test]
fn editor_buttons_follow_its_state() {
    let mut editor = TextEditorState::new(Theme::SolarizedDark);
    assert_eq!(editor.controls(), EditorControls { new_file: true, open_file: false, save_file: false });
    editor.is_loading = false;
    editor.is_dirty = true;
    assert_eq!(editor.controls(), EditorControls { new_file: true, open_file: true, save_file: true });
}

#[test]
fn command_syntax_files_by_release() {
    assert_eq!(syntax_release_of("syntaxes/give/1.20.4.sublime-syntax"), Some(gaea::version::MinecraftVersion::V1_20_4));
    assert_eq!(syntax_release_of("syntaxes/give/1.20.4.txt"), None);
    assert_eq!(syntax_release_of("syntaxes/give/1.19.sublime-syntax"), None);
    let files = vec![
        "give/1.20.4.sublime-syntax".to_string(),
        "give/readme.md".to_string(),
        "give/1.20.4.sublime-syntax/".to_string(),
    ];
    let map = command_syntaxes(&files);
    assert_eq!(map.len(), 1);
    assert_eq!(map[0].0, gaea::version::MinecraftVersion::V1_20_4);
    assert_eq!(map[0].1, "give/1.20.4.sublime-syntax/");
    assert!(command_syntaxes(&vec!["x.json".to_string()]).is_empty());
}
