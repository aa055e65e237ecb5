//! The texts of the editor's header menu, in the chosen language.
use vstd::prelude::*;
use crate::services::translation_service::{TranslationKey, TranslationService};

verus! {

/// The texts of the file menu.
#[derive(Debug, Clone, Copy, PartialEq, Eq, Structural, Hash)]
pub enum FileMenuTranslationKeys {
    Title,
    Import,
    Export,
}

impl TranslationKey for FileMenuTranslationKeys {
    open spec fn spec_key(&self) -> Seq<char> {
        match self {
            FileMenuTranslationKeys::Title => "file_menu.title"@,
            FileMenuTranslationKeys::Import => "file_menu.import"@,
            FileMenuTranslationKeys::Export => "file_menu.export"@,
        }
    }

    fn key(&self) -> (r: &'static str) {
        match self {
            FileMenuTranslationKeys::Title => "file_menu.title",
            FileMenuTranslationKeys::Import => "file_menu.import",
            FileMenuTranslationKeys::Export => "file_menu.export",
        }
    }

    open spec fn spec_english_text(&self) -> Seq<char> {
        match self {
            FileMenuTranslationKeys::Title => "File"@,
            FileMenuTranslationKeys::Import => "Import Project"@,
            FileMenuTranslationKeys::Export => "Export Project"@,
        }
    }

    open spec fn spec_all_variants() -> Seq<Self> {
        seq![FileMenuTranslationKeys::Title, FileMenuTranslationKeys::Import, FileMenuTranslationKeys::Export]
    }

    fn english_text(&self) -> (r: &'static str) {
        match self {
            FileMenuTranslationKeys::Title => "File",
            FileMenuTranslationKeys::Import => "Import Project",
            FileMenuTranslationKeys::Export => "Export Project",
        }
    }

    fn all_variants() -> (r: Vec<Self>) {
        let v = vec![FileMenuTranslationKeys::Title, FileMenuTranslationKeys::Import, FileMenuTranslationKeys::Export];
        assert(v@ =~= Self::spec_all_variants());
        v
    }
}

/// The file menu's texts.
#[derive(Debug, Clone, PartialEq, Eq)]
pub struct FileMenuTranslations {
    pub title: String,
    pub import: String,
    pub export: String,
}

/// The header's texts.
#[derive(Debug, Clone, PartialEq, Eq)]
pub struct HeaderTranslations {
    pub file_menu: FileMenuTranslations,
}

impl FileMenuTranslations {
    /// Empty texts, shown until the translations are read.
    pub fn default() -> (r: Self)
        ensures
            r.title@ == Seq::<char>::empty(),
            r.import@ == Seq::<char>::empty(),
            r.export@ == Seq::<char>::empty(),
    {
        FileMenuTranslations { title: String::new(), import: String::new(), export: String::new() }
    }
}

impl HeaderTranslations {
    /// Empty texts, shown until the translations are read.
    pub fn default() -> (r: Self)
        ensures
            r.file_menu.title@ == Seq::<char>::empty(),
            r.file_menu.import@ == Seq::<char>::empty(),
            r.file_menu.export@ == Seq::<char>::empty(),
    {
        HeaderTranslations { file_menu: FileMenuTranslations::default() }
    }

    /// The header's texts in the service's language.
    pub fn translate(service: &TranslationService) -> (r: Self)
        requires
            service.has_languages(),
        ensures
            r.file_menu.title@ == service.spec_translate("file_menu.title"@),
            r.file_menu.import@ == service.spec_translate("file_menu.import"@),
            r.file_menu.export@ == service.spec_translate("file_menu.export"@),
    {
        let title = service.translate(&FileMenuTranslationKeys::Title);
        let import = service.translate(&FileMenuTranslationKeys::Import);
        let export = service.translate(&FileMenuTranslationKeys::Export);
        HeaderTranslations { file_menu: FileMenuTranslations { title, import, export } }
    }
}

} // verus!
