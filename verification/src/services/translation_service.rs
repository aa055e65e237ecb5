//! Translations of the editor's texts: languages read from language files,
//! the current and default language, and lookups that fall back from the
//! current language to the default one and then to the key itself.
use vstd::prelude::*;
use crate::json::{json_bytes_value, parse_json_bytes, str_eq, JsonValue};
use crate::services::filesystem_service::{FilesystemProvider, FilesystemProviderError, PathValidationStatus};
use crate::services::zip_service::{file_extension, file_name, file_stem, name_extension, name_stem, path_file_name};

verus! {

/// A key of a translated text, with the text's English wording.
pub trait TranslationKey: Sized {
    spec fn spec_key(&self) -> Seq<char>;

    fn key(&self) -> (r: &'static str)
        ensures
            r@ == self.spec_key(),
    ;

    /// The English wording of the key's text.
    spec fn spec_english_text(&self) -> Seq<char>;

    /// Every key, in order of declaration.
    spec fn spec_all_variants() -> Seq<Self>;

    fn english_text(&self) -> (r: &'static str)
        ensures
            r@ == self.spec_english_text(),
    ;

    fn all_variants() -> (r: Vec<Self>)
        ensures
            r@ == Self::spec_all_variants(),
    ;
}

/// A language code such as `en_us`, the name of its file without `.json`.
#[derive(Debug, Clone, PartialEq, Eq, Hash)]
pub struct LanguageCode(pub String);

/// A language: its code, its display name, and its translations in the
/// order of its file, each key once.
#[derive(Debug, Clone, PartialEq, Eq)]
pub struct Language {
    pub code: LanguageCode,
    pub name: String,
    pub translation_map: Vec<(String, String)>,
}

/// The code of the language used when no other is chosen.
pub open spec fn default_language_code() -> Seq<char> {
    "en_us"@
}

/// Where the language files are read from by default.
pub open spec fn default_language_path() -> Seq<char> {
    "./resources/assets/localization"@
}

/// The translation of the first entry with key `key`.
pub open spec fn lookup(map: Seq<(String, String)>, key: Seq<char>) -> Option<Seq<char>>
    decreases map.len(),
{
    if map.len() == 0 {
        None
    } else if map[0].0@ == key {
        Some(map[0].1@)
    } else {
        lookup(map.drop_first(), key)
    }
}

/// The first language with code `code`.
pub open spec fn find_language(languages: Seq<Language>, code: Seq<char>) -> Option<Language>
    decreases languages.len(),
{
    if languages.len() == 0 {
        None
    } else if languages[0].code.0@ == code {
        Some(languages[0])
    } else {
        find_language(languages.drop_first(), code)
    }
}

/// No two languages share a code.
pub open spec fn distinct_codes(languages: Seq<Language>) -> bool {
    forall|i: int, j: int|
        0 <= i < j < languages.len() ==> (#[trigger] languages[i]).code.0@ != (
        #[trigger] languages[j]).code.0@
}

/// The languages after adding `language`: it replaces a language with the
/// same code, and otherwise comes last.
pub open spec fn with_language(languages: Seq<Language>, language: Language) -> Seq<Language>
    decreases languages.len(),
{
    if languages.len() == 0 {
        seq![language]
    } else if languages[0].code.0@ == language.code.0@ {
        seq![language] + languages.drop_first()
    } else {
        seq![languages[0]] + with_language(languages.drop_first(), language)
    }
}

/// Why loading translations failed.
#[derive(Debug, Clone, PartialEq, Eq)]
pub enum TranslationError {
    /// The language files could not be read.
    IO(String),
    /// A translation entry is not text.
    Parse(String),
    /// No language has the code.
    LanguageNotFound(String),
    /// The language folder is not a folder.
    InvalidFilepath(String),
}

/// Why a language file was passed over.
#[derive(Debug, Clone, PartialEq, Eq)]
pub enum LanguageFileError {
    /// The file is not a JSON object.
    NotObject,
    /// The object has no `name`.
    MissingName,
    /// The object has no `translations`.
    MissingTranslations,
    /// `translations` is not an object.
    TranslationsNotObject,
    /// The translation of this key is not a string.
    NonStringTranslation(String),
}

/// Whether `name` is, when present, a string (a file whose `name` is
/// something else cannot be loaded).
pub open spec fn name_is_text(json: JsonValue) -> bool {
    match json.spec_get("name"@) {
        Some(JsonValue::String(_)) => true,
        None => true,
        _ => false,
    }
}

/// The translations of an object's members, when all are strings.
pub open spec fn text_members(members: Seq<(String, JsonValue)>) -> Result<Seq<(Seq<char>, Seq<char>)>, Seq<char>>
    decreases members.len(),
{
    if members.len() == 0 {
        Ok(Seq::empty())
    } else {
        match text_members(members.drop_last()) {
            Err(k) => Err(k),
            Ok(front) => match members.last().1 {
                JsonValue::String(t) => Ok(front.push((members.last().0@, t@))),
                _ => Err(members.last().0@),
            },
        }
    }
}

pub open spec fn pair_views(map: Seq<(String, String)>) -> Seq<(Seq<char>, Seq<char>)> {
    map.map_values(|p: (String, String)| (p.0@, p.1@))
}

/// The kinds of `LanguageFileError`.
#[derive(Debug, Clone, Copy, PartialEq, Eq, Structural)]
pub enum LanguageFileFailure {
    NotObject,
    MissingName,
    MissingTranslations,
    TranslationsNotObject,
    NonStringTranslation,
}

impl LanguageFileError {
    pub open spec fn failure(&self) -> LanguageFileFailure {
        match self {
            LanguageFileError::NotObject => LanguageFileFailure::NotObject,
            LanguageFileError::MissingName => LanguageFileFailure::MissingName,
            LanguageFileError::MissingTranslations => LanguageFileFailure::MissingTranslations,
            LanguageFileError::TranslationsNotObject => LanguageFileFailure::TranslationsNotObject,
            LanguageFileError::NonStringTranslation(_) => LanguageFileFailure::NonStringTranslation,
        }
    }

    /// The key whose translation is not a string; empty for other errors.
    pub open spec fn key(&self) -> Seq<char> {
        match self {
            LanguageFileError::NonStringTranslation(k) => k@,
            _ => Seq::empty(),
        }
    }
}

/// The name and translations a language file describes, or why it is
/// passed over (with the offending key, if a translation is not text).
pub open spec fn language_file_spec(json: JsonValue) -> Result<(Seq<char>, Seq<(Seq<char>, Seq<char>)>), (LanguageFileFailure, Seq<char>)> {
    match json {
        JsonValue::Object(_) => match json.spec_get("name"@) {
            None => Err((LanguageFileFailure::MissingName, Seq::empty())),
            Some(name) => match json.spec_get("translations"@) {
                None => Err((LanguageFileFailure::MissingTranslations, Seq::empty())),
                Some(JsonValue::Object(members)) => match text_members(members@) {
                    Ok(pairs) => Ok(
                        (
                            match name {
                                JsonValue::String(n) => n@,
                                _ => Seq::empty(),
                            },
                            pairs,
                        ),
                    ),
                    Err(k) => Err((LanguageFileFailure::NonStringTranslation, k)),
                },
                Some(_) => Err((LanguageFileFailure::TranslationsNotObject, Seq::empty())),
            },
        },
        _ => Err((LanguageFileFailure::NotObject, Seq::empty())),
    }
}

/// The language that the file of language `code` describes.
pub fn language_from_json(code: String, json: &JsonValue) -> (r: Result<Language, LanguageFileError>)
    requires
        name_is_text(*json),
    ensures
        match (r, language_file_spec(*json)) {
            (Ok(l), Ok((name, pairs))) => l.code.0@ == code@ && l.name@ == name && pair_views(
                l.translation_map@,
            ) == pairs,
            (Err(e), Err((failure, key))) => e.failure() == failure && e.key() == key,
            _ => false,
        },
{
    match json {
        JsonValue::Object(_) => {},
        _ => {
            return Err(LanguageFileError::NotObject);
        },
    }
    let name = match json.get("name") {
        Some(JsonValue::String(name)) => name.clone(),
        Some(_) => {
            assert(false);
            return Err(LanguageFileError::MissingName);
        },
        None => {
            return Err(LanguageFileError::MissingName);
        },
    };
    let members = match json.get("translations") {
        Some(JsonValue::Object(members)) => members,
        Some(_) => {
            return Err(LanguageFileError::TranslationsNotObject);
        },
        None => {
            return Err(LanguageFileError::MissingTranslations);
        },
    };
    let translation_map = load_translations(members)?;
    Ok(Language { code: LanguageCode(code), name, translation_map })
}

/// The translations of an object's members, or the first key whose value
/// is not a string.
fn load_translations(members: &Vec<(String, JsonValue)>) -> (r: Result<Vec<(String, String)>, LanguageFileError>)
    ensures
        match (r, text_members(members@)) {
            (Ok(map), Ok(pairs)) => pair_views(map@) == pairs,
            (Err(e), Err(k)) => e.failure() == LanguageFileFailure::NonStringTranslation && e.key()
                == k,
            _ => false,
        },
{
    let mut map: Vec<(String, String)> = Vec::new();
    let mut i: usize = 0;
    assert(members@.take(0) =~= Seq::<(String, JsonValue)>::empty());
    assert(pair_views(map@) =~= Seq::<(Seq<char>, Seq<char>)>::empty());
    while i < members.len()
        invariant
            i <= members@.len(),
            text_members(members@.take(i as int)) == Ok::<
                Seq<(Seq<char>, Seq<char>)>,
                Seq<char>,
            >(pair_views(map@)),
        decreases members@.len() - i,
    {
        let ghost t = members@.take(i + 1);
        assert(t.drop_last() =~= members@.take(i as int));
        assert(t.last() == members@[i as int]);
        match &members[i].1 {
            JsonValue::String(text) => {
                let ghost before = map@;
                map.push((members[i].0.clone(), text.clone()));
                assert(pair_views(map@) =~= pair_views(before).push(
                    (members@[i as int].0@, text@),
                ));
            },
            _ => {
                proof {
                    lemma_text_members_prefix_error(members@, i + 1);
                }
                return Err(LanguageFileError::NonStringTranslation(members[i].0.clone()));
            },
        }
        i = i + 1;
    }
    assert(members@.take(i as int) =~= members@);
    Ok(map)
}

/// A failing prefix makes the whole object fail the same way.
pub proof fn lemma_text_members_prefix_error(members: Seq<(String, JsonValue)>, n: int)
    requires
        0 <= n <= members.len(),
        text_members(members.take(n)) is Err,
    ensures
        text_members(members) == text_members(members.take(n)),
    decreases members.len() - n,
{
    if n < members.len() {
        assert(members.take(n + 1).drop_last() =~= members.take(n));
        lemma_text_members_prefix_error(members, n + 1);
    } else {
        assert(members.take(n) =~= members);
    }
}

/// Two languages with the same code, name and translations.
pub open spec fn same_language(a: Language, b: Language) -> bool {
    a.code == b.code && a.name == b.name && a.translation_map@ == b.translation_map@
}

/// Two lookups that found the same language, or both nothing.
pub open spec fn same_found(a: Option<Language>, b: Option<Language>) -> bool {
    match (a, b) {
        (Some(x), Some(y)) => same_language(x, y),
        (None, None) => true,
        _ => false,
    }
}

fn clone_language(l: &Language) -> (r: Language)
    ensures
        same_language(r, *l),
{
    let mut map: Vec<(String, String)> = Vec::new();
    let mut i: usize = 0;
    while i < l.translation_map.len()
        invariant
            i <= l.translation_map@.len(),
            map@ =~= l.translation_map@.take(i as int),
        decreases l.translation_map@.len() - i,
    {
        let (k, v) = &l.translation_map[i];
        map.push((k.clone(), v.clone()));
        i = i + 1;
    }
    assert(map@ =~= l.translation_map@);
    Language { code: LanguageCode(l.code.0.clone()), name: l.name.clone(), translation_map: map }
}

/// The index of the first language with the code.
fn language_index(languages: &Vec<Language>, code: &str) -> (r: Option<usize>)
    ensures
        match r {
            Some(i) => i < languages@.len() && languages@[i as int].code.0@ == code@ && (forall|j: int|
                0 <= j < i ==> (#[trigger] languages@[j]).code.0@ != code@) && find_language(
                languages@,
                code@,
            ) == Some(languages@[i as int]),
            None => find_language(languages@, code@) is None,
        },
{
    let mut i: usize = 0;
    while i < languages.len()
        invariant
            i <= languages@.len(),
            forall|j: int| 0 <= j < i ==> (#[trigger] languages@[j]).code.0@ != code@,
        decreases languages@.len() - i,
    {
        if str_eq(languages[i].code.0.as_str(), code) {
            proof {
                lemma_find_first(languages@, code@, i as int);
            }
            return Some(i);
        }
        i = i + 1;
    }
    proof {
        lemma_find_absent(languages@, code@);
    }
    None
}

proof fn lemma_find_absent(languages: Seq<Language>, code: Seq<char>)
    requires
        forall|j: int| 0 <= j < languages.len() ==> (#[trigger] languages[j]).code.0@ != code,
    ensures
        find_language(languages, code) is None,
    decreases languages.len(),
{
    if languages.len() > 0 {
        let rest = languages.drop_first();
        assert forall|j: int| 0 <= j < rest.len() implies (#[trigger] rest[j]).code.0@ != code by {
            assert(rest[j] == languages[j + 1]);
        }
        lemma_find_absent(rest, code);
    }
}

/// The translation of the first entry with the key.
fn translation_for(map: &Vec<(String, String)>, key: &str) -> (r: Option<String>)
    ensures
        match r {
            Some(t) => lookup(map@, key@) == Some(t@),
            None => lookup(map@, key@) is None,
        },
{
    let mut i: usize = 0;
    assert(map@.skip(0) =~= map@);
    while i < map.len()
        invariant
            i <= map@.len(),
            lookup(map@, key@) == lookup(map@.skip(i as int), key@),
        decreases map@.len() - i,
    {
        let ghost rest = map@.skip(i as int);
        assert(rest.drop_first() =~= map@.skip(i + 1));
        assert(rest[0] == map@[i as int]);
        if str_eq(map[i].0.as_str(), key) {
            return Some(map[i].1.clone());
        }
        i = i + 1;
    }
    assert(map@.skip(i as int) =~= Seq::<(String, String)>::empty());
    None
}

/// Adds a language, replacing one with the same code.
pub fn insert_language(languages: &mut Vec<Language>, language: Language)
    ensures
        final(languages)@ == with_language(old(languages)@, language),
{
    let ghost original = languages@;
    match language_index(languages, language.code.0.as_str()) {
        Some(i) => {
            proof {
                lemma_with_language_at(original, language, i as int);
            }
            languages.set(i, language);
        },
        None => {
            proof {
                lemma_with_language_absent(original, language);
            }
            languages.push(language);
        },
    }
}

/// Replacing at the first index with the code is adding.
proof fn lemma_with_language_at(languages: Seq<Language>, language: Language, i: int)
    requires
        0 <= i < languages.len(),
        find_language(languages, language.code.0@) == Some(languages[i]),
        languages[i].code.0@ == language.code.0@,
        forall|j: int| 0 <= j < i ==> languages[j].code.0@ != language.code.0@,
    ensures
        with_language(languages, language) == languages.update(i, language),
    decreases i,
{
    if i == 0 {
        assert(seq![language] + languages.drop_first() =~= languages.update(0, language));
    } else {
        let rest = languages.drop_first();
        assert(rest[i - 1] == languages[i]);
        assert forall|j: int| 0 <= j < i - 1 implies rest[j].code.0@ != language.code.0@ by {
            assert(rest[j] == languages[j + 1]);
        }
        assert(find_language(rest, language.code.0@) == Some(rest[i - 1])) by {
            lemma_find_first(rest, language.code.0@, i - 1);
        }
        lemma_with_language_at(rest, language, i - 1);
        assert(seq![languages[0]] + rest.update(i - 1, language) =~= languages.update(i, language));
    }
}

proof fn lemma_find_first(languages: Seq<Language>, code: Seq<char>, i: int)
    requires
        0 <= i < languages.len(),
        languages[i].code.0@ == code,
        forall|j: int| 0 <= j < i ==> languages[j].code.0@ != code,
    ensures
        find_language(languages, code) == Some(languages[i]),
    decreases i,
{
    if i > 0 {
        let rest = languages.drop_first();
        assert forall|j: int| 0 <= j < i - 1 implies rest[j].code.0@ != code by {
            assert(rest[j] == languages[j + 1]);
        }
        lemma_find_first(rest, code, i - 1);
    }
}

proof fn lemma_find_none(languages: Seq<Language>, code: Seq<char>)
    requires
        find_language(languages, code) is None,
    ensures
        forall|j: int| 0 <= j < languages.len() ==> (#[trigger] languages[j]).code.0@ != code,
    decreases languages.len(),
{
    if languages.len() > 0 {
        let rest = languages.drop_first();
        lemma_find_none(rest, code);
        assert forall|j: int| 0 <= j < languages.len() implies (#[trigger] languages[j]).code.0@
            != code by {
            if j > 0 {
                assert(languages[j] == rest[j - 1]);
            }
        }
    }
}

/// The index of the language a successful lookup finds.
proof fn lemma_find_index(languages: Seq<Language>, code: Seq<char>) -> (i: int)
    requires
        find_language(languages, code) is Some,
    ensures
        0 <= i < languages.len(),
        find_language(languages, code) == Some(languages[i]),
        languages[i].code.0@ == code,
        forall|j: int| 0 <= j < i ==> languages[j].code.0@ != code,
    decreases languages.len(),
{
    if languages[0].code.0@ == code {
        0
    } else {
        let rest = languages.drop_first();
        let k = lemma_find_index(rest, code);
        assert forall|j: int| 0 <= j < k + 1 implies languages[j].code.0@ != code by {
            if j > 0 {
                assert(languages[j] == rest[j - 1]);
            }
        }
        k + 1
    }
}

/// Adding a language with a new code appends it.
proof fn lemma_with_language_absent(languages: Seq<Language>, language: Language)
    requires
        find_language(languages, language.code.0@) is None,
    ensures
        with_language(languages, language) == languages.push(language),
    decreases languages.len(),
{
    if languages.len() == 0 {
        assert(seq![language] =~= languages.push(language));
    } else {
        let rest = languages.drop_first();
        lemma_with_language_absent(rest, language);
        assert(seq![languages[0]] + rest.push(language) =~= languages.push(language));
    }
}

/// The editor's translations: the languages read, with the current and
/// the default language.
#[derive(Debug, Clone, PartialEq, Eq)]
pub struct TranslationService {
    pub language_path: String,
    pub current_language_code: LanguageCode,
    pub default_language_code: LanguageCode,
    pub languages: Vec<Language>,
}

impl TranslationService {
    /// Both the current and the default language are among the languages.
    pub open spec fn has_languages(&self) -> bool {
        &&& find_language(self.languages@, self.current_language_code.0@) is Some
        &&& find_language(self.languages@, self.default_language_code.0@) is Some
    }

    /// The translation a key gets: from the current language, else from the
    /// default language, else the key itself.
    pub open spec fn spec_translate(&self, key: Seq<char>) -> Seq<char> {
        let current = find_language(self.languages@, self.current_language_code.0@).unwrap();
        let default = find_language(self.languages@, self.default_language_code.0@).unwrap();
        match lookup(current.translation_map@, key) {
            Some(t) => t,
            None => match lookup(default.translation_map@, key) {
                Some(t) => t,
                None => key,
            },
        }
    }

    /// A service over `languages`, read from `language_path`, starting in
    /// language `language_code`, which is also the default.
    pub fn with_languages(language_code: LanguageCode, language_path: String, languages: Vec<Language>) -> (r: Self)
        ensures
            r.current_language_code == language_code && r.default_language_code == language_code
                && r.language_path == language_path && r.languages@ == languages@,
    {
        TranslationService {
            language_path,
            current_language_code: LanguageCode(language_code.0.clone()),
            default_language_code: language_code,
            languages,
        }
    }

    /// A service over `languages`, read from the default folder, starting
    /// in the default language `en_us`.
    pub fn with_default_language(languages: Vec<Language>) -> (r: Self)
        ensures
            r.current_language_code.0@ == default_language_code() && r.default_language_code.0@
                == default_language_code() && r.language_path@ == default_language_path()
                && r.languages@ == languages@,
    {
        proof {
            reveal_strlit("en_us");
            reveal_strlit("./resources/assets/localization");
        }
        Self::with_languages(
            LanguageCode("en_us".to_owned()),
            "./resources/assets/localization".to_owned(),
            languages,
        )
    }

    /// A service over the languages read from the folder at
    /// `language_path` (see `read_languages`), starting in language
    /// `language_code`, which is also the default; a failed reading is
    /// reported.
    pub fn try_new<F: FilesystemProvider>(language_code: LanguageCode, language_path: String, filesystem: &F) -> (r:
        Result<Self, TranslationError>)
        ensures
            exists|read: Result<Vec<Language>, TranslationError>| #![auto]
                folder_read(*filesystem, language_path@, read) && match read {
                    Ok(languages) => r matches Ok(s) && s.current_language_code == language_code
                        && s.default_language_code == language_code && s.language_path
                        == language_path && s.languages@ == languages@,
                    Err(e) => r == Err::<Self, TranslationError>(e),
                },
    {
        let read = Self::read_languages(language_path.as_str(), filesystem);
        let ghost given = read;
        match read {
            Ok(languages) => Ok(Self::with_languages(language_code, language_path, languages)),
            Err(e) => Err(e),
        }
    }

    /// A service over the languages read from the default folder,
    /// starting in the default language `en_us` (see `try_new`).
    pub fn try_with_default_language<F: FilesystemProvider>(filesystem: &F) -> (r: Result<Self, TranslationError>)
        ensures
            exists|read: Result<Vec<Language>, TranslationError>| #![auto]
                folder_read(*filesystem, default_language_path(), read) && match read {
                    Ok(languages) => r matches Ok(s) && s.current_language_code.0@ == default_language_code()
                        && s.default_language_code.0@ == default_language_code() && s.language_path@
                        == default_language_path() && s.languages@ == languages@,
                    Err(e) => r == Err::<Self, TranslationError>(e),
                },
    {
        proof {
            reveal_strlit("en_us");
            reveal_strlit("./resources/assets/localization");
        }
        let code = LanguageCode("en_us".to_owned());
        let path = "./resources/assets/localization".to_owned();
        assert(path@ == default_language_path() && code.0@ == default_language_code());
        let ghost given_code = code;
        let ghost given_path = path;
        let r = Self::try_new(code, path, filesystem);
        proof {
            let read = choose|read: Result<Vec<Language>, TranslationError>| #![auto]
                folder_read(*filesystem, given_path@, read) && match read {
                    Ok(languages) => r matches Ok(s) && s.current_language_code == given_code
                        && s.default_language_code == given_code && s.language_path == given_path
                        && s.languages@ == languages@,
                    Err(e) => r == Err::<Self, TranslationError>(e),
                };
            assert(folder_read(*filesystem, default_language_path(), read));
        }
        r
    }

    /// The translation of `key`.
    pub fn translate<K: TranslationKey>(&self, key: &K) -> (r: String)
        requires
            self.has_languages(),
        ensures
            r@ == self.spec_translate(key.spec_key()),
    {
        self.translate_str(key.key())
    }

    /// The translation of the key text `key`.
    pub fn translate_str(&self, key: &str) -> (r: String)
        requires
            self.has_languages(),
        ensures
            r@ == self.spec_translate(key@),
    {
        let current = self.get_current_language();
        match translation_for(&current.translation_map, key) {
            Some(t) => t,
            None => {
                let default = self.get_default_language();
                match translation_for(&default.translation_map, key) {
                    Some(t) => t,
                    None => key.to_owned(),
                }
            },
        }
    }

    /// Makes `language` current, when a language with its code was read.
    pub fn set_language(&mut self, language: &Language) -> (r: Result<(), TranslationError>)
        ensures
            final(self).languages == old(self).languages,
            final(self).default_language_code == old(self).default_language_code,
            final(self).language_path == old(self).language_path,
            match r {
                Ok(()) => find_language(old(self).languages@, language.code.0@) is Some
                    && final(self).current_language_code.0@ == language.code.0@,
                Err(e) => find_language(old(self).languages@, language.code.0@) is None
                    && final(self).current_language_code == old(self).current_language_code
                    && e == TranslationError::LanguageNotFound(language.code.0),
            },
    {
        match language_index(&self.languages, language.code.0.as_str()) {
            None => Err(TranslationError::LanguageNotFound(language.code.0.clone())),
            Some(_) => {
                self.current_language_code = LanguageCode(language.code.0.clone());
                Ok(())
            },
        }
    }

    /// Makes the default language current.
    pub fn set_language_to_default(&mut self) -> (r: Result<(), TranslationError>)
        requires
            old(self).has_languages(),
        ensures
            r is Ok,
            final(self).languages == old(self).languages,
            final(self).default_language_code == old(self).default_language_code,
            final(self).language_path == old(self).language_path,
            final(self).current_language_code.0@ == old(self).default_language_code.0@,
    {
        let default = self.get_default_language();
        proof {
            lemma_find_index(self.languages@, self.default_language_code.0@);
        }
        self.set_language(&default)
    }

    /// Every language read.
    pub fn get_languages(&self) -> (r: Vec<Language>)
        ensures
            r@.len() == self.languages@.len(),
            forall|i: int| 0 <= i < r@.len() ==> same_language(#[trigger] r@[i], self.languages@[i]),
    {
        let mut r: Vec<Language> = Vec::new();
        let mut i: usize = 0;
        while i < self.languages.len()
            invariant
                i <= self.languages@.len(),
                r@.len() == i,
                forall|k: int| 0 <= k < i ==> same_language(#[trigger] r@[k], self.languages@[k]),
            decreases self.languages@.len() - i,
        {
            r.push(clone_language(&self.languages[i]));
            i = i + 1;
        }
        r
    }

    /// The language with the code, if one was read.
    pub fn get_language(&self, code: LanguageCode) -> (r: Option<Language>)
        ensures
            same_found(r, find_language(self.languages@, code.0@)),
    {
        match language_index(&self.languages, code.0.as_str()) {
            Some(i) => Some(clone_language(&self.languages[i])),
            None => None,
        }
    }

    pub fn get_current_language(&self) -> (r: Language)
        requires
            find_language(self.languages@, self.current_language_code.0@) is Some,
        ensures
            same_found(Some(r), find_language(self.languages@, self.current_language_code.0@)),
    {
        let i = language_index(&self.languages, self.current_language_code.0.as_str()).unwrap();
        clone_language(&self.languages[i])
    }

    pub fn get_default_language(&self) -> (r: Language)
        requires
            find_language(self.languages@, self.default_language_code.0@) is Some,
        ensures
            same_found(Some(r), find_language(self.languages@, self.default_language_code.0@)),
    {
        let i = language_index(&self.languages, self.default_language_code.0.as_str()).unwrap();
        clone_language(&self.languages[i])
    }

    /// Takes these languages in place of the ones held; when the current
    /// language is not among them, the default language becomes current.
    pub fn replace_languages(&mut self, languages: Vec<Language>)
        ensures
            final(self).languages@ == languages@,
            final(self).default_language_code == old(self).default_language_code,
            final(self).language_path == old(self).language_path,
            final(self).current_language_code == (if find_language(
                languages@,
                old(self).current_language_code.0@,
            ) is Some {
                old(self).current_language_code
            } else {
                old(self).default_language_code
            }),
    {
        if language_index(&languages, self.current_language_code.0.as_str()).is_none() {
            self.current_language_code = LanguageCode(self.default_language_code.0.clone());
        }
        self.languages = languages;
    }

    /// Reads the languages again from the service's folder (see
    /// `read_languages`) and takes them as `replace_languages` does; a
    /// failed reading is reported and changes nothing.
    pub fn reload_languages<F: FilesystemProvider>(&mut self, filesystem: &F) -> (r: Result<(), TranslationError>)
        ensures
            exists|read: Result<Vec<Language>, TranslationError>| #![auto]
                folder_read(*filesystem, old(self).language_path@, read) && match read {
                    Err(e) => r == Err::<(), TranslationError>(e) && *final(self) == *old(self),
                    Ok(languages) => r is Ok && final(self).languages@ == languages@
                        && final(self).default_language_code == old(self).default_language_code
                        && final(self).language_path == old(self).language_path
                        && final(self).current_language_code == (if find_language(
                        languages@,
                        old(self).current_language_code.0@,
                    ) is Some {
                        old(self).current_language_code
                    } else {
                        old(self).default_language_code
                    }),
                },
    {
        let read = Self::read_languages(self.language_path.as_str(), filesystem);
        match read {
            Ok(languages) => {
                self.replace_languages(languages);
                Ok(())
            },
            Err(e) => Err(e),
        }
    }
}

/// Whether a directory entry is read as a language file: a file (not a
/// folder) whose extension is `json`.
pub fn is_language_file(is_directory: bool, extension: Option<&str>) -> (r: bool)
    ensures
        r == (!is_directory && match extension {
            Some(e) => e@ == "json"@,
            None => false,
        }),
{
    if is_directory {
        return false;
    }
    match extension {
        Some(e) => str_eq(e, "json"),
        None => false,
    }
}

/// Adding languages keeps their codes distinct.
pub proof fn lemma_with_language_distinct(languages: Seq<Language>, language: Language)
    requires
        distinct_codes(languages),
    ensures
        distinct_codes(with_language(languages, language)),
        find_language(with_language(languages, language), language.code.0@) == Some(language),
{
    if find_language(languages, language.code.0@) is Some {
        let i = lemma_find_index(languages, language.code.0@);
        lemma_with_language_at(languages, language, i);
        let s = languages.update(i, language);
        assert forall|a: int, b: int| 0 <= a < b < s.len() implies (#[trigger] s[a]).code.0@ != (
        #[trigger] s[b]).code.0@ by {
            assert(languages[a].code.0@ != languages[b].code.0@);
        }
        lemma_find_first(s, language.code.0@, i);
    } else {
        lemma_with_language_absent(languages, language);
        lemma_find_none(languages, language.code.0@);
        let s = languages.push(language);
        assert forall|i: int, j: int| 0 <= i < j < s.len() implies (#[trigger] s[i]).code.0@ != (
        #[trigger] s[j]).code.0@ by {
            if j == languages.len() {
                assert(languages[i].code.0@ != language.code.0@);
            }
        }
        lemma_find_first(s, language.code.0@, languages.len() as int);
    }
}

/// Whether the language folder may be read: only a path that exists and is
/// not a file; a failure to look is reported with its message.
pub fn language_folder_check(path: &str, status: Result<PathValidationStatus, FilesystemProviderError>) -> (r:
    Result<(), TranslationError>)
    ensures
        match status {
            Err(e) => r matches Err(TranslationError::IO(m)) && m@ == e.message(),
            Ok(s) => if s == (PathValidationStatus::Valid { is_file: false }) {
                r is Ok
            } else {
                r matches Err(TranslationError::InvalidFilepath(p)) && p@ == path@
            },
        },
{
    match status {
        Err(e) => Err(TranslationError::IO(e.to_string())),
        Ok(PathValidationStatus::Valid { is_file: false }) => Ok(()),
        Ok(_) => Err(TranslationError::InvalidFilepath(path.to_string())),
    }
}

/// The language code a folder entry is read under: the stem of its file
/// name, for a file whose extension is `json`; nothing for other entries.
pub open spec fn language_code_of(path: Seq<char>, is_directory: bool) -> Option<Seq<char>> {
    if !is_directory && file_name(path) is Some && file_extension(file_name(path)->0) == Some("json"@) {
        Some(file_stem(file_name(path)->0))
    } else {
        None
    }
}

/// The language code a folder entry is read under (see `language_code_of`).
pub fn language_file_code(path: &str, is_directory: bool) -> (r: Option<String>)
    ensures
        match r {
            Some(c) => language_code_of(path@, is_directory) == Some(c@),
            None => language_code_of(path@, is_directory) is None,
        },
{
    let name = match path_file_name(path) {
        Some(n) => n,
        None => {
            return None;
        },
    };
    let extension = name_extension(name.as_str());
    let given: Option<&str> = match &extension {
        Some(e) => Some(e.as_str()),
        None => None,
    };
    if is_language_file(is_directory, given) {
        Some(name_stem(name.as_str()))
    } else {
        None
    }
}

/// What one language file comes to, given the JSON it reads as: a file
/// that is not JSON, or that does not describe a language (see
/// `language_file_spec`), is passed over; one that would describe a
/// language but whose `name` is not text is refused with a `Parse` error
/// carrying its code; else the language it describes, under `code`.
pub open spec fn entry_outcome(
    code: Seq<char>,
    parsed: Option<JsonValue>,
    r: Result<Option<Language>, TranslationError>,
) -> bool {
    match parsed {
        None => r == Ok::<Option<Language>, TranslationError>(None),
        Some(j) => match language_file_spec(j) {
            Err(_) => r == Ok::<Option<Language>, TranslationError>(None),
            Ok((name, pairs)) => if name_is_text(j) {
                r matches Ok(Some(l)) && l.code.0@ == code && l.name@ == name && pair_views(
                    l.translation_map@,
                ) == pairs
            } else {
                r matches Err(TranslationError::Parse(m)) && m@ == code
            },
        },
    }
}

/// What one language file comes to, given the JSON it reads as (see
/// `entry_outcome`).
pub fn language_entry_outcome(code: String, parsed: Option<JsonValue>) -> (r: Result<Option<Language>, TranslationError>)
    ensures
        entry_outcome(code@, parsed, r),
{
    match parsed {
        None => Ok(None),
        Some(json) => {
            if name_is_string(&json) {
                match language_from_json(code, &json) {
                    Ok(language) => Ok(Some(language)),
                    Err(_) => Ok(None),
                }
            } else if describes_language(&json) {
                Err(TranslationError::Parse(code))
            } else {
                Ok(None)
            }
        },
    }
}

/// Whether `name` is, when present, a string.
fn name_is_string(json: &JsonValue) -> (r: bool)
    ensures
        r == name_is_text(*json),
{
    match json.get("name") {
        Some(JsonValue::String(_)) => true,
        Some(_) => false,
        None => true,
    }
}

/// Whether the JSON describes a language, whatever its name is.
fn describes_language(json: &JsonValue) -> (r: bool)
    ensures
        r == language_file_spec(*json) is Ok,
{
    match json {
        JsonValue::Object(_) => {},
        _ => {
            return false;
        },
    }
    if json.get("name").is_none() {
        return false;
    }
    match json.get("translations") {
        Some(JsonValue::Object(members)) => load_translations(members).is_ok(),
        _ => false,
    }
}

/// What one language file comes to, given what reading it gave (see
/// `read_language_file`).
pub open spec fn file_outcome(
    code: Seq<char>,
    read: Result<Vec<u8>, FilesystemProviderError>,
    r: Result<Option<Language>, TranslationError>,
) -> bool {
    match read {
        Err(e) => r matches Err(TranslationError::IO(m)) && m@ == e.message(),
        Ok(bytes) => entry_outcome(code, json_bytes_value(bytes@), r),
    }
}

/// What one language file comes to, given what reading it gave: a failed
/// read is an `IO` error with its message; read bytes come to what the
/// JSON they read as comes to (see `entry_outcome`).
pub fn read_language_file(code: String, read: Result<Vec<u8>, FilesystemProviderError>) -> (r: Result<
    Option<Language>,
    TranslationError,
>)
    ensures
        file_outcome(code@, read, r),
{
    match read {
        Err(e) => Err(TranslationError::IO(e.to_string())),
        Ok(bytes) => language_entry_outcome(code, parse_json_bytes(&bytes)),
    }
}

/// What one folder entry comes to, given the file system's answers: an
/// entry whose kind cannot be told, a folder, or a file that is no
/// language file is passed over unread; a language file is read, and comes
/// to what `read_language_file` makes of the answer.
pub open spec fn entry_answered<F: FilesystemProvider>(
    filesystem: F,
    entry: Seq<char>,
    outcome: Result<Option<Language>, TranslationError>,
) -> bool {
    exists|kind: Result<bool, FilesystemProviderError>| #![auto]
        filesystem.may_check_dir_as(entry, kind) && match kind {
            Err(_) => outcome == Ok::<Option<Language>, TranslationError>(None),
            Ok(is_directory) => match language_code_of(entry, is_directory) {
                None => outcome == Ok::<Option<Language>, TranslationError>(None),
                Some(code) => exists|read: Result<Vec<u8>, FilesystemProviderError>| #![auto]
                    filesystem.may_read_as(entry, read) && file_outcome(code, read, outcome),
            },
        }
}

/// The languages gathered from the entries' outcomes, in order: each
/// language read is added, replacing one of the same code.
pub open spec fn gathered(outcomes: Seq<Result<Option<Language>, TranslationError>>) -> Seq<Language>
    decreases outcomes.len(),
{
    if outcomes.len() == 0 {
        Seq::empty()
    } else {
        let front = gathered(outcomes.drop_last());
        match outcomes.last() {
            Ok(Some(l)) => with_language(front, l),
            _ => front,
        }
    }
}

/// What reading a folder's entries comes to, given the file system's
/// answers for each: the entries are taken in order; the first whose
/// outcome is an error ends the reading with it; else the languages
/// gathered from all of them.
pub open spec fn entries_read<F: FilesystemProvider>(
    filesystem: F,
    entries: Seq<String>,
    r: Result<Vec<Language>, TranslationError>,
) -> bool {
    exists|outcomes: Seq<Result<Option<Language>, TranslationError>>| #![auto]
        outcomes.len() <= entries.len() && (forall|i: int|
            0 <= i < outcomes.len() ==> entry_answered(filesystem, entries[i]@, #[trigger] outcomes[i]))
            && match r {
            Ok(languages) => outcomes.len() == entries.len() && (forall|i: int|
                0 <= i < outcomes.len() ==> (#[trigger] outcomes[i]) is Ok) && languages@ == gathered(
                outcomes,
            ),
            Err(e) => outcomes.len() > 0 && (forall|i: int|
                0 <= i < outcomes.len() - 1 ==> (#[trigger] outcomes[i]) is Ok) && outcomes.last()
                == Err::<Option<Language>, TranslationError>(e),
        }
}

/// What reading the language folder at `path` comes to, given the file
/// system's answers: a failure to look at the path, or to list it, is an
/// `IO` error with its message; a path that is not a folder is refused;
/// otherwise the entries are read as `entries_read` says.
pub open spec fn folder_read<F: FilesystemProvider>(
    filesystem: F,
    path: Seq<char>,
    r: Result<Vec<Language>, TranslationError>,
) -> bool {
    exists|status: Result<PathValidationStatus, FilesystemProviderError>| #![auto]
        filesystem.may_validate_as(path, status) && match status {
            Err(e) => r matches Err(TranslationError::IO(m)) && m@ == e.message(),
            Ok(s) => if s != (PathValidationStatus::Valid { is_file: false }) {
                r matches Err(TranslationError::InvalidFilepath(p)) && p@ == path
            } else {
                exists|listing: Result<Vec<String>, FilesystemProviderError>| #![auto]
                    filesystem.may_list_as(path, listing) && match listing {
                        Err(e) => r matches Err(TranslationError::IO(m)) && m@ == e.message(),
                        Ok(entries) => entries_read(filesystem, entries@, r),
                    }
            },
        }
}

impl TranslationService {
    /// The languages of the language files in the folder at `path`, each
    /// code once (a later file replaces an earlier one of the same code).
    /// A path that is not a folder is refused, and a failure to look at
    /// it or to list it ends the reading with an `IO` error; the entries
    /// are then read as `entries_read` says.
    pub fn read_languages<F: FilesystemProvider>(path: &str, filesystem: &F) -> (r: Result<
        Vec<Language>,
        TranslationError,
    >)
        ensures
            folder_read(*filesystem, path@, r),
            r is Ok ==> distinct_codes(r->Ok_0@),
    {
        let status = filesystem.validate_path(path);
        let ghost given_status = status;
        match language_folder_check(path, status) {
            Ok(()) => {},
            Err(e) => {
                return Err(e);
            },
        }
        let listing = filesystem.list_directory(path);
        let ghost given_listing = listing;
        let entries = match listing {
            Ok(entries) => entries,
            Err(e) => {
                return Err(TranslationError::IO(e.to_string()));
            },
        };
        let r = Self::read_entries(&entries, filesystem);
        assert(filesystem.may_list_as(path@, given_listing));
        r
    }

    /// The languages of the folder entries at `entries` (see `entries_read`).
    fn read_entries<F: FilesystemProvider>(entries: &Vec<String>, filesystem: &F) -> (r: Result<
        Vec<Language>,
        TranslationError,
    >)
        ensures
            entries_read(*filesystem, entries@, r),
            r is Ok ==> distinct_codes(r->Ok_0@),
    {
        let mut languages: Vec<Language> = Vec::new();
        let ghost mut outcomes: Seq<Result<Option<Language>, TranslationError>> = Seq::empty();
        let mut i: usize = 0;
        while i < entries.len()
            invariant
                i <= entries.len(),
                outcomes.len() == i,
                distinct_codes(languages@),
                languages@ == gathered(outcomes),
                forall|k: int| 0 <= k < i ==> entry_answered(*filesystem, entries@[k]@, #[trigger] outcomes[k]),
                forall|k: int| 0 <= k < i ==> (#[trigger] outcomes[k]) is Ok,
            decreases entries.len() - i,
        {
            let entry = entries[i].as_str();
            let kind = filesystem.is_directory(entry);
            let ghost given_kind = kind;
            let code = match kind {
                Ok(is_directory) => language_file_code(entry, is_directory),
                Err(_) => None,
            };
            let ghost mut given_read: Option<Result<Vec<u8>, FilesystemProviderError>> = None;
            let ghost given_code = code;
            let outcome = match code {
                None => Ok(None),
                Some(code) => {
                    let read = filesystem.read_file(entry);
                    proof {
                        given_read = Some(read);
                    }
                    read_language_file(code, read)
                },
            };
            let ghost o = outcome;
            proof {
                assert(entries@[i as int]@ == entry@);
                assert(filesystem.may_check_dir_as(entry@, given_kind));
                match given_kind {
                    Err(_) => {},
                    Ok(d) => {
                        match language_code_of(entry@, d) {
                            None => {},
                            Some(c) => {
                                let rd = given_read->0;
                                assert(filesystem.may_read_as(entry@, rd));
                                assert(c == given_code->0@);
                                assert(file_outcome(c, rd, o));
                            },
                        }
                    },
                }
                assert(entry_answered(*filesystem, entry@, o));
            }
            let ghost before = outcomes;
            proof {
                outcomes = outcomes.push(o);
                assert(outcomes.drop_last() =~= before);
            }
            match outcome {
                Ok(Some(language)) => {
                    proof {
                        lemma_with_language_distinct(languages@, language);
                    }
                    insert_language(&mut languages, language);
                },
                Ok(None) => {},
                Err(e) => {
                    assert(forall|k: int| 0 <= k < outcomes.len() - 1 ==> #[trigger] outcomes[k] == before[k]);
                    assert(entries_read(*filesystem, entries@, Err::<Vec<Language>, TranslationError>(e)));
                    return Err(e);
                },
            }
            assert(forall|k: int| 0 <= k < i ==> #[trigger] outcomes[k] == before[k]);
            i = i + 1;
        }
        assert(entries_read(*filesystem, entries@, Ok::<Vec<Language>, TranslationError>(languages)));
        Ok(languages)
    }
}

} // verus!
