//! The text editor's settings and the bookkeeping of its highlighter: the
//! themes, which lines restart from which saved parser state, and the
//! ranges of a line that each scope change covers.
use vstd::prelude::*;
use crate::version::MinecraftVersion;
use crate::services::zip_service::{
    file_extension, file_name, file_stem, name_extension, name_stem, path_file_name,
};
use crate::text::{dec_nat, push_dec_u128, string_push};

verus! {

/// A highlighting theme.
#[derive(Debug, Clone, Copy, PartialEq, Eq, Structural)]
pub enum Theme {
    SolarizedDark,
    Base16Mocha,
    Base16Ocean,
    Base16Eighties,
    InspiredGitHub,
}

/// The highlighter's settings.
#[derive(Debug, Clone, PartialEq, Eq)]
pub struct Settings {
    pub version: MinecraftVersion,
    pub theme: Theme,
    pub token: String,
}

/// Why a file could not be opened or saved.
#[derive(Debug, Clone, PartialEq, Eq)]
pub enum EditorError {
    DialogClosed,
    /// The operating system refused, with the kind of failure.
    IoError(String),
}

/// The number of lines between saved parser states.
pub const LINES_PER_SNAPSHOT: usize = 50;

impl Theme {
    pub open spec fn spec_is_dark(self) -> bool {
        self != Theme::InspiredGitHub
    }

    /// Every theme, in the order they are offered.
    pub fn all() -> (r: Vec<Theme>)
        ensures
            r@ == seq![
                Theme::SolarizedDark,
                Theme::Base16Mocha,
                Theme::Base16Ocean,
                Theme::Base16Eighties,
                Theme::InspiredGitHub,
            ],
    {
        vec![
            Theme::SolarizedDark,
            Theme::Base16Mocha,
            Theme::Base16Ocean,
            Theme::Base16Eighties,
            Theme::InspiredGitHub,
        ]
    }

    /// Whether the theme is dark: all are but Inspired GitHub.
    pub fn is_dark(self) -> (r: bool)
        ensures
            r == self.spec_is_dark(),
    {
        match self {
            Theme::SolarizedDark | Theme::Base16Mocha | Theme::Base16Ocean | Theme::Base16Eighties => true,
            Theme::InspiredGitHub => false,
        }
    }

    pub open spec fn spec_key(self) -> Seq<char> {
        match self {
            Theme::SolarizedDark => "Solarized (dark)"@,
            Theme::Base16Mocha => "base16-mocha.dark"@,
            Theme::Base16Ocean => "base16-ocean.dark"@,
            Theme::Base16Eighties => "base16-eighties.dark"@,
            Theme::InspiredGitHub => "InspiredGitHub"@,
        }
    }

    /// The name the theme has among the highlighter's default themes.
    pub fn key(self) -> (r: &'static str)
        ensures
            r@ == self.spec_key(),
    {
        match self {
            Theme::SolarizedDark => "Solarized (dark)",
            Theme::Base16Mocha => "base16-mocha.dark",
            Theme::Base16Ocean => "base16-ocean.dark",
            Theme::Base16Eighties => "base16-eighties.dark",
            Theme::InspiredGitHub => "InspiredGitHub",
        }
    }

    pub open spec fn spec_name(self) -> Seq<char> {
        match self {
            Theme::SolarizedDark => "Solarized Dark"@,
            Theme::Base16Mocha => "Mocha"@,
            Theme::Base16Ocean => "Ocean"@,
            Theme::Base16Eighties => "Eighties"@,
            Theme::InspiredGitHub => "Inspired GitHub"@,
        }
    }

    /// The name the theme is shown with.
    pub fn to_string(&self) -> (r: String)
        ensures
            r@ == self.spec_name(),
    {
        match self {
            Theme::SolarizedDark => "Solarized Dark".to_owned(),
            Theme::Base16Mocha => "Mocha".to_owned(),
            Theme::Base16Ocean => "Ocean".to_owned(),
            Theme::Base16Eighties => "Eighties".to_owned(),
            Theme::InspiredGitHub => "Inspired GitHub".to_owned(),
        }
    }
}

/// Where the highlighter stands: how many parser states are saved, one
/// per stretch of `LINES_PER_SNAPSHOT` lines, and the next line to
/// highlight.
#[derive(Debug, Clone, Copy, PartialEq, Eq, Structural)]
pub struct HighlightCursor {
    pub snapshots: usize,
    pub current_line: usize,
}

/// What moving to a line does to the saved states: keep this many, then
/// save a copy of the last kept one, or a fresh state when none is kept.
#[derive(Debug, Clone, Copy, PartialEq, Eq, Structural)]
pub struct LineChange {
    pub keep: usize,
    pub current_line: usize,
}

impl HighlightCursor {
    /// A highlighter that starts with one fresh state at the first line.
    pub fn new() -> (r: Self)
        ensures
            r == (HighlightCursor { snapshots: 1, current_line: 0 }),
    {
        HighlightCursor { snapshots: 1, current_line: 0 }
    }

    /// Moves to `line`: when a state is saved for its stretch or the one
    /// after the saved ones, the states after that stretch are dropped and
    /// highlighting resumes at the stretch's first line; otherwise only the
    /// first state is kept and highlighting starts over. A copy of the last
    /// kept state, or a fresh one, is then saved.
    pub fn change_line(&mut self, line: usize) -> (r: LineChange)
        ensures
            line / LINES_PER_SNAPSHOT <= old(self).snapshots ==> r == (LineChange {
                keep: (line / LINES_PER_SNAPSHOT) as usize,
                current_line: ((line / LINES_PER_SNAPSHOT) * LINES_PER_SNAPSHOT) as usize,
            }),
            line / LINES_PER_SNAPSHOT > old(self).snapshots ==> r == (LineChange {
                keep: if old(self).snapshots < 1 { old(self).snapshots } else { 1 },
                current_line: 0,
            }),
            *final(self) == (HighlightCursor { snapshots: (r.keep + 1) as usize, current_line: r.current_line }),
            r.current_line <= line,
    {
        let snapshot = line / LINES_PER_SNAPSHOT;
        let r = if snapshot <= self.snapshots {
            LineChange { keep: snapshot, current_line: snapshot * LINES_PER_SNAPSHOT }
        } else {
            LineChange { keep: if self.snapshots < 1 { self.snapshots } else { 1 }, current_line: 0 }
        };
        self.snapshots = r.keep + 1;
        self.current_line = r.current_line;
        r
    }

    /// Before highlighting the next line: whether a copy of the last state
    /// is to be saved first, which is when the line opens a stretch with no
    /// saved state yet. The line is then counted as highlighted.
    pub fn highlight_line(&mut self) -> (r: bool)
        requires
            old(self).snapshots > 0,
            old(self).current_line < usize::MAX,
            old(self).snapshots < usize::MAX,
        ensures
            r == (old(self).current_line / LINES_PER_SNAPSHOT >= old(self).snapshots),
            final(self).snapshots == old(self).snapshots + (if r { 1int } else { 0 }),
            final(self).current_line == old(self).current_line + 1,
    {
        let r = self.current_line / LINES_PER_SNAPSHOT >= self.snapshots;
        if r {
            self.snapshots = self.snapshots + 1;
        }
        self.current_line = self.current_line + 1;
        r
    }
}

/// The stretches of a line between scope changes: the first from the
/// start of the line to the first change, one from each change to the
/// next, and the last from the last change to the end of the line.
pub struct ScopeRangeIterator {
    /// Where in the line each scope change stands, in order.
    pub positions: Vec<usize>,
    pub line_length: usize,
    pub index: usize,
    pub last_str_index: usize,
}

/// A stretch of a line and the scope change that applies before it, by its
/// index among the changes; none for the first stretch.
#[derive(Debug, Clone, Copy, PartialEq, Eq, Structural)]
pub struct ScopeRange {
    pub start: usize,
    pub end: usize,
    pub op: Option<usize>,
}

impl ScopeRangeIterator {
    /// The stretches of a line of this length with changes at these
    /// positions.
    pub fn new(positions: Vec<usize>, line_length: usize) -> (r: Self)
        ensures
            r.positions@ == positions@,
            r.line_length == line_length,
            r.index == 0,
            r.last_str_index == 0,
    {
        ScopeRangeIterator { positions, line_length, index: 0, last_str_index: 0 }
    }

    /// The end of the stretch at `index`.
    pub open spec fn end_at(&self, index: int) -> usize {
        if index == self.positions@.len() {
            self.line_length
        } else {
            self.positions@[index]
        }
    }

    /// The next stretch, or `None` once the last has been given.
    pub fn next(&mut self) -> (r: Option<ScopeRange>)
        requires
            old(self).index < usize::MAX,
        ensures
            old(self).index > old(self).positions@.len() ==> r is None && *final(self) == *old(self),
            old(self).index <= old(self).positions@.len() ==> r == Some(ScopeRange {
                start: old(self).last_str_index,
                end: old(self).end_at(old(self).index as int),
                op: if old(self).index == 0 { None } else { Some((old(self).index - 1) as usize) },
            }) && final(self).index == old(self).index + 1 && final(self).last_str_index
                == old(self).end_at(old(self).index as int) && final(self).positions@
                == old(self).positions@ && final(self).line_length == old(self).line_length,
    {
        if self.index > self.positions.len() {
            return None;
        }
        let next_str_i = if self.index == self.positions.len() {
            self.line_length
        } else {
            self.positions[self.index]
        };
        let start = self.last_str_index;
        self.last_str_index = next_str_i;
        let op = if self.index == 0 {
            None
        } else {
            Some(self.index - 1)
        };
        self.index = self.index + 1;
        Some(ScopeRange { start, end: next_str_i, op })
    }
}

/// What happened in the text editor.
#[derive(Debug, PartialEq, Eq)]
pub enum EditorEvent {
    /// The user acted on the text; `is_edit` when the action changes it.
    ActionPerformed { is_edit: bool },
    WordWrapToggled(bool),
    NewFile,
    OpenFile,
    /// A file was read: its path and text, or why not.
    FileOpened(Result<(String, String), EditorError>),
    SaveFile,
    /// The text was written: to this path, or why not.
    FileSaved(Result<String, EditorError>),
    ThemeChanged(Theme),
}

/// What the editor asks to be done after an event.
#[derive(Debug, Clone, PartialEq, Eq)]
pub enum EditorAction {
    Nothing,
    /// Apply the user's action to the text.
    ApplyAction,
    /// Replace the text with an empty one.
    ClearText,
    /// Replace the text with this one.
    ShowText(String),
    /// Let the user pick a file to open.
    PickFileToOpen,
    /// Write the text to this file, or let the user pick one.
    SaveText(Option<String>),
}

/// The text editor's state, apart from its text.
#[derive(Debug, Clone, PartialEq, Eq)]
pub struct TextEditorState {
    pub theme: Theme,
    pub file: Option<String>,
    pub word_wrap: bool,
    pub is_loading: bool,
    pub is_dirty: bool,
}

impl TextEditorState {
    /// A new editor: wrapping words, loading its first file, unchanged.
    pub fn new(theme: Theme) -> (r: Self)
        ensures
            r == (TextEditorState { theme, file: None, word_wrap: true, is_loading: true, is_dirty: false }),
    {
        TextEditorState { theme, file: None, word_wrap: true, is_loading: true, is_dirty: false }
    }

    /// The next state after an event, and what is to be done. While a file
    /// is being read or written, new files, opening and saving are ignored.
    /// An edit marks the text changed; a file read or written marks it
    /// unchanged and becomes the editor's file. Changing the theme is not
    /// handled.
    pub fn update(&mut self, event: EditorEvent) -> (r: EditorAction)
        requires
            !(event is ThemeChanged),
        ensures
            final(self).theme == old(self).theme,
            match event {
                EditorEvent::ActionPerformed { is_edit } => r == EditorAction::ApplyAction
                    && *final(self) == (TextEditorState { is_dirty: old(self).is_dirty || is_edit, ..*old(self) }),
                EditorEvent::WordWrapToggled(w) => r == EditorAction::Nothing
                    && *final(self) == (TextEditorState { word_wrap: w, ..*old(self) }),
                EditorEvent::NewFile => if old(self).is_loading {
                    r == EditorAction::Nothing && *final(self) == *old(self)
                } else {
                    r == EditorAction::ClearText && *final(self) == (TextEditorState { file: None, ..*old(self) })
                },
                EditorEvent::OpenFile => if old(self).is_loading {
                    r == EditorAction::Nothing && *final(self) == *old(self)
                } else {
                    r == EditorAction::PickFileToOpen && *final(self) == (TextEditorState { is_loading: true, ..*old(self) })
                },
                EditorEvent::FileOpened(result) => match result {
                    Ok((path, text)) => r == EditorAction::ShowText(text) && *final(self) == (TextEditorState {
                        file: Some(path),
                        is_loading: false,
                        is_dirty: false,
                        ..*old(self)
                    }),
                    Err(_) => r == EditorAction::Nothing && *final(self) == (TextEditorState {
                        is_loading: false,
                        is_dirty: false,
                        ..*old(self)
                    }),
                },
                EditorEvent::SaveFile => if old(self).is_loading {
                    r == EditorAction::Nothing && *final(self) == *old(self)
                } else {
                    r == EditorAction::SaveText(old(self).file) && *final(self) == (TextEditorState {
                        is_loading: true,
                        ..*old(self)
                    })
                },
                EditorEvent::FileSaved(result) => match result {
                    Ok(path) => r == EditorAction::Nothing && *final(self) == (TextEditorState {
                        file: Some(path),
                        is_loading: false,
                        is_dirty: false,
                        ..*old(self)
                    }),
                    Err(_) => r == EditorAction::Nothing && *final(self) == (TextEditorState {
                        is_loading: false,
                        ..*old(self)
                    }),
                },
                EditorEvent::ThemeChanged(_) => false,
            },
    {
        match event {
            EditorEvent::ActionPerformed { is_edit } => {
                self.is_dirty = self.is_dirty || is_edit;
                EditorAction::ApplyAction
            },
            EditorEvent::WordWrapToggled(word_wrap) => {
                self.word_wrap = word_wrap;
                EditorAction::Nothing
            },
            EditorEvent::NewFile => {
                if !self.is_loading {
                    self.file = None;
                    EditorAction::ClearText
                } else {
                    EditorAction::Nothing
                }
            },
            EditorEvent::OpenFile => {
                if self.is_loading {
                    EditorAction::Nothing
                } else {
                    self.is_loading = true;
                    EditorAction::PickFileToOpen
                }
            },
            EditorEvent::FileOpened(result) => {
                self.is_loading = false;
                self.is_dirty = false;
                match result {
                    Ok((path, text)) => {
                        self.file = Some(path);
                        EditorAction::ShowText(text)
                    },
                    Err(_) => EditorAction::Nothing,
                }
            },
            EditorEvent::SaveFile => {
                if self.is_loading {
                    EditorAction::Nothing
                } else {
                    self.is_loading = true;
                    EditorAction::SaveText(self.file.clone())
                }
            },
            EditorEvent::FileSaved(result) => {
                self.is_loading = false;
                match result {
                    Ok(path) => {
                        self.file = Some(path);
                        self.is_dirty = false;
                    },
                    Err(_) => {},
                }
                EditorAction::Nothing
            },
            EditorEvent::ThemeChanged(_) => EditorAction::Nothing,
        }
    }
}

/// Whether a file in a command's folder is a syntax definition: its
/// extension is `sublime-syntax`.
pub fn is_syntax_file(extension: Option<&str>) -> (r: bool)
    ensures
        r == (extension matches Some(e) && e@ == "sublime-syntax"@),
{
    match extension {
        Some(e) => crate::json::str_eq(e, "sublime-syntax"),
        None => false,
    }
}

/// The syntax a command uses for a release: the newest of the command's
/// syntax releases that is not newer than the release.
pub fn syntax_release_for(available: &Vec<MinecraftVersion>, release: MinecraftVersion) -> (r: Option<MinecraftVersion>)
    ensures
        match r {
            Some(v) => available@.contains(v) && v.number() <= release.number() && forall|w: MinecraftVersion|
                available@.contains(w) && w.number() <= release.number() ==> w.number() <= v.number(),
            None => forall|w: MinecraftVersion| available@.contains(w) ==> w.number() > release.number(),
        },
{
    let mut best: Option<MinecraftVersion> = None;
    let mut i: usize = 0;
    while i < available.len()
        invariant
            i <= available@.len(),
            match best {
                Some(v) => available@.take(i as int).contains(v) && v.number() <= release.number()
                    && forall|w: MinecraftVersion|
                    available@.take(i as int).contains(w) && w.number() <= release.number() ==> w.number()
                        <= v.number(),
                None => forall|w: MinecraftVersion|
                    available@.take(i as int).contains(w) ==> w.number() > release.number(),
            },
        decreases available@.len() - i,
    {
        let candidate = available[i];
        let ghost before = available@.take(i as int);
        let ghost after = available@.take(i + 1);
        assert(after =~= before.push(candidate));
        let ghost old_best = best;
        if candidate.as_numeric_value() <= release.as_numeric_value() {
            best = match best {
                Some(v) => if v.as_numeric_value() < candidate.as_numeric_value() {
                    Some(candidate)
                } else {
                    Some(v)
                },
                None => Some(candidate),
            };
        }
        proof {
            assert forall|w: MinecraftVersion| #[trigger] after.contains(w) implies before.contains(w) || w == candidate by {
                let k = choose|k: int| 0 <= k < after.len() && after[k] == w;
                if k < i {
                    assert(before[k] == w);
                }
            }
            assert forall|w: MinecraftVersion| #[trigger] before.contains(w) implies after.contains(w) by {
                let k = choose|k: int| 0 <= k < before.len() && before[k] == w;
                assert(after[k] == w);
            }
            assert(after[i as int] == candidate);
        }
        i = i + 1;
    }
    assert(available@.take(i as int) =~= available@);
    best
}

/// How many bytes UTF-8 takes for `c`.
pub open spec fn utf8_width(c: char) -> nat {
    if (c as u32) < 0x80 {
        1
    } else if (c as u32) < 0x800 {
        2
    } else if (c as u32) < 0x10000 {
        3
    } else {
        4
    }
}

/// How many bytes UTF-8 takes for `s`.
pub open spec fn utf8_len(s: Seq<char>) -> nat
    decreases s.len(),
{
    if s.len() == 0 {
        0
    } else {
        utf8_width(s[0]) + utf8_len(s.drop_first())
    }
}

/// Dropping characters from the front takes off at least a byte each.
pub proof fn lemma_utf8_len_skip(s: Seq<char>, a: int, b: int)
    requires
        0 <= a <= b <= s.len(),
    ensures
        utf8_len(s.skip(a)) >= utf8_len(s.skip(b)) + (b - a),
    decreases b - a,
{
    if a < b {
        assert(s.skip(a).drop_first() =~= s.skip(a + 1));
        lemma_utf8_len_skip(s, a + 1, b);
    }
}

/// How the editor's file is shown in its status line: `New file` without
/// a file; a path longer than 60 bytes as `...` and its last 40 bytes;
/// otherwise the whole path.
pub open spec fn file_label_text(file: Option<String>, r: Seq<char>) -> bool {
    match file {
        None => r == "New file"@,
        Some(p) => if utf8_len(p@) > 60 {
            exists|k: int| 0 <= k <= p@.len() && utf8_len(p@.skip(k)) == 40 && r == "..."@ + p@.skip(k)
        } else {
            r == p@
        },
    }
}

/// A path longer than 60 bytes can be cut to its last 40 bytes without
/// splitting a character.
pub open spec fn label_cuttable(file: Option<String>) -> bool {
    match file {
        None => true,
        Some(p) => utf8_len(p@) > 60 ==> exists|k: int| 0 <= k <= p@.len() && utf8_len(p@.skip(k)) == 40,
    }
}

/// How the cursor is shown: its line and column, counted from 1.
pub fn cursor_label(line: usize, column: usize) -> (r: String)
    requires
        line < usize::MAX,
        column < usize::MAX,
    ensures
        r@ == dec_nat((line + 1) as nat) + ":"@ + dec_nat((column + 1) as nat),
{
    let mut r = String::new();
    push_dec_u128(&mut r, line as u128 + 1);
    string_push(&mut r, ':');
    push_dec_u128(&mut r, column as u128 + 1);
    proof {
        reveal_strlit(":");
        assert(r@ =~= dec_nat((line + 1) as nat) + ":"@ + dec_nat((column + 1) as nat));
    }
    r
}

/// The byte count UTF-8 takes for `c`.
fn char_utf8_width(c: char) -> (r: u128)
    ensures
        r == utf8_width(c),
{
    let n = c as u32;
    if n < 0x80 {
        1
    } else if n < 0x800 {
        2
    } else if n < 0x10000 {
        3
    } else {
        4
    }
}

impl TextEditorState {
    /// The status line's text for the editor's file (see `file_label_text`).
    pub fn file_label(&self) -> (r: String)
        requires
            label_cuttable(self.file),
        ensures
            file_label_text(self.file, r@),
    {
        match &self.file {
            None => "New file".to_owned(),
            Some(p) => {
                let s = p.as_str();
                let n = s.unicode_len();
                let mut total: u128 = 0;
                let mut i: usize = n;
                assert(s@.skip(n as int) =~= Seq::<char>::empty());
                while i > 0
                    invariant
                        i <= n,
                        n == s@.len(),
                        total == utf8_len(s@.skip(i as int)),
                        total <= 4 * (n - i),
                    decreases i,
                {
                    assert(s@.skip(i - 1).drop_first() =~= s@.skip(i as int));
                    total = total + char_utf8_width(s.get_char(i - 1));
                    i = i - 1;
                }
                assert(s@.skip(0) =~= s@);
                if total <= 60 {
                    return p.clone();
                }
                let mut tail: u128 = 0;
                let mut j: usize = n;
                while tail < 40
                    invariant
                        j <= n,
                        n == s@.len(),
                        tail == utf8_len(s@.skip(j as int)),
                        j < n ==> utf8_len(s@.skip(j + 1)) < 40,
                        utf8_len(s@) > 60,
                    decreases j,
                {
                    proof {
                        if j == 0 {
                            assert(s@.skip(0) =~= s@);
                        }
                    }
                    assert(s@.skip(j - 1).drop_first() =~= s@.skip(j as int));
                    tail = tail + char_utf8_width(s.get_char(j - 1));
                    j = j - 1;
                }
                proof {
                    if tail != 40 {
                        assert forall|k: int| 0 <= k <= n implies utf8_len(#[trigger] s@.skip(k)) != 40 by {
                            if k <= j {
                                lemma_utf8_len_skip(s@, k, j as int);
                            } else {
                                lemma_utf8_len_skip(s@, j + 1, k);
                            }
                        }
                        assert(false);
                    }
                }
                let mut r = "...".to_owned();
                let mut k: usize = j;
                proof {
                    reveal_strlit("...");
                    assert(s@.skip(j as int).take(0) =~= Seq::<char>::empty());
                }
                while k < n
                    invariant
                        j <= k <= n,
                        n == s@.len(),
                        r@ == "..."@ + s@.skip(j as int).take(k - j),
                    decreases n - k,
                {
                    string_push(&mut r, s.get_char(k));
                    assert(s@.skip(j as int).take(k + 1 - j) =~= s@.skip(j as int).take(k - j).push(s@[k as int]));
                    k = k + 1;
                }
                assert(s@.skip(j as int).take(n - j) =~= s@.skip(j as int));
                r
            },
        }
    }

    /// Which of the editor's buttons can be pressed: New always, Open
    /// while no file is being read or written, Save when the text has
    /// changed.
    pub fn controls(&self) -> (r: EditorControls)
        ensures
            r == (EditorControls { new_file: true, open_file: !self.is_loading, save_file: self.is_dirty }),
    {
        EditorControls { new_file: true, open_file: !self.is_loading, save_file: self.is_dirty }
    }

    /// The scope name the highlighter is given: the file's extension, or
    /// `json` when there is no file or it has none.
    pub fn highlight_token(&self) -> (r: String)
        ensures
            r@ == match self.file {
                Some(p) => match file_name(p@) {
                    Some(n) => match file_extension(n) {
                        Some(e) => e,
                        None => "json"@,
                    },
                    None => "json"@,
                },
                None => "json"@,
            },
    {
        let extension = match &self.file {
            Some(p) => match path_file_name(p.as_str()) {
                Some(n) => name_extension(n.as_str()),
                None => None,
            },
            None => None,
        };
        match extension {
            Some(e) => e,
            None => "json".to_owned(),
        }
    }
}

/// Which of the editor's buttons can be pressed.
#[derive(Debug, Clone, Copy, PartialEq, Eq, Structural)]
pub struct EditorControls {
    pub new_file: bool,
    pub open_file: bool,
    pub save_file: bool,
}

/// The release a file in a command's syntax folder stands for: a
/// `sublime-syntax` file whose stem names a release.
pub open spec fn syntax_entry(path: Seq<char>) -> Option<MinecraftVersion> {
    if file_name(path) is Some && file_extension(file_name(path)->0) == Some("sublime-syntax"@)
        && exists|v: MinecraftVersion| v.name() == file_stem(file_name(path)->0) {
        Some(choose|v: MinecraftVersion| v.name() == file_stem(file_name(path)->0))
    } else {
        None
    }
}

/// The syntax file of each release, from a command folder's files in
/// order: a later file of a release replaces an earlier one.
pub open spec fn syntax_map(files: Seq<String>) -> Map<MinecraftVersion, Seq<char>>
    decreases files.len(),
{
    if files.len() == 0 {
        Map::empty()
    } else {
        let m = syntax_map(files.drop_last());
        match syntax_entry(files.last()@) {
            Some(v) => m.insert(v, files.last()@),
            None => m,
        }
    }
}

/// The releases and files of a list of pairs, each release once.
pub open spec fn pairs_map(pairs: Seq<(MinecraftVersion, String)>) -> Map<MinecraftVersion, Seq<char>> {
    Map::new(
        |v: MinecraftVersion| exists|i: int| 0 <= i < pairs.len() && pairs[i].0 == v,
        |v: MinecraftVersion| pairs[choose|i: int| 0 <= i < pairs.len() && pairs[i].0 == v].1@,
    )
}

/// No release occurs twice.
pub open spec fn distinct_releases(pairs: Seq<(MinecraftVersion, String)>) -> bool {
    forall|i: int, j: int| 0 <= i < j < pairs.len() ==> (#[trigger] pairs[i]).0 != (#[trigger] pairs[j]).0
}

/// The release a file in a command's syntax folder stands for (see
/// `syntax_entry`).
pub fn syntax_release_of(path: &str) -> (r: Option<MinecraftVersion>)
    ensures
        r == syntax_entry(path@),
{
    let name = match path_file_name(path) {
        Some(n) => n,
        None => {
            return None;
        },
    };
    let extension = name_extension(name.as_str());
    let given: Option<&str> = match &extension {
        Some(e) => Some(e.as_str()),
        None => None,
    };
    if !is_syntax_file(given) {
        return None;
    }
    let stem = name_stem(name.as_str());
    match MinecraftVersion::from_str(stem.as_str()) {
        Ok(v) => {
            proof {
                reveal_strlit("1.20.4");
                assert(v.name() == stem@);
                assert forall|w: MinecraftVersion| #[trigger] w.name() == stem@ implies w == v by {}
            }
            Some(v)
        },
        Err(_) => {
            proof {
                reveal_strlit("1.20.4");
                assert forall|w: MinecraftVersion| #[trigger] w.name() != stem@ by {}
            }
            None
        },
    }
}

/// The syntax file of each release among a command folder's files (see
/// `syntax_map`), each release once.
pub fn command_syntaxes(files: &Vec<String>) -> (r: Vec<(MinecraftVersion, String)>)
    ensures
        distinct_releases(r@),
        pairs_map(r@) == syntax_map(files@),
{
    let mut out: Vec<(MinecraftVersion, String)> = Vec::new();
    let mut i: usize = 0;
    assert(files@.take(0) =~= Seq::<String>::empty());
    assert(pairs_map(out@) =~= Map::<MinecraftVersion, Seq<char>>::empty());
    while i < files.len()
        invariant
            i <= files.len(),
            distinct_releases(out@),
            pairs_map(out@) == syntax_map(files@.take(i as int)),
        decreases files.len() - i,
    {
        assert(files@.take(i + 1).drop_last() =~= files@.take(i as int));
        assert(files@.take(i + 1).last() == files@[i as int]);
        match syntax_release_of(files[i].as_str()) {
            Some(v) => {
                let ghost before = out@;
                let path = files[i].clone();
                assert(path@ == files@[i as int]@);
                let mut j: usize = 0;
                while j < out.len() && out[j].0 != v
                    invariant
                        j <= out.len(),
                        out@ == before,
                        forall|k: int| 0 <= k < j ==> out@[k].0 != v,
                    decreases out.len() - j,
                {
                    j = j + 1;
                }
                if j < out.len() {
                    out.set(j, (v, path));
                    proof {
                        lemma_pairs_map_set(before, j as int, v, files@[i as int]@, out@);
                    }
                } else {
                    out.push((v, path));
                    proof {
                        lemma_pairs_map_push(before, v, files@[i as int]@, out@);
                    }
                }
            },
            None => {},
        }
        i = i + 1;
    }
    assert(files@.take(files.len() as int) =~= files@);
    out
}

/// Replacing the file of a release present at `j` updates the map there.
proof fn lemma_pairs_map_set(
    before: Seq<(MinecraftVersion, String)>,
    j: int,
    v: MinecraftVersion,
    p: Seq<char>,
    after: Seq<(MinecraftVersion, String)>,
)
    requires
        distinct_releases(before),
        0 <= j < before.len(),
        before[j].0 == v,
        after.len() == before.len(),
        after[j].0 == v && after[j].1@ == p,
        forall|k: int| 0 <= k < before.len() && k != j ==> after[k] == before[k],
    ensures
        distinct_releases(after),
        pairs_map(after) == pairs_map(before).insert(v, p),
{
    assert forall|a: int, b: int| 0 <= a < b < after.len() implies (#[trigger] after[a]).0 != (
    #[trigger] after[b]).0 by {
        assert(before[a].0 != before[b].0);
    }
    let target = pairs_map(before).insert(v, p);
    assert forall|w: MinecraftVersion| #[trigger] pairs_map(after).dom().contains(w) <==> target.dom().contains(w) by {
        if target.dom().contains(w) && w != v {
            let k = choose|k: int| 0 <= k < before.len() && before[k].0 == w;
            assert(after[k] == before[k]);
        }
        if w == v {
            assert(after[j].0 == w);
        }
        if pairs_map(after).dom().contains(w) && w != v {
            let k = choose|k: int| 0 <= k < after.len() && after[k].0 == w;
            assert(before[k] == after[k]);
        }
    }
    assert forall|w: MinecraftVersion| #[trigger] pairs_map(after).dom().contains(w) implies pairs_map(after)[w] == target[w] by {
        let k = choose|k: int| 0 <= k < after.len() && after[k].0 == w;
        if w == v {
            if k != j {
                assert(after[k] == before[k]);
            }
        } else {
            let k2 = choose|k2: int| 0 <= k2 < before.len() && before[k2].0 == w;
            assert(after[k] == before[k]);
            if k != k2 {
                if k < k2 {
                    assert(before[k].0 != before[k2].0);
                } else {
                    assert(before[k2].0 != before[k].0);
                }
            }
        }
    }
    assert(pairs_map(after) =~= target);
}

/// Adding the file of a release not present adds it to the map.
proof fn lemma_pairs_map_push(
    before: Seq<(MinecraftVersion, String)>,
    v: MinecraftVersion,
    p: Seq<char>,
    after: Seq<(MinecraftVersion, String)>,
)
    requires
        distinct_releases(before),
        forall|k: int| 0 <= k < before.len() ==> before[k].0 != v,
        after.len() == before.len() + 1,
        after[before.len() as int].0 == v && after[before.len() as int].1@ == p,
        forall|k: int| 0 <= k < before.len() ==> after[k] == before[k],
    ensures
        distinct_releases(after),
        pairs_map(after) == pairs_map(before).insert(v, p),
{
    let n = before.len() as int;
    assert forall|a: int, b: int| 0 <= a < b < after.len() implies (#[trigger] after[a]).0 != (
    #[trigger] after[b]).0 by {
        if b == n {
            assert(after[a] == before[a]);
        } else {
            assert(before[a].0 != before[b].0);
        }
    }
    let target = pairs_map(before).insert(v, p);
    assert forall|w: MinecraftVersion| #[trigger] pairs_map(after).dom().contains(w) <==> target.dom().contains(w) by {
        if target.dom().contains(w) && w != v {
            let k = choose|k: int| 0 <= k < before.len() && before[k].0 == w;
            assert(after[k] == before[k]);
        }
        if w == v {
            assert(after[n].0 == w);
        }
        if pairs_map(after).dom().contains(w) && w != v {
            let k = choose|k: int| 0 <= k < after.len() && after[k].0 == w;
            assert(k != n);
            assert(before[k] == after[k]);
        }
    }
    assert forall|w: MinecraftVersion| #[trigger] pairs_map(after).dom().contains(w) implies pairs_map(after)[w] == target[w] by {
        let k = choose|k: int| 0 <= k < after.len() && after[k].0 == w;
        if w == v {
            if k != n {
                assert(after[k] == before[k]);
            }
        } else {
            assert(k != n);
            let k2 = choose|k2: int| 0 <= k2 < before.len() && before[k2].0 == w;
            assert(after[k] == before[k]);
            if k != k2 {
                if k < k2 {
                    assert(before[k].0 != before[k2].0);
                } else {
                    assert(before[k2].0 != before[k].0);
                }
            }
        }
    }
    assert(pairs_map(after) =~= target);
}

} // verus!
