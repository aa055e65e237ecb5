//! Packs in zip archives: what an archive holds, read through the `zip`
//! crate, and the pack read from it: its kind, by its top folders, and its
//! `pack.mcmeta` text.
use vstd::prelude::*;
use crate::data::serialization::project::{
    archive_project_type, metadata_file_name, SerializedProjectError, SerializedProjectType,
};
use crate::json::str_eq;
use std::io::{Cursor, Read, Write};
use zip::write::SimpleFileOptions;
use zip::{ZipArchive, ZipWriter};

verus! {

/// An entry of an archive: its name, whether it is a folder, and its text
/// (empty for a folder).
#[derive(Debug, Clone, PartialEq, Eq)]
pub struct ArchiveEntry {
    pub name: String,
    pub is_dir: bool,
    pub content: String,
}

/// The kind an archive with or without `data/` and `assets/` folders
/// holds: a data pack, else a resource pack, else none.
pub open spec fn kind_read(
    kind: Result<SerializedProjectType, SerializedProjectError>,
    has_data_dir: bool,
    has_assets_dir: bool,
) -> bool {
    match kind {
        Ok(t) => t == (if has_data_dir {
            SerializedProjectType::Data
        } else {
            SerializedProjectType::Resource
        }) && (has_data_dir || has_assets_dir),
        Err(e) => !has_data_dir && !has_assets_dir && e is InvalidZipFile
            && e->InvalidZipFile_0@ == "No data or assets directory found!"@,
    }
}

/// Why an archive could not be read or written.
#[derive(Debug, Clone, PartialEq, Eq)]
pub enum ArchiveError {
    /// The archive's structure is broken, with the reason.
    Zip(String),
    /// An entry's content could not be read as text, with the reason.
    Io(String),
}

/// The number of entries of the archive `bytes`; none when it is not an
/// archive the `zip` crate reads.
pub uninterp spec fn archive_size(bytes: Seq<u8>) -> Option<nat>;

/// The name of the entry at `index` of the archive `bytes`, and whether it
/// is a folder; none when it cannot be read.
pub uninterp spec fn archive_entry_name(bytes: Seq<u8>, index: int) -> Option<(Seq<char>, bool)>;

/// The text of the entry at `index` of the archive `bytes`; none when it
/// cannot be read as UTF-8 text.
pub uninterp spec fn archive_entry_text(bytes: Seq<u8>, index: int) -> Option<Seq<char>>;

/// Whether the archive `bytes` has an entry named `name`.
pub uninterp spec fn archive_contains(bytes: Seq<u8>, name: Seq<char>) -> bool;

/// `zip::ZipArchive::new` over the bytes, then `len`: the number of entries
/// the archive's directory lists, named `archive_size`; an archive the
/// crate refuses gives its error's text.
#[verifier::external_body]
fn entry_count(bytes: &Vec<u8>) -> (r: Result<usize, ArchiveError>)
    ensures
        match r {
            Ok(n) => archive_size(bytes@) == Some(n as nat),
            Err(e) => archive_size(bytes@) is None && e is Zip,
        },
{
    match ZipArchive::new(Cursor::new(bytes.clone())) {
        Ok(archive) => Ok(archive.len()),
        Err(e) => Err(ArchiveError::Zip(e.to_string())),
    }
}

/// `zip::ZipArchive::by_index`, then the entry's `name` and `is_dir`:
/// named `archive_entry_name`; an entry that cannot be found or named gives
/// the error's text.
#[verifier::external_body]
fn entry_name_at(bytes: &Vec<u8>, index: usize) -> (r: Result<(String, bool), ArchiveError>)
    ensures
        match r {
            Ok((name, is_dir)) => archive_entry_name(bytes@, index as int) == Some((name@, is_dir)),
            Err(_) => archive_entry_name(bytes@, index as int) is None,
        },
{
    let mut archive = match ZipArchive::new(Cursor::new(bytes.clone())) {
        Ok(a) => a,
        Err(e) => return Err(ArchiveError::Zip(e.to_string())),
    };
    let file = match archive.by_index(index) {
        Ok(f) => f,
        Err(e) => return Err(ArchiveError::Zip(e.to_string())),
    };
    match file.name() {
        Ok(name) => Ok((name.to_string(), file.is_dir())),
        Err(e) => Err(ArchiveError::Zip(e.to_string())),
    }
}

/// `zip::ZipArchive::by_index`, then the entry's content with
/// `read_to_string`: named `archive_entry_text`; content that cannot be
/// read as UTF-8 gives the error's text.
#[verifier::external_body]
fn entry_text_at(bytes: &Vec<u8>, index: usize) -> (r: Result<String, ArchiveError>)
    ensures
        match r {
            Ok(text) => archive_entry_text(bytes@, index as int) == Some(text@),
            Err(_) => archive_entry_text(bytes@, index as int) is None,
        },
{
    let mut archive = match ZipArchive::new(Cursor::new(bytes.clone())) {
        Ok(a) => a,
        Err(e) => return Err(ArchiveError::Zip(e.to_string())),
    };
    let mut file = match archive.by_index(index) {
        Ok(f) => f,
        Err(e) => return Err(ArchiveError::Zip(e.to_string())),
    };
    let mut content = String::new();
    match Read::read_to_string(&mut file, &mut content) {
        Ok(_) => Ok(content),
        Err(e) => Err(ArchiveError::Io(e.to_string())),
    }
}

/// `zip::ZipArchive::by_name(name).is_ok()`: whether the archive has an
/// entry of that name, named `archive_contains`.
#[verifier::external_body]
fn has_entry(bytes: &Vec<u8>, name: &str) -> (r: bool)
    ensures
        r == archive_contains(bytes@, name@),
{
    match ZipArchive::new(Cursor::new(bytes.clone())) {
        Ok(mut archive) => archive.by_name(name).is_ok(),
        Err(_) => false,
    }
}

/// `zip::ZipWriter` writing one file, `pack.mcmeta`, with `content`, with
/// the default options, then `finish`: the archive's bytes, or the error's
/// text. By the crate's reader, the archive it writes reads back as that
/// one entry: a file (its name ends in no slash) named `pack.mcmeta`
/// holding `content`, and no entry of any other name. Whether writing
/// succeeds is not stated.
#[verifier::external_body]
fn single_file_archive(name: &str, content: &str) -> (r: Result<Vec<u8>, ArchiveError>)
    requires
        name@ == metadata_file_name(),
    ensures
        match r {
            Ok(bytes) => {
                &&& archive_size(bytes@) == Some(1nat)
                &&& archive_entry_name(bytes@, 0) == Some((metadata_file_name(), false))
                &&& archive_entry_text(bytes@, 0) == Some(content@)
                &&& forall|n: Seq<char>| #[trigger] archive_contains(bytes@, n) <==> n == metadata_file_name()
            },
            Err(e) => e is Zip || e is Io,
        },
{
    let mut writer = ZipWriter::new(Cursor::new(Vec::new()));
    if let Err(e) = writer.start_file(name, SimpleFileOptions::default()) {
        return Err(ArchiveError::Zip(e.to_string()));
    }
    if let Err(e) = Write::write_all(&mut writer, content.as_bytes()) {
        return Err(ArchiveError::Io(e.to_string()));
    }
    match writer.finish() {
        Ok(cursor) => Ok(cursor.into_inner()),
        Err(e) => Err(ArchiveError::Zip(e.to_string())),
    }
}

/// The entry at `i` can be read: its name, and its text unless it is a
/// folder.
pub open spec fn entry_readable(bytes: Seq<u8>, i: int) -> bool {
    match archive_entry_name(bytes, i) {
        None => false,
        Some((_, is_dir)) => is_dir || archive_entry_text(bytes, i) is Some,
    }
}

/// Every entry of the first `n` can be read.
pub open spec fn entries_readable(bytes: Seq<u8>, n: int) -> bool {
    forall|i: int| 0 <= i < n ==> #[trigger] entry_readable(bytes, i)
}

/// The text of the last file entry named `pack.mcmeta` among the first
/// `n` entries.
pub open spec fn metadata_among(bytes: Seq<u8>, n: int) -> Option<Seq<char>>
    decreases n,
{
    if n <= 0 {
        None
    } else {
        match archive_entry_name(bytes, n - 1) {
            Some((name, is_dir)) if !is_dir && name == metadata_file_name() => archive_entry_text(
                bytes,
                n - 1,
            ),
            _ => metadata_among(bytes, n - 1),
        }
    }
}

/// A pack read from an archive: its name, its `pack.mcmeta` text, and its
/// kind, or why the archive holds no pack of a known kind.
#[derive(Debug)]
pub struct ExtractedPack {
    pub name: String,
    pub metadata: String,
    pub project_type: Result<SerializedProjectType, SerializedProjectError>,
}

/// The error that reading an archive reports.
pub open spec fn archive_failure(e: ArchiveError) -> SerializedProjectError {
    match e {
        ArchiveError::Zip(m) => SerializedProjectError::Zip(m),
        ArchiveError::Io(m) => SerializedProjectError::IOError(m),
    }
}

fn to_project_error(e: ArchiveError) -> (r: SerializedProjectError)
    ensures
        r == archive_failure(e),
{
    match e {
        ArchiveError::Zip(m) => SerializedProjectError::Zip(m),
        ArchiveError::Io(m) => SerializedProjectError::IOError(m),
    }
}

/// Reads the pack named `name` from the archive `bytes`: a data pack when
/// the archive has a `data/` folder, else a resource pack when it has an
/// `assets/` folder, with the text of its last `pack.mcmeta` file. An
/// archive that cannot be read, or an entry that cannot, is an error; an
/// archive without `pack.mcmeta` gives `None`.
pub fn read_pack(name: &str, bytes: &Vec<u8>) -> (r: Option<Result<ExtractedPack, SerializedProjectError>>)
    ensures
        archive_size(bytes@) is None ==> (r matches Some(Err(e)) && e is Zip),
        archive_size(bytes@) matches Some(n) ==> (!entries_readable(bytes@, n as int) ==> (r matches Some(
            Err(_),
        ))),
        archive_size(bytes@) matches Some(n) ==> (entries_readable(bytes@, n as int) ==> match r {
            None => metadata_among(bytes@, n as int) is None,
            Some(Ok(p)) => metadata_among(bytes@, n as int) == Some(p.metadata@) && p.name@ == name@
                && kind_read(p.project_type, archive_contains(bytes@, "data/"@), archive_contains(
                bytes@,
                "assets/"@,
            )),
            Some(Err(_)) => false,
        }),
{
    let n = match entry_count(bytes) {
        Ok(n) => n,
        Err(e) => {
            return Some(Err(to_project_error(e)));
        },
    };
    let has_data_dir = has_entry(bytes, "data/");
    let has_assets_dir = has_entry(bytes, "assets/");
    let mut metadata: Option<String> = None;
    let mut i: usize = 0;
    while i < n
        invariant
            i <= n,
            archive_size(bytes@) == Some(n as nat),
            has_data_dir == archive_contains(bytes@, "data/"@),
            has_assets_dir == archive_contains(bytes@, "assets/"@),
            entries_readable(bytes@, i as int),
            match metadata {
                Some(m) => metadata_among(bytes@, i as int) == Some(m@),
                None => metadata_among(bytes@, i as int) is None,
            },
        decreases n - i,
    {
        let (entry_name, is_dir) = match entry_name_at(bytes, i) {
            Ok(x) => x,
            Err(e) => {
                assert(!entry_readable(bytes@, i as int));
                assert(!entries_readable(bytes@, n as int));
                return Some(Err(to_project_error(e)));
            },
        };
        if !is_dir {
            let text = match entry_text_at(bytes, i) {
                Ok(t) => t,
                Err(e) => {
                    assert(!entry_readable(bytes@, i as int));
                    assert(!entries_readable(bytes@, n as int));
                    return Some(Err(to_project_error(e)));
                },
            };
            proof {
                reveal_strlit("pack.mcmeta");
            }
            if str_eq(entry_name.as_str(), "pack.mcmeta") {
                metadata = Some(text);
            }
        }
        assert(entry_readable(bytes@, i as int));
        i = i + 1;
    }
    match metadata {
        None => None,
        Some(m) => Some(
            Ok(
                ExtractedPack {
                    name: name.to_owned(),
                    metadata: m,
                    project_type: archive_project_type(has_data_dir, has_assets_dir),
                },
            ),
        ),
    }
}

/// An archive holding the pack's `pack.mcmeta` text, as the `zip` crate
/// writes it: read back, it is one readable file, `pack.mcmeta`, with that
/// text, and it has neither a `data/` nor an `assets/` folder. Whether the
/// crate succeeds in writing it is not stated; its failure is reported as
/// an archive or an I/O error.
pub fn write_pack(metadata: &str) -> (r: Result<Vec<u8>, SerializedProjectError>)
    ensures
        match r {
            Ok(bytes) => {
                &&& archive_size(bytes@) == Some(1nat)
                &&& entries_readable(bytes@, 1)
                &&& metadata_among(bytes@, 1) == Some(metadata@)
                &&& !archive_contains(bytes@, "data/"@)
                &&& !archive_contains(bytes@, "assets/"@)
            },
            Err(e) => e is Zip || e is IOError,
        },
{
    match single_file_archive("pack.mcmeta", metadata) {
        Ok(bytes) => {
            proof {
                reveal_strlit("pack.mcmeta");
                reveal_strlit("data/");
                reveal_strlit("assets/");
                assert(entry_readable(bytes@, 0));
                assert(metadata_among(bytes@, 0) is None);
                assert("data/"@ != metadata_file_name()) by {
                    assert("data/"@[0] != metadata_file_name()[0]);
                }
                assert("assets/"@ != metadata_file_name()) by {
                    assert("assets/"@[0] != metadata_file_name()[0]);
                }
            }
            Ok(bytes)
        },
        Err(e) => Err(to_project_error(e)),
    }
}

} // verus!
