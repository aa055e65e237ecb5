//! Packs as zip archives: what reads and writes them, why that fails, and
//! the choices made around it: how an archive is written, and the name a
//! pack takes from its archive's path.
use vstd::prelude::*;
use crate::data::serialization::project::{Project as SerializedProject, SerializedProjectError};
use crate::services::filesystem_service::{
    FileDeleteOptions, FileWriteOptions, FilesystemProvider, FilesystemProviderError,
};
use crate::services::path_names::{named_pieces, split_slash};

verus! {

/// Why reading or writing an archive failed.
#[derive(Debug, Clone, PartialEq, Eq)]
pub enum ZipError {
    InvalidPath(String),
    IOError(FilesystemProviderError),
    /// The archive could not be read or written, with the reason.
    ZipArchiveError(String),
    SerializedProjectError(SerializedProjectError),
}

/// Reads packs from archives and writes them to archives. What each call
/// may answer is the provider's own to say, through `may_extract_as`,
/// `may_zip_as` and `may_clean_as`.
pub trait ZipProvider {
    /// Whether reading the archive at `path` may answer `r`; any answer,
    /// unless the provider says otherwise.
    open spec fn may_extract_as(&self, path: Seq<char>, r: Result<SerializedProject, ZipError>) -> bool {
        true
    }

    /// Whether writing `data` to `path` may answer `r`; any answer, unless
    /// the provider says otherwise.
    open spec fn may_zip_as(
        &self,
        path: Seq<char>,
        data: SerializedProject,
        overwrite_existing: bool,
        r: Result<(), ZipError>,
    ) -> bool {
        true
    }

    /// Whether cleaning up at `path` may answer `r`; any answer, unless the
    /// provider says otherwise.
    open spec fn may_clean_as(&self, path: Seq<char>, r: Result<(), ZipError>) -> bool {
        true
    }

    /// The pack in the archive at `path`.
    fn extract(&self, path: &str) -> (r: Result<SerializedProject, ZipError>)
        ensures
            self.may_extract_as(path@, r),
    ;

    /// Writes `data` as an archive at `path`; an existing file is replaced
    /// only when `overwrite_existing`.
    fn zip(&self, path: &str, data: &SerializedProject, overwrite_existing: bool) -> (r: Result<(), ZipError>)
        ensures
            self.may_zip_as(path@, *data, overwrite_existing, r),
    ;

    /// Removes what a failed write left at `path`, if anything.
    fn cleanup_file(&self, path: &str) -> (r: Result<(), ZipError>)
        ensures
            self.may_clean_as(path@, r),
    ;
}

/// Removes what a failed write left at `path`: the file is removed only
/// when one is there, as a file that must exist; a failure to look or to
/// remove is reported as an `IOError` with the file system's error.
pub fn cleanup_file<F: FilesystemProvider>(filesystem: &F, path: &str) -> (r: Result<(), ZipError>)
    ensures
        exists|found: Result<bool, FilesystemProviderError>| #![auto]
            filesystem.may_find_as(path@, found) && match found {
                Err(e) => r == Err::<(), ZipError>(ZipError::IOError(e)),
                Ok(false) => r is Ok,
                Ok(true) => exists|removed: Result<(), FilesystemProviderError>| #![auto]
                    filesystem.may_delete_as(path@, FileDeleteOptions::ErrorIfNotExists, removed) && match removed {
                        Ok(_) => r is Ok,
                        Err(e) => r == Err::<(), ZipError>(ZipError::IOError(e)),
                    },
            },
{
    match filesystem.file_exists(path) {
        Err(e) => Err(ZipError::IOError(e)),
        Ok(false) => Ok(()),
        Ok(true) => match filesystem.delete_file(path, FileDeleteOptions::ErrorIfNotExists) {
            Ok(()) => Ok(()),
            Err(e) => Err(ZipError::IOError(e)),
        },
    }
}

/// How an archive is written: over an existing file when overwriting is
/// allowed, else only as a new file.
pub fn zip_write_options(overwrite_existing: bool) -> (r: FileWriteOptions)
    ensures
        r == (if overwrite_existing {
            FileWriteOptions::Overwrite
        } else {
            FileWriteOptions::CreateNew
        }),
{
    if overwrite_existing {
        FileWriteOptions::Overwrite
    } else {
        FileWriteOptions::CreateNew
    }
}

/// The last segment of a path that names something, if there is one and
/// it is not `..`.
pub open spec fn file_name(p: Seq<char>) -> Option<Seq<char>> {
    let pieces = named_pieces(split_slash(p));
    if pieces.len() == 0 || pieces.last() == seq!['.', '.'] {
        None
    } else {
        Some(pieces.last())
    }
}

/// Where the last dot of a name stands, when one stands after its first
/// character.
pub open spec fn last_dot(name: Seq<char>) -> int {
    choose|i: int| 0 < i < name.len() && name[i] == '.' && forall|j: int| i < j < name.len() ==> name[j] != '.'
}

/// Whether a name has a dot after its first character.
pub open spec fn has_dot(name: Seq<char>) -> bool {
    exists|i: int| 0 < i < name.len() && name[i] == '.'
}

/// A file name without its extension: what stands before its last dot,
/// unless that dot opens the name.
pub open spec fn file_stem(name: Seq<char>) -> Seq<char> {
    if has_dot(name) {
        name.take(last_dot(name))
    } else {
        name
    }
}

/// A file name's extension: what stands after its last dot, unless that
/// dot opens the name.
pub open spec fn file_extension(name: Seq<char>) -> Option<Seq<char>> {
    if has_dot(name) {
        Some(name.skip(last_dot(name) + 1))
    } else {
        None
    }
}

/// The name a pack takes from its archive's path: the archive's file name
/// without its extension.
pub fn archive_name(path: &str) -> (r: String)
    requires
        file_name(path@) is Some,
    ensures
        r@ == file_stem(file_name(path@)->0),
{
    let name = path_file_name(path).unwrap();
    name_stem(name.as_str())
}

/// The last segment of a path that names something, unless there is none
/// or it is `..`.
pub fn path_file_name(path: &str) -> (r: Option<String>)
    ensures
        match r {
            Some(n) => file_name(path@) == Some(n@),
            None => file_name(path@) is None,
        },
{
    let n = path.unicode_len();
    let mut cur = String::new();
    let mut last = String::new();
    let mut any = false;
    let ghost mut closed: Seq<Seq<char>> = Seq::empty();
    let mut i: usize = 0;
    assert(path@.take(0) =~= Seq::<char>::empty());
    while i < n
        invariant
            i <= n,
            n == path@.len(),
            split_slash(path@.take(i as int)) == closed.push(cur@),
            any == (named_pieces(closed).len() > 0),
            named_pieces(closed).len() > 0 ==> last@ == named_pieces(closed).last(),
        decreases n - i,
    {
        let c = path.get_char(i);
        assert(path@.take(i + 1).drop_last() =~= path@.take(i as int));
        if c == '/' {
            let ghost old_closed = closed;
            proof {
                closed = closed.push(cur@);
                assert(closed.drop_last() =~= old_closed);
            }
            if is_named(&cur) {
                proof {
                    assert(named_pieces(closed) == named_pieces(old_closed).push(cur@));
                }
                last = cur;
                any = true;
            } else {
                proof {
                    assert(named_pieces(closed) == named_pieces(old_closed));
                }
            }
            cur = String::new();
            proof {
                assert(split_slash(path@.take(i + 1)) =~= closed.push(cur@));
            }
        } else {
            string_push_char(&mut cur, c);
            proof {
                assert(split_slash(path@.take(i + 1)) =~= closed.push(cur@));
            }
        }
        i = i + 1;
    }
    assert(path@.take(n as int) =~= path@);
    let ghost all = closed.push(cur@);
    assert(all.drop_last() =~= closed);
    if is_named(&cur) {
        proof {
            assert(named_pieces(all) == named_pieces(closed).push(cur@));
        }
        last = cur;
        any = true;
    } else {
        proof {
            assert(named_pieces(all) == named_pieces(closed));
        }
    }
    if !any || crate::json::str_eq(last.as_str(), "..") {
        proof {
            reveal_strlit("..");
            assert(seq!['.', '.'] =~= ".."@);
        }
        None
    } else {
        proof {
            reveal_strlit("..");
            assert(seq!['.', '.'] =~= ".."@);
        }
        Some(last)
    }
}

fn is_named(s: &String) -> (r: bool)
    ensures
        r == crate::services::path_names::named_piece(s@),
{
    crate::services::path_names::is_named_piece(s.as_str())
}

fn string_push_char(s: &mut String, c: char)
    ensures
        final(s)@ == old(s)@.push(c),
{
    crate::text::string_push(s, c)
}

/// Where the last dot of a name stands, when one stands after its first
/// character.
fn find_last_dot(name: &str) -> (r: Option<usize>)
    ensures
        match r {
            Some(k) => has_dot(name@) && k == last_dot(name@) && 0 < k < name@.len(),
            None => !has_dot(name@),
        },
{
    let n = name.unicode_len();
    let mut i: usize = n;
    while i > 1
        invariant
            i <= n,
            n == name@.len(),
            forall|j: int| i <= j < n ==> name@[j] != '.',
        decreases i,
    {
        if name.get_char(i - 1) == '.' {
            let ghost k = (i - 1) as int;
            assert(0 < k < name@.len() && name@[k] == '.');
            let ghost c = last_dot(name@);
            assert(c == k) by {
                if c < k {
                } else if c > k {
                }
            }
            return Some(i - 1);
        }
        i = i - 1;
    }
    None
}

/// A file name without its extension.
pub fn name_stem(name: &str) -> (r: String)
    ensures
        r@ == file_stem(name@),
{
    match find_last_dot(name) {
        Some(k) => substring_chars(name, k),
        None => name.to_string(),
    }
}

/// A file name's extension, if it has one.
pub fn name_extension(name: &str) -> (r: Option<String>)
    ensures
        match r {
            Some(e) => file_extension(name@) == Some(e@),
            None => file_extension(name@) is None,
        },
{
    match find_last_dot(name) {
        Some(k) => {
            let mut r = String::new();
            let n = name.unicode_len();
            let mut i: usize = k + 1;
            assert(name@.skip(k + 1).take(0) =~= Seq::<char>::empty());
            while i < n
                invariant
                    k < i <= n,
                    n == name@.len(),
                    r@ == name@.skip(k + 1).take(i - k - 1),
                decreases n - i,
            {
                crate::text::string_push(&mut r, name.get_char(i));
                assert(name@.skip(k + 1).take(i - k) =~= name@.skip(k + 1).take(i - k - 1).push(name@[i as int]));
                i = i + 1;
            }
            assert(name@.skip(k + 1).take(n - k - 1) =~= name@.skip(k + 1));
            Some(r)
        },
        None => None,
    }
}

/// The first `k` characters of `s`.
fn substring_chars(s: &str, k: usize) -> (r: String)
    requires
        k <= s@.len(),
    ensures
        r@ == s@.take(k as int),
{
    let mut r = String::new();
    let mut i: usize = 0;
    while i < k
        invariant
            i <= k,
            k <= s@.len(),
            r@ == s@.take(i as int),
        decreases k - i,
    {
        crate::text::string_push(&mut r, s.get_char(i));
        assert(s@.take(i + 1) =~= s@.take(i as int).push(s@[i as int]));
        i = i + 1;
    }
    r
}

} // verus!
