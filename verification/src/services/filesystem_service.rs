//! The choices the file service makes around the operating system's file
//! calls: how a file is opened for each way of writing, which failed
//! removals are tolerated, how much of a path is missing, and how a chunked
//! read goes on after each chunk.
use vstd::prelude::*;
use crate::services::undo_service::failure_text;

verus! {

/// What a reader of chunks answers after each chunk.
#[derive(Debug)]
pub enum ChunkedFileReadResult {
    Continue,
    Done,
    Error(anyhow::Error),
}

/// The file service.
#[derive(Debug, Clone, Copy)]
pub struct FilesystemService;

impl FilesystemService {
    pub fn new() -> (r: Self) {
        FilesystemService
    }
}

/// The ways of writing a file.
#[derive(Debug, PartialEq, Eq, Clone, Copy, Structural)]
pub enum FileWriteOptions {
    /// Replace the content of an existing file, or make a new one.
    Overwrite,
    /// Make a new file; an existing one is an error.
    CreateNew,
    /// Add to the end of the file, making it if needed.
    Append,
    /// Add to the end of an existing file.
    AppendDontCreate,
}

/// The ways of removing a file.
#[derive(Debug, PartialEq, Eq, Clone, Copy, Structural)]
pub enum FileDeleteOptions {
    /// A file that is not there counts as removed.
    AllowNonexistent,
    /// A file that is not there is an error.
    ErrorIfNotExists,
}

/// What is known of a path on disk.
#[derive(Debug, Clone, Copy, PartialEq, Eq, Structural)]
pub enum PathValidationStatus {
    /// The path exists, as a file or not.
    Valid { is_file: bool },
    /// The path does not exist; this many of its trailing segments are
    /// missing, the path itself included.
    Missing { missing_segment_index: usize },
}

/// Why a file operation failed.
#[derive(Debug, Clone, PartialEq, Eq)]
pub enum FilesystemProviderError {
    /// The operating system refused the operation, with its message.
    IO(String),
    /// A background task could not be joined, with its message.
    JoinError(String),
    /// The reader of a chunked read reported an error.
    ChunkedReaderCallbackError(String),
}

impl FilesystemProviderError {
    /// The message the error reads as.
    pub open spec fn message(&self) -> Seq<char> {
        match self {
            FilesystemProviderError::IO(m) => m@,
            FilesystemProviderError::JoinError(m) => m@,
            FilesystemProviderError::ChunkedReaderCallbackError(m) => "Error in chunked reader callback: "@
                + m@,
        }
    }

    /// The message the error reads as.
    pub fn to_string(&self) -> (r: String)
        ensures
            r@ == self.message(),
            match self {
                FilesystemProviderError::IO(m) => r@ == m@,
                FilesystemProviderError::JoinError(m) => r@ == m@,
                FilesystemProviderError::ChunkedReaderCallbackError(m) => r@
                    == "Error in chunked reader callback: "@ + m@,
            },
    {
        match self {
            FilesystemProviderError::IO(m) => m.clone(),
            FilesystemProviderError::JoinError(m) => m.clone(),
            FilesystemProviderError::ChunkedReaderCallbackError(m) => {
                let mut r = "Error in chunked reader callback: ".to_owned();
                r.append(m.as_str());
                r
            },
        }
    }
}

/// Access to files, as the services need it.
pub trait FilesystemProvider {
    /// Whether looking for something at `path` may answer `r`; any answer,
    /// unless the file system says otherwise (and so for each of these).
    open spec fn may_find_as(&self, path: Seq<char>, r: Result<bool, FilesystemProviderError>) -> bool {
        true
    }

    open spec fn may_validate_as(&self, path: Seq<char>, r: Result<PathValidationStatus, FilesystemProviderError>) -> bool {
        true
    }

    open spec fn may_list_as(&self, path: Seq<char>, r: Result<Vec<String>, FilesystemProviderError>) -> bool {
        true
    }

    open spec fn may_check_dir_as(&self, path: Seq<char>, r: Result<bool, FilesystemProviderError>) -> bool {
        true
    }

    open spec fn may_read_as(&self, path: Seq<char>, r: Result<Vec<u8>, FilesystemProviderError>) -> bool {
        true
    }

    open spec fn may_delete_as(
        &self,
        path: Seq<char>,
        options: FileDeleteOptions,
        r: Result<(), FilesystemProviderError>,
    ) -> bool {
        true
    }

    /// Whether something is at `path`.
    fn file_exists(&self, path: &str) -> (r: Result<bool, FilesystemProviderError>)
        ensures
            self.may_find_as(path@, r),
    ;

    /// What is known of `path`: whether it exists, as a file or not, and
    /// else how much of it is missing.
    fn validate_path(&self, path: &str) -> (r: Result<PathValidationStatus, FilesystemProviderError>)
        ensures
            self.may_validate_as(path@, r),
    ;

    /// The paths of the entries of the folder at `path`.
    fn list_directory(&self, path: &str) -> (r: Result<Vec<String>, FilesystemProviderError>)
        ensures
            self.may_list_as(path@, r),
    ;

    /// Whether `path` is a folder.
    fn is_directory(&self, path: &str) -> (r: Result<bool, FilesystemProviderError>)
        ensures
            self.may_check_dir_as(path@, r),
    ;

    /// The content of the file at `path`.
    fn read_file(&self, path: &str) -> (r: Result<Vec<u8>, FilesystemProviderError>)
        ensures
            self.may_read_as(path@, r),
    ;

    /// Removes the file at `path`; see `FileDeleteOptions` for a file that
    /// is not there.
    fn delete_file(&self, path: &str, options: FileDeleteOptions) -> (r: Result<(), FilesystemProviderError>)
        ensures
            self.may_delete_as(path@, options, r),
    ;
}

/// The settings a file is opened with for writing.
#[derive(Debug, Clone, Copy, PartialEq, Eq, Structural)]
pub struct OpenFlags {
    pub write: bool,
    pub truncate: bool,
    pub create_new: bool,
    pub append: bool,
    pub create: bool,
}

/// How a file is opened for each way of writing: always for writing;
/// overwriting replaces an existing file's content or makes a new file, a
/// new file must not exist yet, appending adds to the end and makes the
/// file only when allowed to.
pub fn open_flags(options: FileWriteOptions) -> (r: OpenFlags)
    ensures
        r.write,
        r.truncate == (options == FileWriteOptions::Overwrite),
        r.create_new == (options == FileWriteOptions::CreateNew),
        r.append == (options == FileWriteOptions::Append || options == FileWriteOptions::AppendDontCreate),
        r.create == (options == FileWriteOptions::Overwrite || options == FileWriteOptions::Append),
{
    let none = OpenFlags { write: true, truncate: false, create_new: false, append: false, create: false };
    match options {
        FileWriteOptions::Overwrite => OpenFlags { truncate: true, create: true, ..none },
        FileWriteOptions::CreateNew => OpenFlags { create_new: true, ..none },
        FileWriteOptions::Append => OpenFlags { append: true, create: true, ..none },
        FileWriteOptions::AppendDontCreate => OpenFlags { append: true, ..none },
    }
}

/// Whether a removal that failed still counts as done: only when the file
/// was not there and missing files are allowed.
pub fn delete_failure_tolerated(options: FileDeleteOptions, not_found: bool) -> (r: bool)
    ensures
        r == (options == FileDeleteOptions::AllowNonexistent && not_found),
{
    match options {
        FileDeleteOptions::AllowNonexistent => not_found,
        FileDeleteOptions::ErrorIfNotExists => false,
    }
}

/// The number of leading entries that are `false`.
pub open spec fn leading_missing(exists: Seq<bool>) -> nat
    decreases exists.len(),
{
    if exists.len() == 0 || exists[0] {
        0
    } else {
        1 + leading_missing(exists.drop_first())
    }
}

/// What is known of a path from whether it and each of its ancestors
/// exist, the path itself first and the root last: an existing path is
/// valid; otherwise as many segments are missing as there are missing
/// entries before the first existing one.
pub fn path_status(exists: &Vec<bool>, is_file: bool) -> (r: PathValidationStatus)
    ensures
        exists@.len() > 0 && exists@[0] ==> r == (PathValidationStatus::Valid { is_file }),
        !(exists@.len() > 0 && exists@[0]) ==> r == (PathValidationStatus::Missing {
            missing_segment_index: leading_missing(exists@) as usize,
        }),
        leading_missing(exists@) <= exists@.len(),
{
    proof {
        lemma_leading_missing(exists@);
    }
    if exists.len() > 0 && exists[0] {
        return PathValidationStatus::Valid { is_file };
    }
    let mut count: usize = 0;
    while count < exists.len() && !exists[count]
        invariant
            count <= exists@.len(),
            forall|k: int| 0 <= k < count ==> !exists@[k],
            leading_missing(exists@) == count + leading_missing(exists@.skip(count as int)),
        decreases exists@.len() - count,
    {
        assert(exists@.skip(count as int).drop_first() =~= exists@.skip(count + 1));
        count = count + 1;
    }
    PathValidationStatus::Missing { missing_segment_index: count }
}

proof fn lemma_leading_missing(exists: Seq<bool>)
    ensures
        leading_missing(exists) <= exists.len(),
        exists.skip(0) == exists,
    decreases exists.len(),
{
    assert(exists.skip(0) =~= exists);
    if exists.len() > 0 {
        lemma_leading_missing(exists.drop_first());
    }
}

/// What the reading side of a chunked read does after a read.
#[derive(Debug, Clone, Copy, PartialEq, Eq, Structural)]
pub enum ReadStep {
    /// Nothing was read: the file is done.
    Stop,
    /// Hand the bytes read on; `last` when the read came short, so that the
    /// file is done after them.
    Send { last: bool },
}

/// What follows a read of `bytes_read` bytes into a buffer of `chunk_size`.
pub fn after_read(bytes_read: usize, chunk_size: usize) -> (r: ReadStep)
    ensures
        bytes_read == 0 ==> r == ReadStep::Stop,
        bytes_read > 0 ==> r == (ReadStep::Send { last: bytes_read < chunk_size }),
{
    if bytes_read == 0 {
        ReadStep::Stop
    } else {
        ReadStep::Send { last: bytes_read < chunk_size }
    }
}

/// What the consuming side of a chunked read does with a reader's answer.
#[derive(Debug, PartialEq, Eq)]
pub enum ChunkVerdict {
    /// Wait for the next chunk.
    Continue,
    /// Tell the reading side to stop, and finish.
    Cancel,
    /// Finish with this error.
    Fail(FilesystemProviderError),
}

/// The answer `Continue` waits for more, `Done` stops the reading side,
/// and an error ends the read with the reader's message.
pub fn on_chunk_answer(answer: ChunkedFileReadResult) -> (r: ChunkVerdict)
    ensures
        answer is Continue ==> r == ChunkVerdict::Continue,
        answer is Done ==> r == ChunkVerdict::Cancel,
        answer is Error ==> r matches ChunkVerdict::Fail(
            FilesystemProviderError::ChunkedReaderCallbackError(_),
        ),
{
    match answer {
        ChunkedFileReadResult::Continue => ChunkVerdict::Continue,
        ChunkedFileReadResult::Done => ChunkVerdict::Cancel,
        ChunkedFileReadResult::Error(e) => ChunkVerdict::Fail(
            FilesystemProviderError::ChunkedReaderCallbackError(failure_text(&e)),
        ),
    }
}

} // verus!
