//! Request payloads of the service operations, with their validation rules.

use vstd::prelude::*;
use crate::bytes::bytes_of;
use crate::edits::is_blank;
use crate::errors::FileSystemMcpError;

verus! {

use vstd::string::StringSliceAdditionalSpecFns;

/// One find/replace operation of an edit request: `old_text` is searched for,
/// `new_text` replaces it. `new_text` may be empty (a deletion).
pub struct EditOperation {
    old_text: Vec<u8>,
    new_text: Vec<u8>,
}

impl View for EditOperation {
    type V = (Seq<u8>, Seq<u8>);

    closed spec fn view(&self) -> (Seq<u8>, Seq<u8>) {
        (self.old_text@, self.new_text@)
    }
}

impl EditOperation {
    /// Create a new EditOperation instance.
    pub fn new(old_text: Vec<u8>, new_text: Vec<u8>) -> (r: Self)
        ensures
            r@ == (old_text@, new_text@),
    {
        EditOperation { old_text, new_text }
    }

    /// The text to search for.
    pub fn old_text(&self) -> (r: &Vec<u8>)
        ensures
            r@ == self@.0,
    {
        &self.old_text
    }

    /// The replacement text.
    pub fn new_text(&self) -> (r: &Vec<u8>)
        ensures
            r@ == self@.1,
    {
        &self.new_text
    }

    /// An edit operation is well-formed when `old_text` is neither empty nor
    /// pure whitespace; `new_text` is unconstrained.
    pub fn validate(&self) -> (r: Result<(), FileSystemMcpError>)
        ensures
            r is Ok <==> !is_blank(self@.0),
            r matches Err(e) ==> e matches FileSystemMcpError::ValidationError {
                message,
                path,
                operation,
                data,
            } && message@ == "Invalid edit operation".spec_bytes() && path@
                == "edit_operation".spec_bytes() && operation@ == "validate".spec_bytes()
                && data@.len() == 1 && data@[0].0@ == "error".spec_bytes() && data@[0].1@ == (
            if self@.0.len() == 0 {
                "old_text cannot be empty".spec_bytes()
            } else {
                "old_text cannot contain only whitespace".spec_bytes()
            }),
    {
        if self.old_text.len() == 0 {
            let mut data: Vec<(Vec<u8>, Vec<u8>)> = Vec::new();
            data.push((bytes_of("error"), bytes_of("old_text cannot be empty")));
            return Err(FileSystemMcpError::ValidationError {
                message: bytes_of("Invalid edit operation"),
                path: bytes_of("edit_operation"),
                operation: bytes_of("validate"),
                data,
            });
        }
        let trimmed = crate::edits::trim(&self.old_text);
        if trimmed.len() == 0 {
            let mut data: Vec<(Vec<u8>, Vec<u8>)> = Vec::new();
            data.push((bytes_of("error"), bytes_of("old_text cannot contain only whitespace")));
            return Err(FileSystemMcpError::ValidationError {
                message: bytes_of("Invalid edit operation"),
                path: bytes_of("edit_operation"),
                operation: bytes_of("validate"),
                data,
            });
        }
        Ok(())
    }
}

fn blank_path_error(path: &Vec<u8>, operation: &str) -> (e: FileSystemMcpError)
    ensures
        e matches FileSystemMcpError::ValidationError { message, path: p, operation: op, data }
            && message@ == "Invalid path".spec_bytes() && p@ == path@ && op@
            == operation.spec_bytes() && data@.len() == 1 && data@[0].0@ == "error".spec_bytes()
            && data@[0].1@ == "Path is empty".spec_bytes(),
{
    let mut data: Vec<(Vec<u8>, Vec<u8>)> = Vec::new();
    data.push((bytes_of("error"), bytes_of("Path is empty")));
    FileSystemMcpError::ValidationError {
        message: bytes_of("Invalid path"),
        path: path.clone(),
        operation: bytes_of(operation),
        data,
    }
}

fn empty_path_error(path: &Vec<u8>, operation: &str) -> (e: FileSystemMcpError)
    ensures
        e matches FileSystemMcpError::ValidationError { message, path: p, operation: op, data }
            && message@ == "Invalid path".spec_bytes() && p@ == path@ && op@
            == operation.spec_bytes() && data@.len() == 2 && data@[0].0@ == "error".spec_bytes()
            && data@[0].1@ == "Path cannot be empty".spec_bytes() && data@[1].0@
            == "provided_path".spec_bytes() && data@[1].1@ == path@,
{
    let mut data: Vec<(Vec<u8>, Vec<u8>)> = Vec::new();
    data.push((bytes_of("error"), bytes_of("Path cannot be empty")));
    data.push((bytes_of("provided_path"), path.clone()));
    FileSystemMcpError::ValidationError {
        message: bytes_of("Invalid path"),
        path: path.clone(),
        operation: bytes_of(operation),
        data,
    }
}

/// Request to read a text file, wholly or its first or last `n` lines.
pub struct ReadTextFileRequest {
    path: Vec<u8>,
    tail: Option<usize>,
    head: Option<usize>,
}

impl ReadTextFileRequest {
    /// Create a request from its parts.
    pub fn new(path: Vec<u8>, tail: Option<usize>, head: Option<usize>) -> (r: Self)
        ensures
            r.spec_path() == path@,
            r.spec_tail() == tail,
            r.spec_head() == head,
    {
        ReadTextFileRequest { path, tail, head }
    }

    /// Path to the file to read.
    pub closed spec fn spec_path(&self) -> Seq<u8> {
        self.path@
    }

    pub fn path(&self) -> (r: &Vec<u8>)
        ensures
            r@ == self.spec_path(),
    {
        &self.path
    }

    /// If provided, only the last N lines are read.
    pub closed spec fn spec_tail(&self) -> Option<usize> {
        self.tail
    }

    pub fn tail(&self) -> (r: &Option<usize>)
        ensures
            *r == self.spec_tail(),
    {
        &self.tail
    }

    /// If provided, only the first N lines are read.
    pub closed spec fn spec_head(&self) -> Option<usize> {
        self.head
    }

    pub fn head(&self) -> (r: &Option<usize>)
        ensures
            *r == self.spec_head(),
    {
        &self.head
    }

    /// The request is well-formed when the path is not blank and at most one
    /// of `head` and `tail` is given.
    pub fn validate(&self) -> (r: Result<(), FileSystemMcpError>)
        ensures
            r is Ok <==> !is_blank(self.spec_path()) && !(self.spec_tail() is Some && self.spec_head() is Some),
            r matches Err(e) ==> (e matches FileSystemMcpError::ValidationError {
                message,
                path,
                operation,
                data,
            } && operation@ == "validate".spec_bytes() && path@ == self.spec_path() && data@.len()
                == 1 && data@[0].0@ == "error".spec_bytes() && (if is_blank(self.spec_path()) {
                message@ == "Invalid path".spec_bytes() && data@[0].1@
                    == "Path is empty".spec_bytes()
            } else {
                message@ == "Conflicting parameters provided".spec_bytes() && data@[0].1@
                    == "Both tail and head are provided".spec_bytes()
            })),
    {
        let trimmed = crate::edits::trim(&self.path);
        if trimmed.len() == 0 {
            return Err(blank_path_error(&self.path, "validate"));
        }
        if self.tail.is_some() && self.head.is_some() {
            let mut data: Vec<(Vec<u8>, Vec<u8>)> = Vec::new();
            data.push((bytes_of("error"), bytes_of("Both tail and head are provided")));
            return Err(FileSystemMcpError::ValidationError {
                message: bytes_of("Conflicting parameters provided"),
                path: self.path.clone(),
                operation: bytes_of("validate"),
                data,
            });
        }
        Ok(())
    }
}

/// Request to read a media file as base64 with a detected media type.
pub struct ReadMediaFileRequest {
    path: Vec<u8>,
}

impl ReadMediaFileRequest {
    /// Create a request from its path.
    pub fn new(path: Vec<u8>) -> (r: Self)
        ensures
            r.spec_path() == path@,
    {
        ReadMediaFileRequest { path }
    }

    pub closed spec fn spec_path(&self) -> Seq<u8> {
        self.path@
    }

    /// Path to the media file to read.
    pub fn path(&self) -> (r: &Vec<u8>)
        ensures
            r@ == self.spec_path(),
    {
        &self.path
    }

    /// The request is well-formed when the path is not blank.
    pub fn validate(&self) -> (r: Result<(), FileSystemMcpError>)
        ensures
            r is Ok <==> !is_blank(self.spec_path()),
            r matches Err(e) ==> (e matches FileSystemMcpError::ValidationError {
                message,
                path,
                operation,
                data,
            } && message@ == "Invalid path".spec_bytes() && path@ == self.spec_path() && operation@
                == "validate".spec_bytes() && data@.len() == 1 && data@[0].0@
                == "error".spec_bytes() && data@[0].1@ == "Path is empty".spec_bytes()),
    {
        let trimmed = crate::edits::trim(&self.path);
        if trimmed.len() == 0 {
            return Err(blank_path_error(&self.path, "validate"));
        }
        Ok(())
    }
}

/// The first blank path of a list, when there is one.
pub open spec fn first_blank_path(paths: Seq<Seq<u8>>) -> Option<int>
    decreases paths.len(),
{
    if paths.len() == 0 {
        None
    } else if is_blank(paths.first()) {
        Some(0)
    } else {
        match first_blank_path(paths.drop_first()) {
            Some(k) => Some(k + 1),
            None => None,
        }
    }
}

/// Request to read a batch of files; each path is read independently.
pub struct ReadMultipleFilesRequest {
    paths: Vec<Vec<u8>>,
}

impl ReadMultipleFilesRequest {
    /// Create a request from its paths.
    pub fn new(paths: Vec<Vec<u8>>) -> (r: Self)
        ensures
            r.spec_paths() == paths@,
    {
        ReadMultipleFilesRequest { paths }
    }

    pub closed spec fn spec_paths(&self) -> Seq<Vec<u8>> {
        self.paths@
    }

    /// The file paths to read.
    pub fn paths(&self) -> (r: &Vec<Vec<u8>>)
        ensures
            r@ == self.spec_paths(),
    {
        &self.paths
    }

    /// The request is well-formed when it names at least one path and no
    /// path is blank.
    pub fn validate(&self) -> (r: Result<(), FileSystemMcpError>)
        ensures
            r is Ok <==> self.spec_paths().len() > 0 && first_blank_path(
                self.spec_paths().map_values(|p: Vec<u8>| p@),
            ) is None,
            r matches Err(e) ==> (e matches FileSystemMcpError::ValidationError {
                message,
                path,
                operation,
                data,
            } && operation@ == "validate".spec_bytes() && data@.len() == 1 && data@[0].0@
                == "error".spec_bytes() && (if self.spec_paths().len() == 0 {
                message@ == "Invalid paths".spec_bytes() && path@ == Seq::<u8>::empty()
                    && data@[0].1@ == "Paths are empty".spec_bytes()
            } else {
                first_blank_path(self.spec_paths().map_values(|p: Vec<u8>| p@)) matches Some(k)
                    && message@ == "Invalid path".spec_bytes() && path@ == self.spec_paths().map_values(
                    |p: Vec<u8>| p@,
                )[k] && data@[0].1@ == "Path is empty".spec_bytes()
            })),
    {
        let ghost pv = self.paths@.map_values(|p: Vec<u8>| p@);
        if self.paths.len() == 0 {
            let mut data: Vec<(Vec<u8>, Vec<u8>)> = Vec::new();
            data.push((bytes_of("error"), bytes_of("Paths are empty")));
            return Err(FileSystemMcpError::ValidationError {
                message: bytes_of("Invalid paths"),
                path: Vec::new(),
                operation: bytes_of("validate"),
                data,
            });
        }
        proof {
            assert(pv.subrange(0, pv.len() as int) =~= pv);
        }
        let mut i: usize = 0;
        while i < self.paths.len()
            invariant
                i <= self.paths@.len(),
                pv == self.paths@.map_values(|p: Vec<u8>| p@),
                first_blank_path(pv) == (match first_blank_path(
                    pv.subrange(i as int, pv.len() as int),
                ) {
                    Some(k) => Some(k + i),
                    None => None::<int>,
                }),
            decreases self.paths@.len() - i,
        {
            let ghost rest = pv.subrange(i as int, pv.len() as int);
            let trimmed = crate::edits::trim(&self.paths[i]);
            if trimmed.len() == 0 {
                assert(first_blank_path(rest) == Some(0int));
                return Err(blank_path_error(&self.paths[i], "validate"));
            }
            proof {
                assert(rest.drop_first() =~= pv.subrange(i + 1 as int, pv.len() as int));
            }
            i += 1;
        }
        proof {
            assert(first_blank_path(pv.subrange(pv.len() as int, pv.len() as int)) is None);
        }
        Ok(())
    }
}

/// The content-size cap of a write request.
pub const MAX_WRITE_CONTENT: usize = 100_000_000;

/// Request to write a whole file.
pub struct WriteFileRequest {
    path: Vec<u8>,
    content: Vec<u8>,
}

impl WriteFileRequest {
    /// Create a request from its parts.
    pub fn new(path: Vec<u8>, content: Vec<u8>) -> (r: Self)
        ensures
            r.spec_path() == path@,
            r.spec_content() == content@,
    {
        WriteFileRequest { path, content }
    }

    pub closed spec fn spec_path(&self) -> Seq<u8> {
        self.path@
    }

    /// Path to the file to write.
    pub fn path(&self) -> (r: &Vec<u8>)
        ensures
            r@ == self.spec_path(),
    {
        &self.path
    }

    pub closed spec fn spec_content(&self) -> Seq<u8> {
        self.content@
    }

    /// Content to write to the file.
    pub fn content(&self) -> (r: &Vec<u8>)
        ensures
            r@ == self.spec_content(),
    {
        &self.content
    }

    /// The request is well-formed when the path is not blank and the content
    /// stays under the size cap.
    pub fn validate(&self) -> (r: Result<(), FileSystemMcpError>)
        ensures
            r is Ok <==> !is_blank(self.spec_path()) && self.spec_content().len() <= MAX_WRITE_CONTENT,
            r matches Err(e) ==> (e matches FileSystemMcpError::ValidationError {
                message,
                path,
                operation,
                data,
            } && operation@ == "validate".spec_bytes() && path@ == self.spec_path() && (
            if is_blank(self.spec_path()) {
                message@ == "Invalid path".spec_bytes() && data@.len() == 1 && data@[0].0@
                    == "error".spec_bytes() && data@[0].1@ == "Path is empty".spec_bytes()
            } else {
                message@ == "Content too large".spec_bytes() && data@.len() == 3 && data@[0].0@
                    == "error".spec_bytes() && data@[0].1@
                    == "Content exceeds maximum size limit".spec_bytes() && data@[1].0@
                    == "max_size".spec_bytes() && data@[1].1@ == crate::bytes::dec_bytes(
                    MAX_WRITE_CONTENT as nat,
                ) && data@[2].0@ == "actual_size".spec_bytes() && data@[2].1@
                    == crate::bytes::dec_bytes(self.spec_content().len())
            })),
    {
        let trimmed = crate::edits::trim(&self.path);
        if trimmed.len() == 0 {
            return Err(blank_path_error(&self.path, "validate"));
        }
        if self.content.len() > MAX_WRITE_CONTENT {
            let mut data: Vec<(Vec<u8>, Vec<u8>)> = Vec::new();
            data.push((bytes_of("error"), bytes_of("Content exceeds maximum size limit")));
            data.push((bytes_of("max_size"), crate::bytes::u64_to_dec(MAX_WRITE_CONTENT as u64)));
            data.push((bytes_of("actual_size"), crate::bytes::u64_to_dec(self.content.len() as u64)));
            return Err(FileSystemMcpError::ValidationError {
                message: bytes_of("Content too large"),
                path: self.path.clone(),
                operation: bytes_of("validate"),
                data,
            });
        }
        Ok(())
    }
}

/// The first ill-formed edit of a list, when there is one.
pub open spec fn first_invalid_edit(edits: Seq<(Seq<u8>, Seq<u8>)>) -> Option<int>
    decreases edits.len(),
{
    if edits.len() == 0 {
        None
    } else if is_blank(edits.first().0) {
        Some(0)
    } else {
        match first_invalid_edit(edits.drop_first()) {
            Some(k) => Some(k + 1),
            None => None,
        }
    }
}

/// Request to apply an ordered edit list, with an optional dry run.
pub struct EditFileRequest {
    path: Vec<u8>,
    edits: Vec<EditOperation>,
    dry_run: bool,
}

impl EditFileRequest {
    /// Create a request from its parts.
    pub fn new(path: Vec<u8>, edits: Vec<EditOperation>, dry_run: bool) -> (r: Self)
        ensures
            r.spec_path() == path@,
            r.spec_edits() == edits@,
            r.spec_dry_run() == dry_run,
    {
        EditFileRequest { path, edits, dry_run }
    }

    pub closed spec fn spec_path(&self) -> Seq<u8> {
        self.path@
    }

    /// Path to the file to edit.
    pub fn path(&self) -> (r: &Vec<u8>)
        ensures
            r@ == self.spec_path(),
    {
        &self.path
    }

    pub closed spec fn spec_edits(&self) -> Seq<EditOperation> {
        self.edits@
    }

    /// The edit operations, applied in order.
    pub fn edits(&self) -> (r: &Vec<EditOperation>)
        ensures
            r@ == self.spec_edits(),
    {
        &self.edits
    }

    pub closed spec fn spec_dry_run(&self) -> bool {
        self.dry_run
    }

    /// Whether to preview the changes without writing them.
    pub fn dry_run(&self) -> (r: bool)
        ensures
            r == self.spec_dry_run(),
    {
        self.dry_run
    }

    /// The request is well-formed when the path is not blank, there is at
    /// least one edit, and every edit's `old_text` is neither empty nor pure
    /// whitespace. The error for an ill-formed edit names the first failing
    /// edit's position under `edit_index`.
    pub fn validate(&self) -> (r: Result<(), FileSystemMcpError>)
        ensures
            r is Ok <==> !is_blank(self.spec_path()) && self.spec_edits().len() > 0 && first_invalid_edit(
                self.spec_edits().map_values(|e: EditOperation| e@),
            ) is None,
            r matches Err(e) ==> (e matches FileSystemMcpError::ValidationError {
                message,
                path,
                operation,
                data,
            } && operation@ == "validate".spec_bytes() && (if is_blank(self.spec_path()) {
                message@ == "Invalid path".spec_bytes() && path@ == self.spec_path() && data@.len()
                    == 1 && data@[0].0@ == "error".spec_bytes() && data@[0].1@
                    == "Path is empty".spec_bytes()
            } else if self.spec_edits().len() == 0 {
                message@ == "No edit operations provided".spec_bytes() && path@ == self.spec_path()
                    && data@.len() == 1 && data@[0].0@ == "error".spec_bytes() && data@[0].1@
                    == "Edits array is empty".spec_bytes()
            } else {
                first_invalid_edit(self.spec_edits().map_values(|e: EditOperation| e@))
                    matches Some(k) && message@ == "Invalid edit operation".spec_bytes() && path@
                    == "edit_operation".spec_bytes() && data@.len() == 2 && data@[0].0@
                    == "error".spec_bytes() && data@[0].1@ == (if self.spec_edits().map_values(
                    |e: EditOperation| e@,
                )[k].0.len() == 0 {
                    "old_text cannot be empty".spec_bytes()
                } else {
                    "old_text cannot contain only whitespace".spec_bytes()
                }) && data@[1].0@ == "edit_index".spec_bytes() && data@[1].1@
                    == crate::bytes::dec_bytes(k as nat)
            })),
    {
        let ghost evs = self.edits@.map_values(|e: EditOperation| e@);
        let trimmed = crate::edits::trim(&self.path);
        if trimmed.len() == 0 {
            return Err(blank_path_error(&self.path, "validate"));
        }
        if self.edits.len() == 0 {
            let mut data: Vec<(Vec<u8>, Vec<u8>)> = Vec::new();
            data.push((bytes_of("error"), bytes_of("Edits array is empty")));
            return Err(FileSystemMcpError::ValidationError {
                message: bytes_of("No edit operations provided"),
                path: self.path.clone(),
                operation: bytes_of("validate"),
                data,
            });
        }
        proof {
            assert(evs.subrange(0, evs.len() as int) =~= evs);
        }
        let mut i: usize = 0;
        while i < self.edits.len()
            invariant
                i <= self.edits@.len(),
                evs == self.edits@.map_values(|e: EditOperation| e@),
                !is_blank(self.spec_path()),
                self.spec_edits().len() > 0,
                first_invalid_edit(evs) == (match first_invalid_edit(
                    evs.subrange(i as int, evs.len() as int),
                ) {
                    Some(k) => Some(k + i),
                    None => None::<int>,
                }),
            decreases self.edits@.len() - i,
        {
            let ghost rest = evs.subrange(i as int, evs.len() as int);
            match self.edits[i].validate() {
                Ok(_) => {
                    proof {
                        assert(rest.drop_first() =~= evs.subrange(i + 1 as int, evs.len() as int));
                    }
                }
                Err(e) => {
                    proof {
                        assert(rest.first() == evs[i as int]);
                        assert(evs[i as int] == self.edits@[i as int]@);
                        assert(is_blank(rest.first().0));
                        assert(first_invalid_edit(rest) == Some(0int));
                        assert(first_invalid_edit(evs) == Some(i as int));
                    }
                    // add which edit failed to the error's context
                    match e {
                        FileSystemMcpError::ValidationError { message, path, operation, mut data } => {
                            let ghost prev_data = data@;
                            data.push((bytes_of("edit_index"), crate::bytes::u64_to_dec(i as u64)));
                            proof {
                                assert(data@.len() == 2);
                                assert(data@[0] == prev_data[0]);
                                assert(data@[1].0@ == "edit_index".spec_bytes());
                                assert(data@[1].1@ == crate::bytes::dec_bytes(i as nat));
                            }
                            return Err(FileSystemMcpError::ValidationError {
                                message,
                                path,
                                operation,
                                data,
                            });
                        }
                        other => {
                            return Err(other);
                        }
                    }
                }
            }
            i += 1;
        }
        proof {
            assert(first_invalid_edit(evs.subrange(evs.len() as int, evs.len() as int)) is None);
        }
        Ok(())
    }
}

/// Request to create a directory (recursively).
pub struct CreateDirectoryRequest {
    path: Vec<u8>,
}

impl CreateDirectoryRequest {
    /// Create a request from its path.
    pub fn new(path: Vec<u8>) -> (r: Self)
        ensures
            r.spec_path() == path@,
    {
        CreateDirectoryRequest { path }
    }

    pub closed spec fn spec_path(&self) -> Seq<u8> {
        self.path@
    }

    /// Path to the directory to create.
    pub fn path(&self) -> (r: &Vec<u8>)
        ensures
            r@ == self.spec_path(),
    {
        &self.path
    }

    /// The request is well-formed when the path is not blank.
    pub fn validate(&self) -> (r: Result<(), FileSystemMcpError>)
        ensures
            r is Ok <==> !is_blank(self.spec_path()),
            r matches Err(e) ==> (e matches FileSystemMcpError::ValidationError {
                message,
                path,
                operation,
                data,
            } && message@ == "Invalid path".spec_bytes() && path@ == self.spec_path() && operation@
                == "create_directory".spec_bytes() && data@.len() == 2 && data@[0].0@ == "error".spec_bytes()
                && data@[0].1@ == "Path cannot be empty".spec_bytes() && data@[1].0@
                == "provided_path".spec_bytes() && data@[1].1@ == self.spec_path()),
    {
        let trimmed = crate::edits::trim(&self.path);
        if trimmed.len() == 0 {
            return Err(empty_path_error(&self.path, "create_directory"));
        }
        Ok(())
    }
}

/// Request to list a directory's entries.
pub struct ListDirectoryRequest {
    path: Vec<u8>,
}

impl ListDirectoryRequest {
    /// Create a request from its path.
    pub fn new(path: Vec<u8>) -> (r: Self)
        ensures
            r.spec_path() == path@,
    {
        ListDirectoryRequest { path }
    }

    pub closed spec fn spec_path(&self) -> Seq<u8> {
        self.path@
    }

    /// Path to the directory to list.
    pub fn path(&self) -> (r: &Vec<u8>)
        ensures
            r@ == self.spec_path(),
    {
        &self.path
    }

    /// The request is well-formed when the path is not blank.
    pub fn validate(&self) -> (r: Result<(), FileSystemMcpError>)
        ensures
            r is Ok <==> !is_blank(self.spec_path()),
            r matches Err(e) ==> (e matches FileSystemMcpError::ValidationError {
                message,
                path,
                operation,
                data,
            } && message@ == "Invalid path".spec_bytes() && path@ == self.spec_path() && operation@
                == "list_directory".spec_bytes() && data@.len() == 2 && data@[0].0@ == "error".spec_bytes()
                && data@[0].1@ == "Path cannot be empty".spec_bytes() && data@[1].0@
                == "provided_path".spec_bytes() && data@[1].1@ == self.spec_path()),
    {
        let trimmed = crate::edits::trim(&self.path);
        if trimmed.len() == 0 {
            return Err(empty_path_error(&self.path, "list_directory"));
        }
        Ok(())
    }
}

/// Request to list a directory with sizes and a sort key.
pub struct ListDirectoryWithSizesRequest {
    path: Vec<u8>,
    sort_by: SortBy,
}

impl ListDirectoryWithSizesRequest {
    /// Create a request from its parts.
    pub fn new(path: Vec<u8>, sort_by: SortBy) -> (r: Self)
        ensures
            r.spec_path() == path@,
            r.spec_sort_by() == sort_by,
    {
        ListDirectoryWithSizesRequest { path, sort_by }
    }

    pub closed spec fn spec_path(&self) -> Seq<u8> {
        self.path@
    }

    /// Path to the directory to list.
    pub fn path(&self) -> (r: &Vec<u8>)
        ensures
            r@ == self.spec_path(),
    {
        &self.path
    }

    pub closed spec fn spec_sort_by(&self) -> SortBy {
        self.sort_by
    }

    /// The sort key for the listing.
    pub fn sort_by(&self) -> (r: &SortBy)
        ensures
            *r == self.spec_sort_by(),
    {
        &self.sort_by
    }

    /// The request is well-formed when the path is not blank.
    pub fn validate(&self) -> (r: Result<(), FileSystemMcpError>)
        ensures
            r is Ok <==> !is_blank(self.spec_path()),
            r matches Err(e) ==> (e matches FileSystemMcpError::ValidationError {
                message,
                path,
                operation,
                data,
            } && message@ == "Invalid path".spec_bytes() && path@ == self.spec_path() && operation@
                == "list_directory_with_sizes".spec_bytes() && data@.len() == 2 && data@[0].0@ == "error".spec_bytes()
                && data@[0].1@ == "Path cannot be empty".spec_bytes() && data@[1].0@
                == "provided_path".spec_bytes() && data@[1].1@ == self.spec_path()),
    {
        let trimmed = crate::edits::trim(&self.path);
        if trimmed.len() == 0 {
            return Err(empty_path_error(&self.path, "list_directory_with_sizes"));
        }
        Ok(())
    }
}

/// Request for a recursive directory tree with exclude patterns.
pub struct DirectoryTreeRequest {
    path: Vec<u8>,
    exclude_patterns: Vec<Vec<u8>>,
}

impl DirectoryTreeRequest {
    /// Create a request from its parts.
    pub fn new(path: Vec<u8>, exclude_patterns: Vec<Vec<u8>>) -> (r: Self)
        ensures
            r.spec_path() == path@,
            r.spec_exclude_patterns() == exclude_patterns@,
    {
        DirectoryTreeRequest { path, exclude_patterns }
    }

    pub closed spec fn spec_path(&self) -> Seq<u8> {
        self.path@
    }

    /// Path to the directory.
    pub fn path(&self) -> (r: &Vec<u8>)
        ensures
            r@ == self.spec_path(),
    {
        &self.path
    }

    pub closed spec fn spec_exclude_patterns(&self) -> Seq<Vec<u8>> {
        self.exclude_patterns@
    }

    /// Patterns to exclude from the tree.
    pub fn exclude_patterns(&self) -> (r: &Vec<Vec<u8>>)
        ensures
            r@ == self.spec_exclude_patterns(),
    {
        &self.exclude_patterns
    }

    /// The request is well-formed when the path is not blank.
    pub fn validate(&self) -> (r: Result<(), FileSystemMcpError>)
        ensures
            r is Ok <==> !is_blank(self.spec_path()),
            r matches Err(e) ==> (e matches FileSystemMcpError::ValidationError {
                message,
                path,
                operation,
                data,
            } && message@ == "Invalid path".spec_bytes() && path@ == self.spec_path() && operation@
                == "directory_tree".spec_bytes() && data@.len() == 2 && data@[0].0@ == "error".spec_bytes()
                && data@[0].1@ == "Path cannot be empty".spec_bytes() && data@[1].0@
                == "provided_path".spec_bytes() && data@[1].1@ == self.spec_path()),
    {
        let trimmed = crate::edits::trim(&self.path);
        if trimmed.len() == 0 {
            return Err(empty_path_error(&self.path, "directory_tree"));
        }
        Ok(())
    }
}

/// Sort options for directory listings.
pub enum SortBy {
    /// Sort by name (alphabetical).
    Name,
    /// Sort by file size (largest first).
    Size,
    /// Sort by modification time (newest first).
    Modified,
}

impl Default for SortBy {
    /// The default sort key is the name.
    fn default() -> (r: Self)
        ensures
            r is Name,
    {
        SortBy::Name
    }
}

} // verus!
