//! Response payloads of the service operations.

use vstd::prelude::*;
use crate::bytes::{bytes_of, dec_bytes, u64_to_dec, vec_extend};

verus! {

use vstd::string::StringSliceAdditionalSpecFns;

/// File content, as plain text or base64-encoded binary data.
pub enum FileContent {
    Text(Vec<u8>),
    Binary(Vec<u8>),
}

/// Response of the file-reading operations.
pub struct ReadFileResponse {
    /// Content of the file as either text or base64-encoded binary.
    pub content: FileContent,
    /// MIME type of the file.
    pub mime_type: Vec<u8>,
}

impl ReadFileResponse {
    /// Create a text file response.
    pub fn text(content: Vec<u8>) -> (r: Self)
        ensures
            r.content matches FileContent::Text(c) && c@ == content@,
            r.mime_type@ == "text/plain".spec_bytes(),
    {
        ReadFileResponse { content: FileContent::Text(content), mime_type: bytes_of("text/plain") }
    }

    /// Create a binary file response.
    pub fn binary(base64_content: Vec<u8>, mime_type: Vec<u8>) -> (r: Self)
        ensures
            r.content matches FileContent::Binary(c) && c@ == base64_content@,
            r.mime_type@ == mime_type@,
    {
        ReadFileResponse { content: FileContent::Binary(base64_content), mime_type }
    }
}

/// The message of a successful write: the action taken and the byte count.
pub open spec fn file_written_message(created: bool, size: u64) -> Seq<u8> {
    (if created {
        "File created successfully with ".spec_bytes()
    } else {
        "File updated successfully with ".spec_bytes()
    }) + dec_bytes(size as nat) + " bytes".spec_bytes()
}

/// The `from -> to` path pair shown by move and copy responses.
pub open spec fn path_pair(from: Seq<u8>, to: Seq<u8>) -> Seq<u8> {
    from + " -> ".spec_bytes() + to
}

/// Response of the file-writing and directory operations.
pub struct WriteFileResponse {
    /// Success message describing the operation.
    pub message: Vec<u8>,
    /// Path of the file or directory that was operated on.
    pub path: Vec<u8>,
    /// Size of the file in bytes, when applicable.
    pub size: Option<u64>,
    /// Whether the operation created a new file or directory.
    pub created: bool,
}

impl WriteFileResponse {
    /// Create a response with the given fields.
    pub fn new(message: Vec<u8>, path: Vec<u8>, size: Option<u64>, created: bool) -> (r: Self)
        ensures
            r.message@ == message@,
            r.path@ == path@,
            r.size == size,
            r.created == created,
    {
        WriteFileResponse { message, path, size, created }
    }

    /// The response for a completed file write. `created` is true only when
    /// the target did not exist before the call.
    pub fn file_written(path: &Vec<u8>, size: u64, created: bool) -> (r: Self)
        ensures
            r.message@ == file_written_message(created, size),
            r.path@ == path@,
            r.size == Some(size),
            r.created == created,
    {
        let mut message = if created {
            bytes_of("File created successfully with ")
        } else {
            bytes_of("File updated successfully with ")
        };
        let count = u64_to_dec(size);
        vec_extend(&mut message, &count);
        let unit = bytes_of(" bytes");
        vec_extend(&mut message, &unit);
        WriteFileResponse { message, path: path.clone(), size: Some(size), created }
    }

    /// The response for a directory-creation call: `created` is true only
    /// when the directory did not exist before the call.
    pub fn directory_created(path: &Vec<u8>, existed: bool) -> (r: Self)
        ensures
            r.message@ == "Directory created successfully".spec_bytes(),
            r.path@ == path@,
            r.size is None,
            r.created == !existed,
    {
        WriteFileResponse {
            message: bytes_of("Directory created successfully"),
            path: path.clone(),
            size: None,
            created: !existed,
        }
    }

    /// The response for a deleted file or directory.
    pub fn deleted(path: &Vec<u8>, is_directory: bool) -> (r: Self)
        ensures
            r.message@ == (if is_directory {
                "Directory deleted successfully".spec_bytes()
            } else {
                "File deleted successfully".spec_bytes()
            }),
            r.path@ == path@,
            r.size is None,
            !r.created,
    {
        let message = if is_directory {
            bytes_of("Directory deleted successfully")
        } else {
            bytes_of("File deleted successfully")
        };
        WriteFileResponse { message, path: path.clone(), size: None, created: false }
    }

    /// The response for a move or rename.
    pub fn moved(from: &Vec<u8>, to: &Vec<u8>) -> (r: Self)
        ensures
            r.message@ == "File/directory moved successfully".spec_bytes(),
            r.path@ == path_pair(from@, to@),
            r.size is None,
            !r.created,
    {
        let mut path = from.clone();
        let arrow = bytes_of(" -> ");
        vec_extend(&mut path, &arrow);
        vec_extend(&mut path, to);
        WriteFileResponse {
            message: bytes_of("File/directory moved successfully"),
            path,
            size: None,
            created: false,
        }
    }

    /// The response for a completed copy, carrying the resulting size.
    pub fn copied(from: &Vec<u8>, to: &Vec<u8>, size: u64) -> (r: Self)
        ensures
            r.message@ == "File copied successfully".spec_bytes(),
            r.path@ == path_pair(from@, to@),
            r.size == Some(size),
            r.created,
    {
        let mut path = from.clone();
        let arrow = bytes_of(" -> ");
        vec_extend(&mut path, &arrow);
        vec_extend(&mut path, to);
        WriteFileResponse {
            message: bytes_of("File copied successfully"),
            path,
            size: Some(size),
            created: true,
        }
    }

    /// The preview response of an edit dry run: nothing is written, the
    /// message reports how many edits would apply, and the size reports the
    /// projected content length.
    pub fn dry_run_preview(path: &Vec<u8>, edit_count: u64, projected_size: u64) -> (r: Self)
        ensures
            r.message@ == "Dry run completed. ".spec_bytes() + dec_bytes(edit_count as nat)
                + " edits would be applied.".spec_bytes(),
            r.path@ == path@,
            r.size == Some(projected_size),
            !r.created,
    {
        let mut message = bytes_of("Dry run completed. ");
        let count = u64_to_dec(edit_count);
        vec_extend(&mut message, &count);
        let rest = bytes_of(" edits would be applied.");
        vec_extend(&mut message, &rest);
        WriteFileResponse { message, path: path.clone(), size: Some(projected_size), created: false }
    }
}

} // verus!
