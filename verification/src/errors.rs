//! The error taxonomy of the filesystem service core.
//!
//! Every operation reports a typed error: the offending path, the attempted
//! operation, and a message, plus a generic key/value list for extra context.

use vstd::prelude::*;

verus! {

/// Errors of the filesystem service core.
///
/// * `PathNotFound`: the target (or, for a new file, its parent) does not exist.
/// * `PermissionDenied`: the path resolves outside every allowed root, or
///   access was denied.
/// * `ValidationError`: a malformed request; `data` carries structured
///   key/value context such as the failing edit index.
/// * `IoError`: an underlying failure not attributable to the above.
#[derive(Debug)]
pub enum FileSystemMcpError {
    PathNotFound { path: Vec<u8> },
    PermissionDenied { path: Vec<u8> },
    ValidationError { message: Vec<u8>, path: Vec<u8>, operation: Vec<u8>, data: Vec<(Vec<u8>, Vec<u8>)> },
    IoError { message: Vec<u8>, path: Vec<u8> },
}

/// Result type of the core operations.
pub type FileSystemMcpResult<T> = Result<T, FileSystemMcpError>;

} // verus!
