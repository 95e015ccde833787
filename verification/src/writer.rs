//! The atomic file-write protocol: decisions and naming.
//!
//! The surrounding process performs the OS calls; this module decides each
//! step of the protocol from the outcome of the previous one. A write first
//! attempts an exclusive create (which the OS refuses atomically when the
//! target exists); when the target exists, the full content goes to a unique
//! sibling temp file, which is then renamed onto the target. The rename is
//! atomic: a concurrent reader observes either the complete old content or
//! the complete new content.

use vstd::prelude::*;
use crate::bytes::{bytes_of, vec_extend};
use crate::errors::FileSystemMcpError;
use crate::responses::WriteFileResponse;

verus! {

use vstd::string::StringSliceAdditionalSpecFns;

/// The lowercase hex digit for `d` (meaningful for `d < 16`).
pub open spec fn hex_digit(d: nat) -> u8 {
    if d < 10 {
        (48 + d) as u8
    } else {
        (87 + d) as u8
    }
}

/// The hex digits of `n`, most significant first, lowercase.
pub open spec fn hex_bytes(n: nat) -> Seq<u8>
    decreases n,
{
    if n < 16 {
        seq![hex_digit(n)]
    } else {
        hex_bytes(n / 16).push(hex_digit(n % 16))
    }
}

/// The hex digits of `n`, zero-padded on the left to at least 16 digits.
pub open spec fn hex16(n: nat) -> Seq<u8> {
    if hex_bytes(n).len() >= 16 {
        hex_bytes(n)
    } else {
        Seq::new((16 - hex_bytes(n).len()) as nat, |i: int| 48u8) + hex_bytes(n)
    }
}

fn u128_to_hex(n: u128) -> (r: Vec<u8>)
    ensures
        r@ == hex_bytes(n as nat),
    decreases n,
{
    let d: u8 = (n % 16) as u8;
    let digit: u8 = if d < 10 {
        48 + d
    } else {
        87 + d
    };
    if n < 16 {
        let mut v: Vec<u8> = Vec::new();
        v.push(digit);
        v
    } else {
        let mut v = u128_to_hex(n / 16);
        v.push(digit);
        v
    }
}

/// Format `n` as at least 16 lowercase hex digits, zero-padded.
pub fn u128_to_hex16(n: u128) -> (r: Vec<u8>)
    ensures
        r@ == hex16(n as nat),
{
    let digits = u128_to_hex(n);
    if digits.len() >= 16 {
        digits
    } else {
        let pad: usize = 16 - digits.len();
        let mut r: Vec<u8> = Vec::new();
        let mut i: usize = 0;
        while i < pad
            invariant
                i <= pad,
                r@ == Seq::new(i as nat, |j: int| 48u8),
            decreases pad - i,
        {
            r.push(48);
            assert(r@ =~= Seq::new((i + 1) as nat, |j: int| 48u8));
            i += 1;
        }
        vec_extend(&mut r, &digits);
        r
    }
}

/// The unique sibling name used for an atomic replacement: the target path
/// with a high-entropy suffix and a `.tmp` extension.
pub open spec fn temp_name_spec(path: Seq<u8>, suffix: nat) -> Seq<u8> {
    path + ".".spec_bytes() + hex16(suffix) + ".tmp".spec_bytes()
}

/// The temp-file path for an atomic replacement of `path`, from a
/// high-entropy `suffix` (such as the current time in nanoseconds).
pub fn temp_path_for(path: &Vec<u8>, suffix: u128) -> (r: Vec<u8>)
    ensures
        r@ == temp_name_spec(path@, suffix as nat),
{
    let mut r = path.clone();
    let dot = bytes_of(".");
    vec_extend(&mut r, &dot);
    let hex = u128_to_hex16(suffix);
    vec_extend(&mut r, &hex);
    let ext = bytes_of(".tmp");
    vec_extend(&mut r, &ext);
    proof {
        assert(r@ =~= temp_name_spec(path@, suffix as nat));
    }
    r
}

/// The outcome of the exclusive-create attempt on the target, as the
/// filesystem reported it.
pub enum ExclusiveCreate {
    /// The target did not exist and is now open for writing.
    Created,
    /// The target already exists; the atomic-replace branch follows.
    AlreadyExists,
    /// Some other failure, with the reported detail text.
    Failed { detail: Vec<u8> },
}

/// The next step of the write protocol.
pub enum WritePlan {
    /// Write the content directly to the freshly created target.
    WriteDirect,
    /// Write the content to the named temp file, then rename it onto the
    /// target.
    WriteViaTemp { temp_path: Vec<u8> },
    /// Give up with the given error.
    Fail { error: FileSystemMcpError },
}

/// Decide the protocol step that follows the exclusive-create attempt:
/// direct write on success, write-and-rename through a unique temp file when
/// the target exists, and an error otherwise.
pub fn plan_write(path: &Vec<u8>, outcome: &ExclusiveCreate, suffix: u128) -> (r: WritePlan)
    ensures
        outcome is Created ==> r is WriteDirect,
        outcome is AlreadyExists ==> (r matches WritePlan::WriteViaTemp { temp_path } && temp_path@
            == temp_name_spec(path@, suffix as nat)),
        outcome matches ExclusiveCreate::Failed { detail } ==> (r matches WritePlan::Fail { error }
            && (error matches FileSystemMcpError::IoError { message, path: p } && message@
            == "Failed to open file for writing: ".spec_bytes() + detail@ && p@ == path@)),
{
    match outcome {
        ExclusiveCreate::Created => WritePlan::WriteDirect,
        ExclusiveCreate::AlreadyExists => WritePlan::WriteViaTemp {
            temp_path: temp_path_for(path, suffix),
        },
        ExclusiveCreate::Failed { detail } => {
            let mut message = bytes_of("Failed to open file for writing: ");
            vec_extend(&mut message, detail);
            WritePlan::Fail {
                error: FileSystemMcpError::IoError { message, path: path.clone() },
            }
        }
    }
}

/// The failure points of the write protocol after planning.
pub enum WriteFailure {
    /// The parent directory tree could not be created.
    Parent,
    /// Writing the freshly created target failed.
    Write,
    /// Flushing the freshly created target failed.
    Flush,
    /// The temp file could not be created.
    CreateTemp,
    /// Writing the temp file failed.
    WriteTemp,
    /// Flushing the temp file failed.
    FlushTemp,
    /// Renaming the temp file onto the target failed.
    Rename,
}

/// The message prefix of each write-protocol failure point.
pub open spec fn write_failure_prefix(stage: WriteFailure) -> Seq<u8> {
    match stage {
        WriteFailure::Parent => "Failed to create parent directory: ".spec_bytes(),
        WriteFailure::Write => "Failed to write file: ".spec_bytes(),
        WriteFailure::Flush => "Failed to flush file: ".spec_bytes(),
        WriteFailure::CreateTemp => "Failed to create temporary file: ".spec_bytes(),
        WriteFailure::WriteTemp => "Failed to write to temporary file: ".spec_bytes(),
        WriteFailure::FlushTemp => "Failed to flush temporary file: ".spec_bytes(),
        WriteFailure::Rename => "Failed to rename temporary file: ".spec_bytes(),
    }
}

/// The path a write-protocol failure reports: the target for its own stages,
/// the temp file for the temp stages, and the `temp -> target` pair for a
/// failed rename.
pub open spec fn write_failure_path(stage: WriteFailure, path: Seq<u8>, temp_path: Seq<u8>) -> Seq<
    u8,
> {
    match stage {
        WriteFailure::Parent => path,
        WriteFailure::Write => path,
        WriteFailure::Flush => path,
        WriteFailure::CreateTemp => temp_path,
        WriteFailure::WriteTemp => temp_path,
        WriteFailure::FlushTemp => temp_path,
        WriteFailure::Rename => crate::responses::path_pair(temp_path, path),
    }
}

/// The error for a failed write-protocol step. After a temp-stage failure the
/// caller also deletes the temp file, best effort.
pub fn write_failure_error(
    stage: &WriteFailure,
    path: &Vec<u8>,
    temp_path: &Vec<u8>,
    detail: &Vec<u8>,
) -> (e: FileSystemMcpError)
    ensures
        e matches FileSystemMcpError::IoError { message, path: p } && message@
            == write_failure_prefix(*stage) + detail@ && p@ == write_failure_path(
            *stage,
            path@,
            temp_path@,
        ),
{
    let mut message = match stage {
        WriteFailure::Parent => bytes_of("Failed to create parent directory: "),
        WriteFailure::Write => bytes_of("Failed to write file: "),
        WriteFailure::Flush => bytes_of("Failed to flush file: "),
        WriteFailure::CreateTemp => bytes_of("Failed to create temporary file: "),
        WriteFailure::WriteTemp => bytes_of("Failed to write to temporary file: "),
        WriteFailure::FlushTemp => bytes_of("Failed to flush temporary file: "),
        WriteFailure::Rename => bytes_of("Failed to rename temporary file: "),
    };
    vec_extend(&mut message, detail);
    let p = match stage {
        WriteFailure::Parent => path.clone(),
        WriteFailure::Write => path.clone(),
        WriteFailure::Flush => path.clone(),
        WriteFailure::CreateTemp => temp_path.clone(),
        WriteFailure::WriteTemp => temp_path.clone(),
        WriteFailure::FlushTemp => temp_path.clone(),
        WriteFailure::Rename => {
            let mut pair = temp_path.clone();
            let arrow = bytes_of(" -> ");
            vec_extend(&mut pair, &arrow);
            vec_extend(&mut pair, path);
            pair
        }
    };
    FileSystemMcpError::IoError { message, path: p }
}

/// The response of a completed write: the content length in bytes, and
/// `created` exactly when the target did not exist before the protocol began.
pub fn write_file_response(path: &Vec<u8>, content_len: u64, file_existed: bool) -> (r:
    WriteFileResponse)
    ensures
        r.created == !file_existed,
        r.size == Some(content_len),
        r.path@ == path@,
        r.message@ == crate::responses::file_written_message(!file_existed, content_len),
{
    WriteFileResponse::file_written(path, content_len, !file_existed)
}

} // verus!
