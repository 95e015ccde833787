//! The service types under which the operations are grouped, and their
//! shared helpers.
//!
//! The services are stateless handles: each request is an independent call,
//! and the only configuration — the allowed roots — travels separately.

use vstd::prelude::*;
use crate::edits::normalize_crlf;
use crate::listing::{sorted_by, DirectoryEntry};
use crate::requests::SortBy;
use crate::validation::Config;

verus! {

use vstd::string::StringSliceAdditionalSpecFns;

/// The service of the general file operations: reading, writing, editing,
/// listing, tree building and searching.
pub struct FileService;

impl FileService {
    /// Create a new FileService instance.
    pub fn new() -> Self {
        FileService
    }

    /// Normalize line endings to `\n`.
    pub fn normalize_line_endings(text: &Vec<u8>) -> (r: Vec<u8>)
        ensures
            r@ == normalize_crlf(text@),
    {
        crate::edits::normalize_line_endings(text)
    }

    /// Sort directory entries by the given key: ordered and a permutation of
    /// the input.
    pub fn sort_directory_entries(entries: &mut Vec<DirectoryEntry>, sort_by: &SortBy)
        ensures
            sorted_by(*sort_by, final(entries)@),
            final(entries)@.to_multiset() == old(entries)@.to_multiset(),
    {
        crate::listing::sort_directory_entries(entries, sort_by)
    }

    /// The icon for a file-type label.
    pub fn get_file_icon(file_type: &Vec<u8>) -> (r: Vec<u8>)
        ensures
            r@ == crate::listing::icon_of(file_type@),
    {
        crate::listing::get_file_icon(file_type)
    }

    /// Format a detailed directory listing with its summary line.
    pub fn format_detailed_listing(entries: &Vec<DirectoryEntry>) -> (r: (Vec<Vec<u8>>, Vec<u8>))
        ensures
            r.0@.map_values(|l: Vec<u8>| l@) == crate::listing::detailed_lines(entries@),
            r.1@ == crate::listing::summary_line(
                crate::listing::dirs_of(entries@).len() as nat,
                crate::listing::files_of(entries@).len() as nat,
                crate::listing::sum_sizes(crate::listing::files_of(entries@)),
            ),
    {
        crate::listing::format_detailed_listing(entries)
    }

    /// Format a size in human-readable form.
    pub fn format_size(size: u64) -> (r: Vec<u8>)
        ensures
            r@ == crate::listing::format_size_spec(size as nat),
    {
        crate::listing::format_size(size)
    }
}

impl Default for FileService {
    /// The default service is the plain one.
    fn default() -> Self {
        FileService::new()
    }
}

/// The service of the file-writing operations.
pub struct FileWriterService;

impl FileWriterService {
    /// Create a new FileWriterService instance.
    pub fn new() -> Self {
        FileWriterService
    }

    /// Normalize line endings to `\n`.
    pub fn normalize_line_endings(text: &Vec<u8>) -> (r: Vec<u8>)
        ensures
            r@ == normalize_crlf(text@),
    {
        crate::edits::normalize_line_endings(text)
    }
}

impl Default for FileWriterService {
    /// The default service is the plain one.
    fn default() -> Self {
        FileWriterService::new()
    }
}

/// The service of the file-reading operations.
pub struct FileReaderService;

impl FileReaderService {
    /// Create a new FileReaderService instance.
    pub fn new() -> Self {
        FileReaderService
    }
}

impl Default for FileReaderService {
    /// The default service is the plain one.
    fn default() -> Self {
        FileReaderService::new()
    }
}

/// The filesystem service: the allowed-roots configuration together with the
/// operations.
pub struct FileSystemService {
    pub config: Config,
}

impl FileSystemService {
    /// Create a new filesystem service with the given configuration.
    pub fn new(config: Config) -> (r: Self)
        ensures
            r.config.allowed_directories@ == config.allowed_directories@,
    {
        FileSystemService { config }
    }
}

} // verus!
