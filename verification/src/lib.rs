//! A sandboxed filesystem service core: path validation against a set of
//! allowed root directories, an atomic file-write protocol, a tolerant
//! line-oriented edit applier, and directory tree / search walkers built on
//! glob exclusion.
//!
//! All text and paths are handled as UTF-8 byte vectors; the surrounding
//! process performs the actual I/O and hands the results to this crate as
//! plain values.

pub mod bytes;
pub mod duration;
pub mod edits;
pub mod errors;
pub mod reader;
pub mod requests;
pub mod responses;
pub mod services;
pub mod walker;
pub mod writer;
pub mod globs;
pub mod listing;
pub mod path_norm;
pub mod validation;
