//! Path validation against the configured allowed roots.
//!
//! Validation runs in stages around the two filesystem-canonicalization calls
//! that only the surrounding process can make:
//!
//! 1. `validate_path_start`: expand a home marker, make the path absolute,
//!    normalize it lexically, and reject it early when it is not prefixed by
//!    any allowed root. On success the caller canonicalizes the returned
//!    absolute path.
//! 2. `validate_path_resolved`: when canonicalization succeeded, re-check the
//!    canonical path (symlinks resolved) against the roots.
//! 3. `validate_parent_for_missing` and `validate_path_missing`: when the
//!    target does not exist yet, the parent directory is canonicalized and
//!    checked instead, so that a new file may still be created.

use vstd::prelude::*;
use crate::bytes::{bytes_of, vec_extend};
use crate::errors::FileSystemMcpError;
use crate::path_norm::{
    expand_home, expand_home_spec, is_abs, is_absolute, is_path_within_allowed_directories,
    join_path, join_rel, normalize_path, normalize_spec, parent_of, parent_path, within_any,
};

verus! {

use vstd::string::StringSliceAdditionalSpecFns;

/// The allowed root directories, fixed at startup.
pub struct Config {
    pub allowed_directories: Vec<Vec<u8>>,
}

/// The allowed roots in lexically normalized form.
pub open spec fn norm_roots(roots: Seq<Seq<u8>>) -> Seq<Seq<u8>> {
    roots.map_values(|r: Seq<u8>| normalize_spec(r))
}

/// The directory list joined with `, `, as shown in denial messages.
pub open spec fn listed_dirs(dirs: Seq<Seq<u8>>) -> Seq<u8>
    decreases dirs.len(),
{
    if dirs.len() == 0 {
        Seq::<u8>::empty()
    } else if dirs.len() == 1 {
        dirs[0]
    } else {
        listed_dirs(dirs.drop_last()) + ", ".spec_bytes() + dirs.last()
    }
}

/// A denial message: the offending path and the allowed roots, after a prefix
/// naming the check that failed.
pub open spec fn denial_text(prefix: Seq<u8>, shown: Seq<u8>, dirs: Seq<Seq<u8>>) -> Seq<u8> {
    prefix + shown + " not in [".spec_bytes() + listed_dirs(dirs) + "]".spec_bytes()
}

/// The absolute form of a requested path: home marker expanded, then joined
/// onto the working directory when still relative.
pub open spec fn absolute_of(requested: Seq<u8>, home: Option<Seq<u8>>, cwd: Seq<u8>) -> Seq<u8> {
    let expanded = expand_home_spec(requested, home);
    if is_abs(expanded) {
        expanded
    } else {
        join_rel(cwd, expanded)
    }
}

/// The view of an optional home path.
pub open spec fn home_view(home: &Option<Vec<u8>>) -> Option<Seq<u8>> {
    match home {
        Some(h) => Some(h@),
        None => None,
    }
}

/// The views of the allowed directories.
pub open spec fn roots_view(config: &Config) -> Seq<Seq<u8>> {
    config.allowed_directories@.map_values(|d: Vec<u8>| d@)
}

fn join_dirs(dirs: &Vec<Vec<u8>>) -> (r: Vec<u8>)
    ensures
        r@ == listed_dirs(dirs@.map_values(|d: Vec<u8>| d@)),
{
    let ghost dirs_view = dirs@.map_values(|d: Vec<u8>| d@);
    let sep = bytes_of(", ");
    let mut r: Vec<u8> = Vec::new();
    let mut i: usize = 0;
    while i < dirs.len()
        invariant
            i <= dirs.len(),
            dirs_view == dirs@.map_values(|d: Vec<u8>| d@),
            sep@ == ", ".spec_bytes(),
            r@ == listed_dirs(dirs_view.subrange(0, i as int)),
        decreases dirs.len() - i,
    {
        if i > 0 {
            vec_extend(&mut r, &sep);
        }
        vec_extend(&mut r, &dirs[i]);
        proof {
            assert(dirs_view.subrange(0, i + 1 as int).drop_last() =~= dirs_view.subrange(
                0,
                i as int,
            ));
            assert(dirs_view.subrange(0, i + 1 as int).last() == dirs_view[i as int]);
            if i == 0 {
                assert(r@ =~= listed_dirs(dirs_view.subrange(0, 1)));
            } else {
                assert(r@ =~= listed_dirs(dirs_view.subrange(0, i + 1 as int)));
            }
        }
        i += 1;
    }
    proof {
        assert(dirs_view.subrange(0, dirs_view.len() as int) =~= dirs_view);
    }
    r
}

fn denial_message(prefix: &Vec<u8>, shown: &Vec<u8>, dirs: &Vec<Vec<u8>>) -> (r: Vec<u8>)
    ensures
        r@ == denial_text(prefix@, shown@, dirs@.map_values(|d: Vec<u8>| d@)),
{
    let mut r = prefix.clone();
    vec_extend(&mut r, shown);
    let open = bytes_of(" not in [");
    vec_extend(&mut r, &open);
    let listed = join_dirs(dirs);
    vec_extend(&mut r, &listed);
    let close = bytes_of("]");
    vec_extend(&mut r, &close);
    proof {
        assert(r@ =~= denial_text(prefix@, shown@, dirs@.map_values(|d: Vec<u8>| d@)));
    }
    r
}

/// The allowed directories in lexically normalized form.
fn normalized_roots(config: &Config) -> (r: Vec<Vec<u8>>)
    ensures
        r@.map_values(|d: Vec<u8>| d@) == norm_roots(roots_view(config)),
{
    let ghost dirs_view = roots_view(config);
    let mut r: Vec<Vec<u8>> = Vec::new();
    let mut i: usize = 0;
    while i < config.allowed_directories.len()
        invariant
            i <= config.allowed_directories.len(),
            dirs_view == roots_view(config),
            r@.map_values(|d: Vec<u8>| d@) =~= norm_roots(dirs_view).subrange(0, i as int),
        decreases config.allowed_directories.len() - i,
    {
        let v = normalize_path(&config.allowed_directories[i]);
        let ghost prev = r@;
        r.push(v);
        proof {
            assert(prev.map_values(|d: Vec<u8>| d@).len() == prev.len());
            assert(prev.len() == i);
            assert(r@ == prev.push(v));
            let m = r@.map_values(|d: Vec<u8>| d@);
            assert forall|j: int| 0 <= j < i + 1 implies m[j] == norm_roots(dirs_view)[j] by {
                if j < i {
                    assert(r@[j] == prev[j]);
                    assert(prev.map_values(|d: Vec<u8>| d@)[j] == norm_roots(dirs_view).subrange(
                        0,
                        i as int,
                    )[j]);
                } else {
                    assert(r@[j] == v);
                }
            }
            assert(m =~= norm_roots(dirs_view).subrange(0, i + 1 as int));
        }
        i += 1;
    }
    proof {
        assert(norm_roots(dirs_view).subrange(0, norm_roots(dirs_view).len() as int) =~= norm_roots(
            dirs_view,
        ));
    }
    r
}

/// The first validation stage: expand a home marker, make the requested path
/// absolute against `cwd`, normalize it lexically, and check it against the
/// normalized allowed roots. On success the absolute (not yet canonical) path
/// is returned for the caller to canonicalize.
pub fn validate_path_start(
    requested: &Vec<u8>,
    home: &Option<Vec<u8>>,
    cwd: &Vec<u8>,
    config: &Config,
) -> (r: Result<Vec<u8>, FileSystemMcpError>)
    ensures
        r is Ok <==> within_any(
            normalize_spec(absolute_of(requested@, home_view(home), cwd@)),
            norm_roots(roots_view(config)),
        ),
        r matches Ok(a) ==> a@ == absolute_of(requested@, home_view(home), cwd@),
        r matches Err(e) ==> e matches FileSystemMcpError::PermissionDenied { path } && path@
            == denial_text(
            "Access denied - path outside allowed directories: ".spec_bytes(),
            absolute_of(requested@, home_view(home), cwd@),
            roots_view(config),
        ),
{
    let expanded = expand_home(requested, home);
    let absolute = if is_absolute(&expanded) {
        expanded
    } else {
        join_path(cwd, &expanded)
    };
    let normalized = normalize_path(&absolute);
    let roots = normalized_roots(config);
    if is_path_within_allowed_directories(&normalized, &roots) {
        Ok(absolute)
    } else {
        let prefix = bytes_of("Access denied - path outside allowed directories: ");
        Err(FileSystemMcpError::PermissionDenied {
            path: denial_message(&prefix, &absolute, &config.allowed_directories),
        })
    }
}

/// The second stage when the target exists: `resolved` is the canonical path the
/// filesystem resolved (symlinks followed). It is accepted exactly when it
/// still lies within an allowed root, which defeats symlinks that point
/// outside the sandbox.
pub fn validate_path_resolved(resolved: &Vec<u8>, config: &Config) -> (r: Result<
    Vec<u8>,
    FileSystemMcpError,
>)
    ensures
        r is Ok <==> within_any(normalize_spec(resolved@), norm_roots(roots_view(config))),
        r matches Ok(a) ==> a@ == resolved@,
        r matches Err(e) ==> e matches FileSystemMcpError::PermissionDenied { path } && path@
            == denial_text(
            "Access denied - symlink target outside allowed directories: ".spec_bytes(),
            resolved@,
            roots_view(config),
        ),
{
    let normalized = normalize_path(resolved);
    let roots = normalized_roots(config);
    if is_path_within_allowed_directories(&normalized, &roots) {
        Ok(resolved.clone())
    } else {
        let prefix = bytes_of("Access denied - symlink target outside allowed directories: ");
        Err(FileSystemMcpError::PermissionDenied {
            path: denial_message(&prefix, resolved, &config.allowed_directories),
        })
    }
}

/// When the target does not exist, the parent directory is checked instead.
/// This yields the parent to canonicalize, or the error for a path with no
/// parent.
pub fn validate_parent_for_missing(absolute: &Vec<u8>) -> (r: Result<Vec<u8>, FileSystemMcpError>)
    ensures
        r is Ok <==> parent_of(absolute@) is Some,
        r matches Ok(p) ==> parent_of(absolute@) == Some(p@),
        r matches Err(e) ==> e matches FileSystemMcpError::ValidationError {
            message,
            path,
            operation,
            data,
        } && message@ == "Path has no parent directory".spec_bytes() && path@ == absolute@
            && operation@ == "validate_path".spec_bytes() && data@.len() == 1 && data@[0].0@
            == "error".spec_bytes() && data@[0].1@ == "Path has no parent directory".spec_bytes(),
{
    match parent_path(absolute) {
        Some(p) => Ok(p),
        None => {
            let mut data: Vec<(Vec<u8>, Vec<u8>)> = Vec::new();
            data.push((bytes_of("error"), bytes_of("Path has no parent directory")));
            Err(FileSystemMcpError::ValidationError {
                message: bytes_of("Path has no parent directory"),
                path: absolute.clone(),
                operation: bytes_of("validate_path"),
                data,
            })
        }
    }
}

/// The final stage for a target that does not exist: `real_parent` is the
/// canonical form of the parent directory when the filesystem could resolve
/// it, `None` otherwise; `parent` is the parent as handed out by
/// `validate_parent_for_missing`. The original absolute path is accepted
/// exactly when the canonical parent lies within an allowed root.
pub fn validate_path_missing(
    absolute: &Vec<u8>,
    parent: &Vec<u8>,
    real_parent: &Option<Vec<u8>>,
    config: &Config,
) -> (r: Result<Vec<u8>, FileSystemMcpError>)
    ensures
        r is Ok <==> (real_parent matches Some(rp) && within_any(
            normalize_spec(rp@),
            norm_roots(roots_view(config)),
        )),
        r matches Ok(a) ==> a@ == absolute@,
        real_parent matches Some(rp) ==> (r matches Err(e) ==> e
            matches FileSystemMcpError::PermissionDenied { path } && path@ == denial_text(
            "Access denied - parent directory outside allowed directories: ".spec_bytes(),
            rp@,
            roots_view(config),
        )),
        real_parent is None ==> (r matches Err(e) ==> e
            matches FileSystemMcpError::PathNotFound { path } && path@
            == "Parent directory does not exist: ".spec_bytes() + parent@),
{
    match real_parent {
        Some(rp) => {
            let normalized = normalize_path(rp);
            let roots = normalized_roots(config);
            if is_path_within_allowed_directories(&normalized, &roots) {
                Ok(absolute.clone())
            } else {
                let prefix = bytes_of(
                    "Access denied - parent directory outside allowed directories: ",
                );
                Err(FileSystemMcpError::PermissionDenied {
                    path: denial_message(&prefix, rp, &config.allowed_directories),
                })
            }
        }
        None => {
            let mut msg = bytes_of("Parent directory does not exist: ");
            vec_extend(&mut msg, parent);
            Err(FileSystemMcpError::PathNotFound { path: msg })
        }
    }
}

/// The error for a canonicalization failure that is neither success nor "not
/// found": access to the path is denied; `detail` is the failure text the
/// filesystem reported.
pub fn validate_path_other_error(absolute: &Vec<u8>, detail: &Vec<u8>) -> (r: FileSystemMcpError)
    ensures
        r matches FileSystemMcpError::PermissionDenied { path } && path@ == "Cannot access path ".spec_bytes()
            + absolute@ + ": ".spec_bytes() + detail@,
{
    let mut msg = bytes_of("Cannot access path ");
    vec_extend(&mut msg, absolute);
    let sep = bytes_of(": ");
    vec_extend(&mut msg, &sep);
    vec_extend(&mut msg, detail);
    FileSystemMcpError::PermissionDenied { path: msg }
}

} // verus!
