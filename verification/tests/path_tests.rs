use fs_mcp::errors::FileSystemMcpError;
use fs_mcp::path_norm::{
    expand_home, is_path_within_allowed_directories, join_path, normalize_path, parent_path,
};
use fs_mcp::validation::{
    validate_parent_for_missing, validate_path_missing, validate_path_resolved,
    validate_path_start, Config,
};

fn b(s: &str) -> Vec<u8> {
    s.as_bytes().to_vec()
}

fn norm(s: &str) -> String {
    String::from_utf8(normalize_path(&b(s))).unwrap()
}

#[test]
fn test_normalize_path() {
    // simple path normalization
    assert_eq!(norm("simple/path"), "simple/path");
    // current-directory components
    assert_eq!(norm("./current/./directory/."), "current/directory");
    // parent-directory components
    assert_eq!(norm("parent/../child"), "child");
    // complex path with mixed components: a and e survive, the rest cancels
    assert_eq!(norm("a/./b/../c/d/../../e"), "a/e");
    // a path that climbs beyond its top normalizes to nothing
    assert_eq!(norm("../../../.."), "");
    // absolute path normalization
    assert_eq!(norm("/absolute/./path/../normalized"), "/absolute/normalized");
}

#[test]
fn test_normalize_path_edge_cases() {
    assert_eq!(norm(""), "");
    assert_eq!(norm("."), "");
    assert_eq!(norm(".."), "");
    assert_eq!(norm("./././."), "");
    assert_eq!(norm("../../.."), "");
    assert_eq!(norm("a/b/../.."), "");
    // trailing separators are dropped
    let r = norm("path/to/dir/");
    assert!(r == "path/to/dir" || r == "path/to/dir/");
}

#[test]
fn test_normalize_path_complex() {
    assert_eq!(norm("a/b/c/../../d/./e/../f"), "a/d/f");
    assert_eq!(norm("base/create/../remove/./keep"), "base/remove/keep");
    assert_eq!(norm("./a/../b/./c/../d"), "b/d");
    assert_eq!(norm("a/../b/../c/../../d"), "d");
}

#[test]
fn test_expand_home_with_known_home() {
    let home = Some(b("/home/user"));
    assert_eq!(expand_home(&b("~"), &home), b("/home/user"));
    assert_eq!(expand_home(&b("~/documents"), &home), b("/home/user/documents"));
    assert_eq!(expand_home(&b("/absolute/path"), &home), b("/absolute/path"));
    assert_eq!(expand_home(&b("relative/path"), &home), b("relative/path"));
    assert_eq!(expand_home(&b("~/x"), &None), b("~/x"));
    assert_eq!(expand_home(&b("/path/with/~tilde/inside"), &home), b("/path/with/~tilde/inside"));
}

#[test]
fn test_join_and_parent() {
    assert_eq!(join_path(&b("/base"), &b("rel/x")), b("/base/rel/x"));
    assert_eq!(join_path(&b("/base/"), &b("rel")), b("/base/rel"));
    assert_eq!(parent_path(&b("/a/b/c")), Some(b("/a/b")));
    assert_eq!(parent_path(&b("/a")), Some(b("/")));
    assert_eq!(parent_path(&b("/")), None);
    assert_eq!(parent_path(&b("")), None);
    assert_eq!(parent_path(&b("/sandbox/sub/../new.txt")), Some(b("/sandbox/sub/..")));
}

#[test]
fn test_is_path_within_allowed_directories() {
    let dirs = vec![b("/safe"), b("/other/root")];
    assert!(is_path_within_allowed_directories(&b("/safe/file.txt"), &dirs));
    assert!(is_path_within_allowed_directories(&b("/safe"), &dirs));
    assert!(is_path_within_allowed_directories(&b("/other/root/deep/x"), &dirs));
    // component-wise, not textual, prefixing
    assert!(!is_path_within_allowed_directories(&b("/safety/file.txt"), &dirs));
    assert!(!is_path_within_allowed_directories(&b("/etc/passwd"), &dirs));
    assert!(!is_path_within_allowed_directories(&b("/safe/x"), &Vec::new()));
}

fn sandbox_config() -> Config {
    Config { allowed_directories: vec![b("/sandbox")] }
}

#[test]
fn test_validate_path_start_accepts_inside() {
    // a path under an allowed root passes the lexical pre-check
    let r = validate_path_start(&b("/sandbox/a.txt"), &None, &b("/"), &sandbox_config());
    assert_eq!(r.unwrap(), b("/sandbox/a.txt"));
    // a relative path is joined onto the working directory first
    let r = validate_path_start(&b("a.txt"), &None, &b("/sandbox"), &sandbox_config());
    assert_eq!(r.unwrap(), b("/sandbox/a.txt"));
}

#[test]
fn test_validate_path_start_rejects_traversal() {
    // the end-to-end traversal case: /sandbox/../../etc/passwd is denied
    let r = validate_path_start(&b("/sandbox/../../etc/passwd"), &None, &b("/"), &sandbox_config());
    match r {
        Err(FileSystemMcpError::PermissionDenied { path }) => {
            let text = String::from_utf8(path).unwrap();
            assert!(text.contains("Access denied - path outside allowed directories:"));
            assert!(text.contains("/sandbox/../../etc/passwd"));
            assert!(text.contains("not in [/sandbox]"));
        }
        _ => panic!("expected PermissionDenied"),
    }
}

#[test]
fn test_validate_path_resolved_symlink_escape() {
    // a symlink physically inside the root but resolving outside it is denied
    let r = validate_path_resolved(&b("/outside/secret.txt"), &sandbox_config());
    match r {
        Err(FileSystemMcpError::PermissionDenied { path }) => {
            let text = String::from_utf8(path).unwrap();
            assert!(text.contains("Access denied - symlink target outside allowed directories:"));
        }
        _ => panic!("expected PermissionDenied"),
    }
    // a canonical path still inside is returned unchanged
    let r = validate_path_resolved(&b("/sandbox/real.txt"), &sandbox_config());
    assert_eq!(r.unwrap(), b("/sandbox/real.txt"));
}

#[test]
fn test_validate_path_missing_cases() {
    let cfg = sandbox_config();
    let absolute = b("/sandbox/new/file.txt");
    let parent = validate_parent_for_missing(&absolute).unwrap();
    assert_eq!(parent, b("/sandbox/new"));
    // parent canonicalizes inside the sandbox: the new path is allowed
    let r = validate_path_missing(&absolute, &parent, &Some(b("/sandbox/new")), &cfg);
    assert_eq!(r.unwrap(), absolute);
    // parent resolves outside: denied
    let r = validate_path_missing(&absolute, &parent, &Some(b("/elsewhere")), &cfg);
    assert!(matches!(r, Err(FileSystemMcpError::PermissionDenied { .. })));
    // parent does not exist: not found
    let r = validate_path_missing(&absolute, &parent, &None, &cfg);
    match r {
        Err(FileSystemMcpError::PathNotFound { path }) => {
            assert_eq!(
                String::from_utf8(path).unwrap(),
                "Parent directory does not exist: /sandbox/new"
            );
        }
        _ => panic!("expected PathNotFound"),
    }
    // a path with no parent at all is a validation error
    assert!(matches!(
        validate_parent_for_missing(&b("/")),
        Err(FileSystemMcpError::ValidationError { .. })
    ));
}

#[test]
fn test_validate_path_home_expansion() {
    let cfg = Config { allowed_directories: vec![b("/home/user/safe")] };
    let r = validate_path_start(&b("~/safe/doc.txt"), &Some(b("/home/user")), &b("/"), &cfg);
    assert_eq!(r.unwrap(), b("/home/user/safe/doc.txt"));
}
