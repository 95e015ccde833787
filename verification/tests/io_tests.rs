use fs_mcp::edits::apply_file_edits;
use fs_mcp::errors::FileSystemMcpError;
use fs_mcp::requests::EditOperation;
use fs_mcp::responses::WriteFileResponse;
use fs_mcp::validation::{
    validate_parent_for_missing, validate_path_missing, validate_path_other_error,
    validate_path_resolved, validate_path_start, Config,
};
use fs_mcp::writer::{plan_write, write_file_response, ExclusiveCreate, WritePlan};

fn b(s: &str) -> Vec<u8> {
    s.as_bytes().to_vec()
}

fn to_str(v: &[u8]) -> String {
    String::from_utf8(v.to_vec()).unwrap()
}

fn path_bytes(p: &std::path::Path) -> Vec<u8> {
    p.to_string_lossy().as_bytes().to_vec()
}

fn rt() -> tokio::runtime::Runtime {
    tokio::runtime::Builder::new_multi_thread().enable_all().build().unwrap()
}

async fn validate_full(requested: &[u8], cfg: &Config) -> Result<Vec<u8>, FileSystemMcpError> {
    let cwd = b("/");
    let absolute = validate_path_start(&requested.to_vec(), &None, &cwd, cfg)?;
    match tokio::fs::canonicalize(to_str(&absolute)).await {
        Ok(real) => validate_path_resolved(&path_bytes(&real), cfg),
        Err(e) if e.kind() == std::io::ErrorKind::NotFound => {
            let parent = validate_parent_for_missing(&absolute)?;
            match tokio::fs::canonicalize(to_str(&parent)).await {
                Ok(rp) => validate_path_missing(&absolute, &parent, &Some(path_bytes(&rp)), cfg),
                Err(_) => validate_path_missing(&absolute, &parent, &None, cfg),
            }
        }
        Err(e) => Err(validate_path_other_error(&absolute, &e.to_string().into_bytes())),
    }
}

/// The atomic-write protocol, with the library deciding each step.
async fn write_file(path: &[u8], content: &[u8]) -> Result<WriteFileResponse, FileSystemMcpError> {
    let p = to_str(path);
    let existed = tokio::fs::metadata(&p).await.is_ok();
    if let Some(parent) = fs_mcp::path_norm::parent_path(&path.to_vec()) {
        let ps = to_str(&parent);
        if !ps.is_empty() && tokio::fs::metadata(&ps).await.is_err() {
            let _ = tokio::fs::create_dir_all(&ps).await;
        }
    }
    let outcome = match tokio::fs::OpenOptions::new().write(true).create_new(true).open(&p).await {
        Ok(f) => {
            drop(f);
            ExclusiveCreate::Created
        }
        Err(e) if e.kind() == std::io::ErrorKind::AlreadyExists => ExclusiveCreate::AlreadyExists,
        Err(e) => ExclusiveCreate::Failed { detail: e.to_string().into_bytes() },
    };
    let suffix = std::time::SystemTime::now()
        .duration_since(std::time::UNIX_EPOCH)
        .unwrap_or_default()
        .as_nanos();
    match plan_write(&path.to_vec(), &outcome, suffix) {
        WritePlan::WriteDirect => {
            tokio::fs::write(&p, content).await.unwrap();
            Ok(write_file_response(&path.to_vec(), content.len() as u64, existed))
        }
        WritePlan::WriteViaTemp { temp_path } => {
            let t = to_str(&temp_path);
            tokio::fs::write(&t, content).await.unwrap();
            tokio::fs::rename(&t, &p).await.unwrap();
            Ok(write_file_response(&path.to_vec(), content.len() as u64, existed))
        }
        WritePlan::Fail { error } => Err(error),
    }
}

#[test]
fn test_write_file_idempotent_content() {
    // writing identical content twice: created=true then created=false, and
    // the file holds the content both times
    rt().block_on(async {
        let dir = tempfile::TempDir::new().unwrap();
        let target = path_bytes(&dir.path().join("a.txt"));
        let first = write_file(&target, b"same content").await.unwrap();
        assert!(first.created);
        assert_eq!(tokio::fs::read(to_str(&target)).await.unwrap(), b"same content".to_vec());
        let second = write_file(&target, b"same content").await.unwrap();
        assert!(!second.created);
        assert_eq!(tokio::fs::read(to_str(&target)).await.unwrap(), b"same content".to_vec());
    });
}

#[test]
fn test_concurrent_writes_distinct_paths() {
    // concurrent writes to distinct paths each land exactly their own bytes
    rt().block_on(async {
        let dir = tempfile::TempDir::new().unwrap();
        let mut handles = Vec::new();
        for i in 0..8u32 {
            let target = path_bytes(&dir.path().join(format!("f{}.txt", i)));
            handles.push(tokio::spawn(async move {
                let content = format!("content of file number {}", i);
                write_file(&target, content.as_bytes()).await.unwrap();
                (target, content)
            }));
        }
        for h in handles {
            let (target, content) = h.await.unwrap();
            let read = tokio::fs::read(to_str(&target)).await.unwrap();
            assert_eq!(read, content.as_bytes().to_vec());
        }
    });
}

#[test]
fn test_write_replaces_atomically_via_rename() {
    rt().block_on(async {
        let dir = tempfile::TempDir::new().unwrap();
        let target = path_bytes(&dir.path().join("x.txt"));
        write_file(&target, b"old").await.unwrap();
        let r = write_file(&target, b"new bytes").await.unwrap();
        assert!(!r.created);
        assert_eq!(r.size, Some(9));
        assert_eq!(tokio::fs::read(to_str(&target)).await.unwrap(), b"new bytes".to_vec());
        // the temp file is gone
        let mut entries = tokio::fs::read_dir(dir.path()).await.unwrap();
        let mut count = 0;
        while let Some(e) = entries.next_entry().await.unwrap() {
            count += 1;
            assert_eq!(e.file_name().to_string_lossy(), "x.txt");
        }
        assert_eq!(count, 1);
    });
}

#[test]
fn test_end_to_end_sandbox() {
    rt().block_on(async {
        let dir = tempfile::TempDir::new().unwrap();
        let root = tokio::fs::canonicalize(dir.path()).await.unwrap();
        let cfg = Config { allowed_directories: vec![path_bytes(&root)] };
        let requested = path_bytes(&root.join("a.txt"));

        // write "hello": a new file of five bytes
        let valid = validate_full(&requested, &cfg).await.unwrap();
        let r = write_file(&valid, b"hello").await.unwrap();
        assert!(r.created);
        assert_eq!(r.size, Some(5));

        // overwrite with "hi": not created, two bytes, content replaced
        let valid = validate_full(&requested, &cfg).await.unwrap();
        let r = write_file(&valid, b"hi").await.unwrap();
        assert!(!r.created);
        assert_eq!(r.size, Some(2));
        assert_eq!(tokio::fs::read(to_str(&valid)).await.unwrap(), b"hi".to_vec());

        // apply the edit hi -> bye and commit
        let content = tokio::fs::read(to_str(&valid)).await.unwrap();
        let edits = vec![EditOperation::new(b("hi"), b("bye"))];
        let new_content = apply_file_edits(&content, &edits, &valid).unwrap();
        write_file(&valid, &new_content).await.unwrap();
        assert_eq!(tokio::fs::read(to_str(&valid)).await.unwrap(), b"bye".to_vec());

        // traversal out of the sandbox is denied
        let evil = [path_bytes(&root), b("/../../etc/passwd")].concat();
        match validate_full(&evil, &cfg).await {
            Err(FileSystemMcpError::PermissionDenied { .. }) => {}
            _ => panic!("expected PermissionDenied"),
        }
    });
}

#[test]
fn test_validate_accepts_existing_and_canonicalizes() {
    // a path under an allowed root validates to its canonical form
    rt().block_on(async {
        let dir = tempfile::TempDir::new().unwrap();
        let root = tokio::fs::canonicalize(dir.path()).await.unwrap();
        let cfg = Config { allowed_directories: vec![path_bytes(&root)] };
        tokio::fs::write(root.join("f.txt"), "x").await.unwrap();
        // a dot segment in the request disappears in the canonical result
        let requested = path_bytes(&root.join("./f.txt"));
        let valid = validate_full(&requested, &cfg).await.unwrap();
        assert_eq!(valid, path_bytes(&root.join("f.txt")));
    });
}

#[test]
fn test_validate_symlink_escape_denied() {
    // a symlink inside the sandbox pointing outside it is denied
    rt().block_on(async {
        let sandbox = tempfile::TempDir::new().unwrap();
        let outside = tempfile::TempDir::new().unwrap();
        let root = tokio::fs::canonicalize(sandbox.path()).await.unwrap();
        let cfg = Config { allowed_directories: vec![path_bytes(&root)] };
        let secret = outside.path().join("secret.txt");
        tokio::fs::write(&secret, "s").await.unwrap();
        let link = root.join("link.txt");
        tokio::fs::symlink(&secret, &link).await.unwrap();
        match validate_full(&path_bytes(&link), &cfg).await {
            Err(FileSystemMcpError::PermissionDenied { path }) => {
                let text = String::from_utf8(path).unwrap();
                assert!(text.contains("symlink target outside allowed directories"));
            }
            _ => panic!("expected PermissionDenied"),
        }
    });
}

#[test]
fn test_validate_missing_parent_not_found() {
    rt().block_on(async {
        let dir = tempfile::TempDir::new().unwrap();
        let root = tokio::fs::canonicalize(dir.path()).await.unwrap();
        let cfg = Config { allowed_directories: vec![path_bytes(&root)] };
        let requested = path_bytes(&root.join("no_such_dir/file.txt"));
        match validate_full(&requested, &cfg).await {
            Err(FileSystemMcpError::PathNotFound { path }) => {
                let text = String::from_utf8(path).unwrap();
                assert!(text.starts_with("Parent directory does not exist: "));
            }
            _ => panic!("expected PathNotFound"),
        }
    });
}
