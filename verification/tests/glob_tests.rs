use fs_mcp::errors::FileSystemMcpError;
use fs_mcp::walker::{directory_tree, search_files, RawNode, TreeEntry};

fn b(s: &str) -> Vec<u8> {
    s.as_bytes().to_vec()
}

fn file(name: &str) -> RawNode {
    RawNode { name: b(name), is_dir: false, children: Vec::new() }
}

fn dir(name: &str, children: Vec<RawNode>) -> RawNode {
    RawNode { name: b(name), is_dir: true, children }
}

fn names(tree: &[TreeEntry]) -> Vec<String> {
    tree.iter().map(|e| String::from_utf8(e.name.clone()).unwrap()).collect()
}

fn sample_tree() -> Vec<RawNode> {
    vec![
        file("a.log"),
        file("keep.txt"),
        dir("sub", vec![file("b.log"), file("c.rs")]),
        dir("build", vec![file("x.txt")]),
    ]
}

#[test]
fn test_directory_tree_excludes_logs_at_every_depth() {
    let tree = directory_tree(&sample_tree(), &vec![b("*.log")]);
    // a.log is gone at the top, b.log is gone inside sub, siblings stay
    assert_eq!(names(&tree), vec!["keep.txt", "sub", "build"]);
    let sub = tree[1].children.as_ref().unwrap();
    assert_eq!(names(sub), vec!["c.rs"]);
    let build = tree[2].children.as_ref().unwrap();
    assert_eq!(names(build), vec!["x.txt"]);
}

#[test]
fn test_directory_tree_excludes_named_subtree() {
    let tree = directory_tree(&sample_tree(), &vec![b("build")]);
    // the directory named build vanishes entirely, nothing of it reported
    assert_eq!(names(&tree), vec!["a.log", "keep.txt", "sub"]);
}

#[test]
fn test_directory_tree_nested_pattern_registration() {
    // "logs/b.txt" does not match the deep relative path "x/logs/b.txt" as
    // given, and no bare name matches either: only the registered
    // "**/logs/b.txt" form prunes it
    let nodes = vec![dir("x", vec![dir("logs", vec![file("b.txt"), file("keep.txt")])])];
    let tree = directory_tree(&nodes, &vec![b("logs/b.txt")]);
    let x = tree[0].children.as_ref().unwrap();
    let logs = x[0].children.as_ref().unwrap();
    assert_eq!(names(logs), vec!["keep.txt"]);
}

#[test]
fn test_directory_tree_entry_types() {
    let tree = directory_tree(&sample_tree(), &Vec::new());
    assert_eq!(tree[0].entry_type, b("[FILE]"));
    assert!(tree[0].children.is_none());
    assert_eq!(tree[2].entry_type, b("[DIR]"));
    assert!(tree[2].children.is_some());
}

#[test]
fn test_directory_tree_invalid_pattern_skipped() {
    // a pattern that does not compile excludes nothing
    let tree = directory_tree(&sample_tree(), &vec![b("[")]);
    assert_eq!(tree.len(), 4);
}

fn search_nodes() -> Vec<RawNode> {
    vec![
        file("a.rs"),
        dir("sub", vec![file("b.rs"), file("c.txt")]),
        dir("target", vec![file("d.rs")]),
    ]
}

#[test]
fn test_search_files_finds_all_rs_recursively() {
    let r = search_files(&search_nodes(), &b("/r"), &b("*.rs"), &Vec::new()).unwrap();
    assert_eq!(r, vec![b("/r/a.rs"), b("/r/sub/b.rs"), b("/r/target/d.rs")]);
}

#[test]
fn test_search_files_applies_excludes() {
    let r = search_files(&search_nodes(), &b("/r"), &b("*.rs"), &vec![b("target/*")]).unwrap();
    assert_eq!(r, vec![b("/r/a.rs"), b("/r/sub/b.rs")]);
}

#[test]
fn test_search_excluded_directory_prunes_subtree() {
    // an excluded directory is not descended into: nothing under target is
    // reported even though the pattern would match entries inside it
    let r = search_files(&search_nodes(), &b("/r"), &b("*.rs"), &vec![b("target")]).unwrap();
    assert_eq!(r, vec![b("/r/a.rs"), b("/r/sub/b.rs")]);
}

#[test]
fn test_search_files_invalid_pattern() {
    match search_files(&search_nodes(), &b("/r"), &b("["), &Vec::new()) {
        Err(FileSystemMcpError::ValidationError { message, path, operation, data }) => {
            // the message carries the matcher's own rejection text
            let message = String::from_utf8(message).unwrap();
            assert!(message.starts_with("Invalid search pattern: "));
            assert!(message.len() > "Invalid search pattern: ".len());
            assert_eq!(path, b("/r"));
            assert_eq!(operation, b("search_files"));
            assert_eq!(data[0].1, b("Invalid glob pattern"));
            assert_eq!(data[1].0, b("pattern"));
            assert_eq!(data[1].1, b("["));
        }
        _ => panic!("expected ValidationError"),
    }
}
