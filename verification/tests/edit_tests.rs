use fs_mcp::edits::{apply_edit, apply_file_edits, normalize_line_endings, trim};
use fs_mcp::errors::FileSystemMcpError;
use fs_mcp::requests::{EditFileRequest, EditOperation};
use fs_mcp::responses::WriteFileResponse;

fn b(s: &str) -> Vec<u8> {
    s.as_bytes().to_vec()
}

fn s(v: Vec<u8>) -> String {
    String::from_utf8(v).unwrap()
}

fn edit(old: &str, new: &str) -> EditOperation {
    EditOperation::new(b(old), b(new))
}

#[test]
fn test_normalize_line_endings() {
    assert_eq!(normalize_line_endings(&b("a\r\nb\r\nc")), b("a\nb\nc"));
    assert_eq!(normalize_line_endings(&b("a\nb")), b("a\nb"));
    assert_eq!(normalize_line_endings(&b("\r\n")), b("\n"));
    assert_eq!(normalize_line_endings(&b("a\rb")), b("a\rb"));
}

#[test]
fn test_trim() {
    assert_eq!(trim(&b("  x  ")), b("x"));
    assert_eq!(trim(&b("\t\n")), b(""));
    assert_eq!(trim(&b("inner space s")), b("inner space s"));
}

#[test]
fn test_exact_replace_first_occurrence() {
    let r = apply_edit(&b("one two one"), &b("one"), &b("three")).unwrap();
    assert_eq!(s(r), "three two one");
}

#[test]
fn test_edits_apply_in_array_order() {
    // content "A" with edits [A->B, B->C] produces "C"
    let edits = vec![edit("A", "B"), edit("B", "C")];
    let r = apply_file_edits(&b("A"), &edits, &b("/f")).unwrap();
    assert_eq!(s(r), "C");
    // reordered, the first edit finds no "B" and the whole request fails
    let edits = vec![edit("B", "C"), edit("A", "B")];
    match apply_file_edits(&b("A"), &edits, &b("/f")) {
        Err(FileSystemMcpError::ValidationError { message, path, operation, data }) => {
            assert_eq!(s(message), "Could not find exact match for edit");
            assert_eq!(s(path), "/f");
            assert_eq!(s(operation), "apply_edit");
            assert_eq!(data.len(), 3);
            assert_eq!(s(data[0].0.clone()), "error");
            assert_eq!(s(data[0].1.clone()), "No matching text found");
            assert_eq!(s(data[1].0.clone()), "old_text");
            assert_eq!(s(data[1].1.clone()), "B");
            assert_eq!(s(data[2].0.clone()), "edit_index");
            assert_eq!(s(data[2].1.clone()), "0");
        }
        _ => panic!("expected ValidationError"),
    }
}

#[test]
fn test_failing_edit_index_counts_applied_edits() {
    let edits = vec![edit("A", "B"), edit("missing", "x")];
    match apply_file_edits(&b("A"), &edits, &b("/f")) {
        Err(FileSystemMcpError::ValidationError { data, .. }) => {
            assert_eq!(s(data[2].1.clone()), "1");
        }
        _ => panic!("expected ValidationError"),
    }
}

#[test]
fn test_exact_preferred_over_fuzzy() {
    // both passes could apply: "  foo" occurs verbatim on the second line,
    // while a fuzzy whitespace-insensitive match would hit the first line
    let content = b("foo\n  foo");
    let r = apply_edit(&content, &b("  foo"), &b("bar")).unwrap();
    assert_eq!(s(r), "foo\nbar");
}

#[test]
fn test_fuzzy_match_preserves_indentation() {
    // the edit's text is the file's line re-indented (with a tab, so the
    // exact pass cannot fire); the match keeps the original first-line
    // indentation
    let content = b("    original line\nrest");
    let r = apply_edit(&content, &b("\toriginal line"), &b("replacement\n  sub")).unwrap();
    assert_eq!(s(r), "    replacement\n      sub\nrest");
}

#[test]
fn test_fuzzy_relative_indentation_clamped() {
    // the replacement's base indentation comes from its first non-blank
    // line; lines indented less than the base clamp to zero
    let content = b("  target\n");
    let r = apply_edit(&content, &b("   target"), &b("    a\n      b\n  c\n\nd")).unwrap();
    assert_eq!(s(r), "  a\n    b\n  c\n\n  d\n");
}

#[test]
fn test_fuzzy_multiline_window() {
    let content = b("keep\n  one\n  two\nkeep");
    let r = apply_edit(&content, &b("one\ntwo"), &b("merged")).unwrap();
    assert_eq!(s(r), "keep\n  merged\nkeep");
}

#[test]
fn test_no_match_returns_none() {
    assert!(apply_edit(&b("abc"), &b("zzz"), &b("x")).is_none());
}

#[test]
fn test_edit_crlf_normalization() {
    let edits = vec![edit("a\r\nb", "c")];
    let r = apply_file_edits(&b("a\r\nb"), &edits, &b("/f")).unwrap();
    assert_eq!(s(r), "c");
}

#[test]
fn test_edit_operation_validate() {
    assert!(edit("x", "y").validate().is_ok());
    assert!(edit("x", "").validate().is_ok());
    match edit("", "y").validate() {
        Err(FileSystemMcpError::ValidationError { data, .. }) => {
            assert_eq!(s(data[0].1.clone()), "old_text cannot be empty");
        }
        _ => panic!("expected ValidationError"),
    }
    match edit("  \t ", "y").validate() {
        Err(FileSystemMcpError::ValidationError { data, .. }) => {
            assert_eq!(s(data[0].1.clone()), "old_text cannot contain only whitespace");
        }
        _ => panic!("expected ValidationError"),
    }
}

#[test]
fn test_edit_file_request_validate() {
    let ok = EditFileRequest::new(b("/f"), vec![edit("a", "b")], false);
    assert!(ok.validate().is_ok());
    let empty_edits = EditFileRequest::new(b("/f"), Vec::new(), false);
    assert!(matches!(
        empty_edits.validate(),
        Err(FileSystemMcpError::ValidationError { .. })
    ));
    let blank_path = EditFileRequest::new(b("  "), vec![edit("a", "b")], false);
    assert!(blank_path.validate().is_err());
    let bad_edit = EditFileRequest::new(b("/f"), vec![edit("a", "b"), edit(" ", "x")], true);
    match bad_edit.validate() {
        Err(FileSystemMcpError::ValidationError { data, .. }) => {
            // the failing edit's position is appended to the context
            let last = data.last().unwrap();
            assert_eq!(s(last.0.clone()), "edit_index");
            assert_eq!(s(last.1.clone()), "1");
        }
        _ => panic!("expected ValidationError"),
    }
}

#[test]
fn test_dry_run_preview_response() {
    let r = WriteFileResponse::dry_run_preview(&b("/f"), 2, 17);
    assert_eq!(s(r.message), "Dry run completed. 2 edits would be applied.");
    assert_eq!(r.path, b("/f"));
    assert_eq!(r.size, Some(17));
    assert!(!r.created);
}

#[test]
fn test_empty_old_text_inserts_at_start() {
    // an empty search text matches at the very beginning
    let r = apply_edit(&b("abc"), &b(""), &b("X")).unwrap();
    assert_eq!(s(r), "Xabc");
}
