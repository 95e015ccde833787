use fs_mcp::errors::FileSystemMcpError;
use fs_mcp::listing::{
    file_info_response, format_detailed_listing, format_size, get_file_icon, json_escape,
    list_directory, list_directory_with_sizes, metadata_error, plain_listing_lines,
    plain_listing_response, read_directory_entry, sort_directory_entries, sort_lines,
    DirectoryEntry, ListedEntry,
};
use fs_mcp::requests::SortBy;

fn b(s: &str) -> Vec<u8> {
    s.as_bytes().to_vec()
}

fn s(v: Vec<u8>) -> String {
    String::from_utf8(v).unwrap()
}

fn de(name: &str, size: u64, is_dir: bool, modified: Option<u64>) -> DirectoryEntry {
    read_directory_entry(b(name), is_dir, false, size, modified)
}

#[test]
fn test_read_directory_entry_classification() {
    let e = de("main.rs", 10, false, None);
    assert_eq!(e.file_type, b("rs [FILE]"));
    let e = de("NOTES.TXT", 10, false, None);
    assert_eq!(e.file_type, b("txt [FILE]"));
    let e = de("no_extension", 10, false, None);
    assert_eq!(e.file_type, b("[FILE]"));
    let e = de(".hidden", 10, false, None);
    assert_eq!(e.file_type, b("[FILE]"));
    let e = de("dir", 7, true, None);
    assert_eq!(e.file_type, b("[DIR]"));
    assert_eq!(e.size, 0);
    let link = read_directory_entry(b("l"), false, true, 3, None);
    assert_eq!(link.file_type, b("[SYMLINK]"));
}

#[test]
fn test_get_file_icon() {
    assert_eq!(s(get_file_icon(&b("[DIR]"))), "\u{1F4C1}");
    assert_eq!(s(get_file_icon(&b("[SYMLINK]"))), "\u{1F517}");
    assert_eq!(s(get_file_icon(&b("rs [FILE]"))), "\u{1F980}");
    assert_eq!(s(get_file_icon(&b("json [FILE]"))), "\u{1F4CB}");
    assert_eq!(s(get_file_icon(&b("weird [FILE]"))), "\u{1F4C4}");
}

#[test]
fn test_format_size() {
    assert_eq!(s(format_size(0)), "0 B");
    assert_eq!(s(format_size(512)), "512 B");
    assert_eq!(s(format_size(1023)), "1023 B");
    assert_eq!(s(format_size(1024)), "1.0 KB");
    assert_eq!(s(format_size(1536)), "1.5 KB");
    // a tie rounds to even: 1280 bytes is exactly 1.25 KB
    assert_eq!(s(format_size(1280)), "1.2 KB");
    assert_eq!(s(format_size(1280 + 512)), "1.8 KB");
    assert_eq!(s(format_size(1024 * 1024)), "1.0 MB");
    assert_eq!(s(format_size(5 * 1024 * 1024 * 1024)), "5.0 GB");
    assert_eq!(s(format_size(1024u64 * 1024 * 1024 * 1024)), "1.0 TB");
}

#[test]
fn test_sort_directory_entries_by_name() {
    let mut entries = vec![de("b", 1, false, None), de("a", 2, false, None), de("c", 3, true, None)];
    sort_directory_entries(&mut entries, &SortBy::Name);
    let names: Vec<String> = entries.iter().map(|e| s(e.name.clone())).collect();
    assert_eq!(names, vec!["a", "b", "c"]);
}

#[test]
fn test_sort_directory_entries_by_size_largest_first() {
    let mut entries = vec![de("a", 5, false, None), de("b", 50, false, None), de("c", 1, false, None)];
    sort_directory_entries(&mut entries, &SortBy::Size);
    let sizes: Vec<u64> = entries.iter().map(|e| e.size).collect();
    assert_eq!(sizes, vec![50, 5, 1]);
}

#[test]
fn test_sort_directory_entries_by_modified_newest_first() {
    let mut entries = vec![
        de("old", 1, false, Some(100)),
        de("unknown", 1, false, None),
        de("new", 1, false, Some(900)),
    ];
    sort_directory_entries(&mut entries, &SortBy::Modified);
    let names: Vec<String> = entries.iter().map(|e| s(e.name.clone())).collect();
    assert_eq!(names, vec!["new", "old", "unknown"]);
}

#[test]
fn test_format_detailed_listing() {
    let entries = vec![de("docs", 0, true, None), de("a.rs", 2048, false, None)];
    let (lines, stats) = format_detailed_listing(&entries);
    let lines: Vec<String> = lines.into_iter().map(s).collect();
    assert_eq!(
        lines,
        vec![
            "\u{1F4C2} Directories:".to_string(),
            "  \u{1F4C1} docs/".to_string(),
            "".to_string(),
            "\u{1F4C4} Files:".to_string(),
            "  \u{1F980} a.rs (  2.0 KB)".to_string(),
        ]
    );
    assert_eq!(s(stats), "\u{1F4CA} Summary: 1 directories, 1 files | Total size: 2.0 KB");
}

#[test]
fn test_list_directory_with_sizes_message() {
    let mut entries = vec![de("z.txt", 10, false, None)];
    let r = list_directory_with_sizes(&b("/d"), &SortBy::Size, &mut entries);
    let text = s(r.message);
    assert!(text.starts_with("\u{1F4C1} Directory: /d (sorted by Size)\n\n"));
    assert!(text.contains("  \u{1F4C4} z.txt (    10 B)"));
    assert!(text.ends_with("\u{1F4CA} Summary: 0 directories, 1 files | Total size: 10 B"));
    assert_eq!(r.path, b("/d"));
    assert_eq!(r.size, None);
    assert!(!r.created);
}

#[test]
fn test_list_directory_with_sizes_empty() {
    let mut entries: Vec<DirectoryEntry> = Vec::new();
    let r = list_directory_with_sizes(&b("/d"), &SortBy::Name, &mut entries);
    let text = s(r.message);
    assert!(text.ends_with("\u{1F4C2} Empty directory"));
}

#[test]
fn test_plain_listing() {
    let entries = vec![
        ListedEntry { name: b("z.txt"), is_dir: false, is_symlink: false, size: 4 },
        ListedEntry { name: b("adir"), is_dir: true, is_symlink: false, size: 0 },
        ListedEntry { name: b("link"), is_dir: false, is_symlink: true, size: 0 },
    ];
    let mut lines = plain_listing_lines(&entries);
    assert_eq!(s(lines[0].clone()), "z.txt - txt file (4 bytes)");
    assert_eq!(s(lines[1].clone()), "adir - directory");
    assert_eq!(s(lines[2].clone()), "link - symlink");
    sort_lines(&mut lines);
    let r = plain_listing_response(&b("/d"), &lines);
    assert_eq!(
        s(r.message),
        "Directory listing completed successfully:\nadir - directory\nlink - symlink\nz.txt - txt file (4 bytes)"
    );
}

#[test]
fn test_list_directory_message() {
    let mut entries = vec![de("b.txt", 3, false, None), de("adir", 0, true, None)];
    let r = list_directory(&b("/d"), &mut entries);
    let text = s(r.message);
    assert_eq!(
        text,
        "\u{1F4C1} Directory: /d\n\n\u{1F4C2} Directories:\n  \u{1F4C1} adir/\n\n\u{1F4C4} Files:\n  \u{1F4C4} b.txt (3 B)\n\n\u{1F4CA} Summary: 1 directories, 1 files"
    );
}

#[test]
fn test_json_escape() {
    assert_eq!(s(json_escape(&b("plain"))), "plain");
    assert_eq!(s(json_escape(&b("a\"b\\c"))), "a\\\"b\\\\c");
    assert_eq!(s(json_escape(&b("x\ty\nz"))), "x\\ty\\nz");
    assert_eq!(s(json_escape(&vec![0x1f, 0x41])), "\\u001fA");
}

#[test]
fn test_file_info_response_json() {
    let r = file_info_response(&b("/d/a.txt"), &b("a.txt"), false, true, 42, Some(123), false);
    let expected = "{\n  \"is_directory\": false,\n  \"modified\": 123,\n  \"name\": \"a.txt\",\n  \"path\": \"/d/a.txt\",\n  \"permissions\": {\n    \"executable\": false,\n    \"readable\": true,\n    \"writable\": true\n  },\n  \"size\": 42,\n  \"type\": \"[FILE]\"\n}";
    assert_eq!(s(r.message), expected);
    assert_eq!(r.path, b("/d/a.txt"));
    assert_eq!(r.size, None);
    assert!(!r.created);
    let dir = file_info_response(&b("/d"), &b("d"), true, false, 0, None, true);
    let message = s(dir.message);
    assert!(message.contains("\"is_directory\": true"));
    assert!(message.contains("\"modified\": null"));
    assert!(message.contains("\"writable\": false"));
    assert!(message.contains("\"type\": \"[DIRECTORY]\""));
}

#[test]
fn test_metadata_error_kinds() {
    match metadata_error(&b("/gone"), true, &b("missing")) {
        FileSystemMcpError::PathNotFound { path } => assert_eq!(path, b("/gone")),
        _ => panic!("expected PathNotFound"),
    }
    match metadata_error(&b("/f"), false, &b("busy")) {
        FileSystemMcpError::IoError { message, path } => {
            assert_eq!(s(message), "Failed to get file metadata: busy");
            assert_eq!(path, b("/f"));
        }
        _ => panic!("expected IoError"),
    }
}
