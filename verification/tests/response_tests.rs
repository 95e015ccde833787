use fs_mcp::reader::{read_file_head, read_file_tail, HeadReader, TailReader};
use fs_mcp::responses::{FileContent, ReadFileResponse, WriteFileResponse};
use fs_mcp::writer::{plan_write, temp_path_for, write_failure_error, write_file_response,
    ExclusiveCreate, WriteFailure, WritePlan};
use fs_mcp::errors::FileSystemMcpError;

fn b(s: &str) -> Vec<u8> {
    s.as_bytes().to_vec()
}

fn s(v: Vec<u8>) -> String {
    String::from_utf8(v).unwrap()
}

fn text_of(r: ReadFileResponse) -> String {
    match r.content {
        FileContent::Text(t) => String::from_utf8(t).unwrap(),
        FileContent::Binary(_) => panic!("expected text content"),
    }
}

#[test]
fn test_read_file_head() {
    let content = b("line1\nline2\nline3\nline4\nline5");
    assert_eq!(text_of(read_file_head(&content, 3)), "line1\nline2\nline3");
    assert_eq!(text_of(read_file_head(&content, 0)), "");
    assert_eq!(text_of(read_file_head(&content, 99)), "line1\nline2\nline3\nline4\nline5");
}

#[test]
fn test_read_file_tail() {
    let content = b("line1\nline2\nline3\nline4\nline5");
    assert_eq!(text_of(read_file_tail(&content, 3)), "line3\nline4\nline5");
    assert_eq!(text_of(read_file_tail(&content, 0)), "");
    assert_eq!(text_of(read_file_tail(&content, 99)), "line1\nline2\nline3\nline4\nline5");
}

#[test]
fn test_reader_line_semantics() {
    // a trailing newline yields no extra empty line; CRLF lines are stripped
    assert_eq!(text_of(read_file_head(&b("a\nb\n"), 10)), "a\nb");
    assert_eq!(text_of(read_file_head(&b("a\r\nb\r\n"), 10)), "a\nb");
    assert_eq!(text_of(read_file_tail(&b(""), 5)), "");
}

#[test]
fn test_read_media_file_binary() {
    let r = ReadFileResponse::new(b("hello"), &b("/x/data.bin"));
    assert_eq!(s(r.mime_type), "application/octet-stream");
    match r.content {
        FileContent::Binary(data) => assert_eq!(s(data), "aGVsbG8="),
        _ => panic!("expected binary content"),
    }
}

#[test]
fn test_read_media_file_text() {
    let r = ReadFileResponse::new(b("hello"), &b("/x/a.txt"));
    assert_eq!(s(r.mime_type), "text/plain");
    match r.content {
        FileContent::Text(data) => assert_eq!(s(data), "hello"),
        _ => panic!("expected text content"),
    }
}

#[test]
fn test_read_media_file_lossy_text() {
    let r = ReadFileResponse::new(vec![0xff, 0x61], &b("/x/a.txt"));
    match r.content {
        FileContent::Text(data) => assert_eq!(String::from_utf8(data).unwrap(), "\u{FFFD}a"),
        _ => panic!("expected text content"),
    }
}

#[test]
fn test_base64_padding_lengths() {
    let one = ReadFileResponse::new(b("h"), &b("/b.bin"));
    let two = ReadFileResponse::new(b("he"), &b("/b.bin"));
    match (one.content, two.content) {
        (FileContent::Binary(a), FileContent::Binary(bb)) => {
            assert_eq!(s(a), "aA==");
            assert_eq!(s(bb), "aGU=");
        }
        _ => panic!("expected binary content"),
    }
}

#[test]
fn test_response_constructors() {
    let r = ReadFileResponse::text(b("x"));
    assert_eq!(r.mime_type, b("text/plain"));
    let r = ReadFileResponse::binary(b("QQ=="), b("image/png"));
    assert_eq!(r.mime_type, b("image/png"));

    let w = WriteFileResponse::file_written(&b("/f"), 5, true);
    assert_eq!(s(w.message), "File created successfully with 5 bytes");
    assert_eq!(w.size, Some(5));
    assert!(w.created);
    let w = WriteFileResponse::file_written(&b("/f"), 2, false);
    assert_eq!(s(w.message), "File updated successfully with 2 bytes");
    assert!(!w.created);

    let w = WriteFileResponse::directory_created(&b("/d"), false);
    assert_eq!(s(w.message), "Directory created successfully");
    assert!(w.created);
    // an already-existing directory is not reported as created
    let w = WriteFileResponse::directory_created(&b("/d"), true);
    assert!(!w.created);

    let w = WriteFileResponse::deleted(&b("/f"), false);
    assert_eq!(s(w.message), "File deleted successfully");
    let w = WriteFileResponse::deleted(&b("/d"), true);
    assert_eq!(s(w.message), "Directory deleted successfully");

    let w = WriteFileResponse::moved(&b("/a"), &b("/b"));
    assert_eq!(s(w.path), "/a -> /b");
    let w = WriteFileResponse::copied(&b("/a"), &b("/b"), 9);
    assert_eq!(s(w.path), "/a -> /b");
    assert_eq!(w.size, Some(9));
    assert!(w.created);
}

#[test]
fn test_temp_path_for() {
    assert_eq!(s(temp_path_for(&b("/d/file.txt"), 0x1234)), "/d/file.txt.0000000000001234.tmp");
    assert_eq!(s(temp_path_for(&b("/d/noext"), 0)), "/d/noext.0000000000000000.tmp");
    assert_eq!(
        s(temp_path_for(&b("/d/a"), 0x0123_4567_89ab_cdef_0123)),
        "/d/a.123456789abcdef0123.tmp"
    );
}

#[test]
fn test_plan_write() {
    assert!(matches!(plan_write(&b("/f"), &ExclusiveCreate::Created, 1), WritePlan::WriteDirect));
    match plan_write(&b("/f"), &ExclusiveCreate::AlreadyExists, 0xab) {
        WritePlan::WriteViaTemp { temp_path } => {
            assert_eq!(s(temp_path), "/f.00000000000000ab.tmp");
        }
        _ => panic!("expected WriteViaTemp"),
    }
    match plan_write(&b("/f"), &ExclusiveCreate::Failed { detail: b("denied") }, 1) {
        WritePlan::Fail { error: FileSystemMcpError::IoError { message, path } } => {
            assert_eq!(s(message), "Failed to open file for writing: denied");
            assert_eq!(path, b("/f"));
        }
        _ => panic!("expected Fail"),
    }
}

#[test]
fn test_write_failure_errors() {
    let e = write_failure_error(&WriteFailure::Rename, &b("/f"), &b("/f.t"), &b("busy"));
    match e {
        FileSystemMcpError::IoError { message, path } => {
            assert_eq!(s(message), "Failed to rename temporary file: busy");
            assert_eq!(s(path), "/f.t -> /f");
        }
        _ => panic!("expected IoError"),
    }
    let e = write_failure_error(&WriteFailure::Parent, &b("/f"), &b("/f.t"), &b("ro"));
    match e {
        FileSystemMcpError::IoError { message, path } => {
            assert_eq!(s(message), "Failed to create parent directory: ro");
            assert_eq!(path, b("/f"));
        }
        _ => panic!("expected IoError"),
    }
}

#[test]
fn test_write_file_response_created_flag() {
    // `created` is true exactly when the target did not exist beforehand
    let r = write_file_response(&b("/f"), 5, false);
    assert!(r.created);
    let r = write_file_response(&b("/f"), 5, true);
    assert!(!r.created);
}

#[test]
fn test_head_reader_stops_at_limit() {
    let mut reader = HeadReader::new(2);
    let mut fed = 0;
    for line in ["line1", "line2", "line3", "line4"] {
        if !reader.wants_more() {
            break;
        }
        reader.push_line(b(line));
        fed += 1;
    }
    // early termination: no line past the limit was consumed
    assert_eq!(fed, 2);
    assert_eq!(text_of(reader.finish()), "line1\nline2");
}

#[test]
fn test_tail_reader_rolling_window() {
    let mut reader = TailReader::new(3);
    for line in ["line1", "line2", "line3", "line4", "line5"] {
        reader.push_line(b(line));
    }
    assert_eq!(text_of(reader.finish()), "line3\nline4\nline5");
    let mut zero = TailReader::new(0);
    zero.push_line(b("x"));
    assert_eq!(text_of(zero.finish()), "");
    let mut short = TailReader::new(9);
    short.push_line(b("only"));
    assert_eq!(text_of(short.finish()), "only");
}
