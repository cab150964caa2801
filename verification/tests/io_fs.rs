use short::d4d_error::{self, D4dError};
use short::fs::{ContentFile, ReadError};
use short::io::read_to_string_finds;
use short::paths::filter_extensions;

#[test]
fn read_to_string_finds_test() {
    let data = b"line1\nline2\n\ntest";
    let text = std::str::from_utf8(data).unwrap();
    let contents = read_to_string_finds(text, |s| s.contains("test")).unwrap();
    assert_eq!(contents.into_bytes(), data);
}

#[test]
fn read_to_string_finds_test_fail() {
    let data = b"line1\nline2\n\ntest";
    let text = std::str::from_utf8(data).unwrap();
    let result = read_to_string_finds(text, |s| s.contains("notfouned"));
    assert!(result.is_err());
    assert_eq!(result.unwrap_err().detail, "fail to match");
}

#[test]
fn read_to_string_finds_asks_about_lines() {
    let seen = std::cell::RefCell::new(Vec::new());
    let result = read_to_string_finds("a\nb\nc", |s| {
        seen.borrow_mut().push(s.to_string());
        s == "b\n"
    });
    assert_eq!(result.unwrap(), "a\nb\nc");
    assert_eq!(*seen.borrow(), vec!["a\n".to_string(), "b\n".to_string()]);
}

#[test]
fn read_to_string_finds_a_line_that_starts_with() {
    let result = read_to_string_finds("line1\ntest\n", |s| s.starts_with("test"));
    assert_eq!(result.unwrap(), "line1\ntest\n");
    let seen = std::cell::RefCell::new(Vec::new());
    let result = read_to_string_finds("x\ny", |s| {
        seen.borrow_mut().push(s.to_string());
        false
    });
    assert!(result.is_err());
    assert_eq!(*seen.borrow(), vec!["x\n".to_string(), "y".to_string()]);
}

#[test]
fn read_to_string_finds_empty_text_fails() {
    assert!(read_to_string_finds("", |_| true).is_err());
}

#[test]
fn read_contain_multi_partitions() {
    let files = vec![
        ("a.yaml".to_string(), Ok("x: test".to_string())),
        ("b.yaml".to_string(), Err(ReadError::Io("denied".to_string()))),
        ("c.yaml".to_string(), Ok("nothing".to_string())),
    ];
    let (content_files, errors) = ContentFile::read_contain_multi(files, |line| line.contains("test"));
    assert_eq!(content_files.len(), 1);
    assert_eq!(content_files[0].path, "a.yaml");
    assert_eq!(content_files[0].contents, "x: test");
    assert_eq!(errors.len(), 2);
    assert!(matches!(&errors[0], ReadError::Io(m) if m == "denied"));
    assert!(matches!(&errors[1], ReadError::Other(m) if m == "fail to match"));
}

#[test]
fn filter_extensions_test() {
    let paths = [
        "/test/test".to_string(),
        "/test/test.yaml".to_string(),
        "/test/test.txt".to_string(),
        "/test/test.js".to_string(),
    ];

    let filtered_extensions = filter_extensions(&paths, &["js", "html"]);
    assert_eq!(&filtered_extensions, &vec!["/test/test.js".to_string()]);
    assert_eq!((&filtered_extensions.clone()).len(), 1 as usize);
}

#[test]
fn d4d_errors() {
    let e = D4dError::new("boom".to_string());
    assert_eq!(e.detail, "boom");
    let b = D4dError::new_box("boxed".to_string());
    assert_eq!(b.detail, "boxed");
    assert_eq!(d4d_error::new("plain").detail, "plain");
}
