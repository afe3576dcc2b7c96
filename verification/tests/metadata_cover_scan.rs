//! Tests of metadata assembly, cover-path computation and the library
//! scanner's extension filter.

use stellaron_lib::cover::{cover_relative_path, extension_for, sanitize_filename};
use stellaron_lib::metadata::{build_metadata, first_isbn};
use stellaron_lib::scanner::{filter_epub_paths, is_epub_file, scan_epubs};

#[test]
fn missing_fields_fall_back_to_placeholders() {
    let m = build_metadata(None, vec![], vec![], None, &vec![], None, "/b.epub".to_string());
    assert_eq!(m.title, "Unknown Title");
    assert_eq!(m.authors, vec!["Unknown Author".to_string()]);
    assert_eq!(m.publishers, vec!["Unknown Publisher".to_string()]);
    assert!(m.isbn.is_none());
    assert!(m.published_date.is_none());
    assert!(m.cover_data.is_none());
    assert_eq!(m.file_path, "/b.epub");
}

#[test]
fn present_fields_pass_through_unchanged() {
    let m = build_metadata(
        Some("A Title".to_string()),
        vec!["Ada".to_string(), "Blaise".to_string()],
        vec!["House".to_string()],
        Some("2001-02-03".to_string()),
        &vec!["urn:uuid:abc".to_string(), "urn:isbn:9780000000000".to_string()],
        Some((vec![9u8, 8u8], "image/jpeg".to_string())),
        "/shelf/b.epub".to_string(),
    );
    assert_eq!(m.title, "A Title");
    assert_eq!(m.authors, vec!["Ada".to_string(), "Blaise".to_string()]);
    assert_eq!(m.publishers, vec!["House".to_string()]);
    assert_eq!(m.published_date.as_deref(), Some("2001-02-03"));
    assert_eq!(m.isbn.as_deref(), Some("urn:isbn:9780000000000"));
    assert_eq!(m.cover_data, Some((vec![9u8, 8u8], "image/jpeg".to_string())));
}

#[test]
fn isbn_selection_takes_first_marked_identifier() {
    let ids = vec![
        "doi:10/xyz".to_string(),
        "urn:isbn:111".to_string(),
        "urn:isbn:222".to_string(),
    ];
    assert_eq!(first_isbn(&ids).as_deref(), Some("urn:isbn:111"));
    assert!(first_isbn(&vec!["urn:uuid:1".to_string()]).is_none());
}

#[test]
fn unopenable_container_fails_extraction() {
    let r = stellaron_lib::metadata::parse_epub_meta("/no/such/container.epub");
    assert!(matches!(
        r,
        Err(stellaron_lib::errors::ExtractError::Open(stellaron_lib::errors::OpenError::NotFound))
    ));
}

#[test]
fn sanitization_strips_punctuation_and_spaces() {
    assert_eq!(sanitize_filename("My Book!?"), "MyBook");
    assert_eq!(sanitize_filename("a-b_c.d"), "a-b_c.d");
    assert_eq!(sanitize_filename("../../etc/passwd"), "....etcpasswd");
    assert_eq!(sanitize_filename(""), "");
}

#[test]
fn extension_follows_media_type_with_jpg_default() {
    assert_eq!(extension_for("image/jpeg"), "jpg");
    assert_eq!(extension_for("image/png"), "png");
    assert_eq!(extension_for("image/gif"), "gif");
    assert_eq!(extension_for("application/octet-stream"), "jpg");
}

#[test]
fn cover_path_is_sanitized_name_under_covers() {
    assert_eq!(cover_relative_path("image/png", "My Book!?"), "covers/MyBook.png");
    assert_eq!(cover_relative_path("text/plain", "x"), "covers/x.jpg");
}

#[test]
fn extension_filter_is_case_insensitive() {
    assert!(is_epub_file("a/book.epub"));
    assert!(is_epub_file("a/b/Book2.EPUB"));
    assert!(is_epub_file("Book3.ePuB"));
    assert!(!is_epub_file("a/notes.txt"));
    assert!(!is_epub_file("archive.epub.bak"));
    assert!(!is_epub_file(".epub"));
    assert!(!is_epub_file("noextension"));
}

#[test]
fn scan_filter_keeps_exactly_the_container_files() {
    let entries = vec![
        ("/lib/a/book.epub".to_string(), true),
        ("/lib/a/b/Book2.EPUB".to_string(), true),
        ("/lib/a/notes.txt".to_string(), true),
        ("/lib/a/b".to_string(), false),
        ("/lib/dir.epub".to_string(), false),
    ];
    let got = filter_epub_paths(&entries);
    assert_eq!(
        got,
        vec!["/lib/a/book.epub".to_string(), "/lib/a/b/Book2.EPUB".to_string()]
    );
}

#[test]
fn scan_of_missing_root_finds_nothing() {
    assert!(scan_epubs("/no/such/library/root").is_empty());
}
