use baml_language_server::{
    ensure_absolute, ensure_absolute_with_separator, is_within_root, DocumentKey, DocumentKeyError,
    PositionEncoding,
};

#[test]
fn encodings_have_protocol_names() {
    assert_eq!(PositionEncoding::UTF8.kind_name(), "utf-8");
    assert_eq!(PositionEncoding::UTF16.kind_name(), "utf-16");
    assert_eq!(PositionEncoding::UTF32.kind_name(), "utf-32");
}

#[test]
fn encodings_are_read_from_protocol_names() {
    assert_eq!(PositionEncoding::from_kind_name("utf-8"), Ok(PositionEncoding::UTF8));
    assert_eq!(PositionEncoding::from_kind_name("utf-16"), Ok(PositionEncoding::UTF16));
    assert_eq!(PositionEncoding::from_kind_name("utf-32"), Ok(PositionEncoding::UTF32));
    assert_eq!(PositionEncoding::from_kind_name("utf-7"), Err(()));
    assert_eq!(PositionEncoding::from_kind_name(""), Err(()));
}

#[test]
fn lsp_kinds_round_trip() {
    for e in [PositionEncoding::UTF8, PositionEncoding::UTF16, PositionEncoding::UTF32] {
        let kind = e.to_kind();
        assert_eq!(PositionEncoding::try_from_kind(&kind), Ok(e));
    }
    assert_eq!(
        PositionEncoding::try_from_kind(&lsp_types::PositionEncodingKind::UTF8),
        Ok(PositionEncoding::UTF8)
    );
    assert_eq!(PositionEncoding::UTF16.to_kind(), lsp_types::PositionEncodingKind::UTF16);
    assert_eq!(
        PositionEncoding::try_from_kind(&lsp_types::PositionEncodingKind::new("ascii")),
        Err(())
    );
}

#[test]
fn default_encoding_is_utf16_and_priority_order_holds() {
    assert_eq!(PositionEncoding::default(), PositionEncoding::UTF16);
    assert!(PositionEncoding::UTF16 < PositionEncoding::UTF32);
    assert!(PositionEncoding::UTF32 < PositionEncoding::UTF8);
}

#[test]
fn ensure_absolute_keeps_paths_under_the_root() {
    assert_eq!(
        ensure_absolute("/Users/someone/baml_src", "/Users/someone/baml_src/test.baml"),
        "/Users/someone/baml_src/test.baml"
    );
}

#[test]
fn ensure_absolute_joins_rooted_relative_paths() {
    assert_eq!(
        ensure_absolute("/Users/someone/baml_src", "/test.baml"),
        "/Users/someone/baml_src/test.baml"
    );
    assert_eq!(
        ensure_absolute("/Users/someone/baml_src", "clients/test.baml"),
        "/Users/someone/baml_src/clients/test.baml"
    );
}

#[test]
fn ensure_absolute_compares_whole_components() {
    assert_eq!(ensure_absolute("/proj", "/project/a.baml"), "/proj/project/a.baml");
    assert_eq!(ensure_absolute("/proj", "/proj/a.baml"), "/proj/a.baml");
    assert!(is_within_root("/proj", "/proj/a.baml", "/"));
    assert!(!is_within_root("/proj", "/project/a.baml", "/"));
    assert!(is_within_root("/proj/", "/proj/a.baml", "/"));
}

#[test]
fn ensure_absolute_with_explicit_separator() {
    assert_eq!(
        ensure_absolute_with_separator("/root", "/a/b.baml", "/"),
        "/root/a/b.baml"
    );
    // The root must be a whole leading component sequence of the path.
    assert_eq!(ensure_absolute_with_separator("/root", "/rootless.baml", "/"), "/root/rootless.baml");
    assert_eq!(ensure_absolute_with_separator("/root", "/root", "/"), "/root");
    assert_eq!(ensure_absolute_with_separator("/", "/a.baml", "/"), "/a.baml");
}

const ROOT: &str = "/Users/someone/baml_src";
const EXPECTED: &str = "file:///Users/someone/baml_src/test.baml";

#[test]
fn document_keys_from_the_paths_clients_send() {
    for path in [
        "file:///Users/someone/baml_src/test.baml",
        "/Users/someone/baml_src/test.baml",
        "test.baml",
        "/test.baml",
    ] {
        let key = DocumentKey::from_path(ROOT, path).unwrap();
        assert_eq!(key.url(), EXPECTED, "for {}", path);
    }
}

#[test]
fn document_key_from_a_url_like_path_drops_the_scheme() {
    let key = DocumentKey::from_path(ROOT, "file:///test.baml").unwrap();
    assert_eq!(key.url(), EXPECTED);
    let key = DocumentKey::from_path_with_separator(ROOT, "file:///Users/someone/baml_src/test.baml", "/").unwrap();
    assert_eq!(key.url(), EXPECTED);
}

#[test]
fn document_key_from_url() {
    let key = DocumentKey::from_url(ROOT, "file:///Users/someone/baml_src/test.baml").unwrap();
    assert_eq!(key.url(), EXPECTED);
    let key = DocumentKey::from_url(ROOT, "file:///test.baml").unwrap();
    assert_eq!(key.url(), EXPECTED);
    let key = DocumentKey::from_url_with_separator(ROOT, "file:///test.baml", "/").unwrap();
    assert_eq!(key.url(), EXPECTED);
}

#[test]
fn document_key_errors() {
    assert_eq!(DocumentKey::from_path("relative_root", "test.baml"), Err(DocumentKeyError::PathToUrl));
    assert_eq!(DocumentKey::from_url(ROOT, "not a url"), Err(DocumentKeyError::InvalidUrl));
}

#[test]
fn equal_keys_compare_equal() {
    let a = DocumentKey::from_path(ROOT, "test.baml").unwrap();
    let b = DocumentKey::from_path(ROOT, "/test.baml").unwrap();
    assert_eq!(a, b);
    assert_eq!(a.clone(), b);
}

#[test]
fn document_keys_from_file_urls() {
    let key = DocumentKey::from_file_url("file:///a/b.baml").unwrap();
    assert_eq!(key.url(), "file:///a/b.baml");
    assert!(DocumentKey::from_file_url("https://example.com/b.baml").is_none());
    assert!(DocumentKey::from_file_url("/a/b.baml").is_none());
}
