use mdopen::resolve::{
    decode_url_path, join_path_str, mime_type, path_extension, relative_path, resolve_node,
    FsNode, ResolvedContent,
};

#[test]
fn mime_known_extensions() {
    assert_eq!(mime_type("js"), Some("application/javascript"));
    assert_eq!(mime_type("css"), Some("text/css"));
    assert_eq!(mime_type("gif"), Some("image/gif"));
    assert_eq!(mime_type("png"), Some("image/png"));
    assert_eq!(mime_type("jpg"), Some("image/jpeg"));
    assert_eq!(mime_type("jpeg"), Some("image/jpeg"));
    assert_eq!(mime_type("pdf"), Some("application/pdf"));
    assert_eq!(mime_type("html"), Some("text/html"));
    assert_eq!(mime_type("md"), Some("text/markdown"));
    assert_eq!(mime_type("txt"), Some("text/plain"));
}

#[test]
fn mime_unknown_extension() {
    assert_eq!(mime_type("xyz"), None);
    assert_eq!(mime_type(""), None);
    assert_eq!(mime_type("MD"), None, "extension matching is case-sensitive");
}

#[test]
fn decode_percent_sequences() {
    assert_eq!(decode_url_path("%48ello%20world"), "Hello world");
    assert_eq!(decode_url_path("plain"), "plain");
}

#[test]
fn decode_keeps_stray_percent() {
    assert_eq!(decode_url_path("100%zz"), "100%zz");
    assert_eq!(decode_url_path("50%"), "50%");
}

#[test]
fn decode_invalid_utf8_lossily() {
    assert_eq!(decode_url_path("a%FFb"), "a\u{FFFD}b");
}

#[test]
fn extension_cases() {
    assert_eq!(path_extension("a/b.md"), Some(String::from("md")));
    assert_eq!(path_extension("archive.tar.gz"), Some(String::from("gz")));
    assert_eq!(path_extension("a.b/c"), None);
    assert_eq!(path_extension(".hidden"), None);
    assert_eq!(path_extension("trailing."), Some(String::from("")));
    assert_eq!(path_extension("noext"), None);
    assert_eq!(path_extension("dir/"), None);
}

#[test]
fn relative_path_strips_leading_slashes() {
    assert_eq!(relative_path("/a/b"), "a/b");
    assert_eq!(relative_path("//x"), "x");
    assert_eq!(relative_path("/"), "");
    assert_eq!(relative_path("plain"), "plain");
}

#[test]
fn join_path_cases() {
    assert_eq!(join_path_str("", "a.md"), "a.md");
    assert_eq!(join_path_str("dir", "a.md"), "dir/a.md");
    assert_eq!(join_path_str("dir/", "a.md"), "dir/a.md");
}

#[test]
fn resolve_directory_lists_entries() {
    let names = vec![String::from("a.md"), String::from("b.txt")];
    let r = resolve_node("dir", FsNode::Dir(names), None);
    match r {
        ResolvedContent::Directory(entries) => {
            assert_eq!(entries.len(), 2);
            assert_eq!(entries[0].name, "a.md");
            assert_eq!(entries[0].path, "dir/a.md");
            assert_eq!(entries[1].name, "b.txt");
            assert_eq!(entries[1].path, "dir/b.txt");
        }
        _ => panic!("expected a directory listing"),
    }
}

#[test]
fn resolve_missing_is_not_found() {
    match resolve_node("gone.md", FsNode::Missing, None) {
        ResolvedContent::NotFound => {}
        _ => panic!("expected NotFound"),
    }
}

#[test]
fn resolve_read_error_is_internal() {
    match resolve_node("secret.md", FsNode::ReadError, None) {
        ResolvedContent::InternalError => {}
        _ => panic!("expected InternalError"),
    }
}

#[test]
fn resolve_empty_markdown_renders_empty_body() {
    match resolve_node("empty.md", FsNode::File(Vec::new()), None) {
        ResolvedContent::Markdown(html) => assert_eq!(html, ""),
        _ => panic!("expected Markdown"),
    }
}

#[test]
fn resolve_markdown_extension_renders() {
    let src = b"# Hi".to_vec();
    match resolve_node("doc.markdown", FsNode::File(src), None) {
        ResolvedContent::Markdown(html) => {
            assert!(html.contains("<h1>"));
            assert!(html.contains("<a id=\"hi\""));
        }
        _ => panic!("expected Markdown"),
    }
}

#[test]
fn resolve_other_file_is_raw_with_mime() {
    let bytes = b"hello".to_vec();
    match resolve_node("notes/readme.txt", FsNode::File(bytes), None) {
        ResolvedContent::RawFile(data, mime) => {
            assert_eq!(data, b"hello".to_vec());
            assert_eq!(mime, Some("text/plain"));
        }
        _ => panic!("expected RawFile"),
    }
}

#[test]
fn resolve_unknown_extension_has_no_mime() {
    let bytes = vec![1u8, 2, 3];
    match resolve_node("data.bin", FsNode::File(bytes), None) {
        ResolvedContent::RawFile(data, mime) => {
            assert_eq!(data, vec![1u8, 2, 3]);
            assert_eq!(mime, None);
        }
        _ => panic!("expected RawFile"),
    }
}
