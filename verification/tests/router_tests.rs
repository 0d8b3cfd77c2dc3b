use mdopen::resolve::ResolvedContent;
use mdopen::router::{
    is_known_asset, response_mime, route_request, status_code_of, strip_prefix_str, Route,
    ASSETS_PREFIX, RELOAD_PREFIX,
};

#[test]
fn non_get_is_refused() {
    assert!(matches!(route_request(false, "/whatever"), Route::MethodNotAllowed));
}

#[test]
fn reload_prefix_routes_to_handshake() {
    let url = format!("{}doc.md", RELOAD_PREFIX);
    match route_request(true, &url) {
        Route::Reload(rest) => assert_eq!(rest, "doc.md"),
        _ => panic!("expected the reload route"),
    }
}

#[test]
fn asset_prefix_routes_to_assets() {
    let url = format!("{}style.css", ASSETS_PREFIX);
    match route_request(true, &url) {
        Route::Asset(rest) => assert_eq!(rest, "style.css"),
        _ => panic!("expected the asset route"),
    }
}

#[test]
fn other_urls_route_to_content() {
    match route_request(true, "/notes/today.md") {
        Route::Content(p) => assert_eq!(p, "/notes/today.md"),
        _ => panic!("expected the content route"),
    }
}

#[test]
fn strip_prefix_cases() {
    assert_eq!(strip_prefix_str("/a/b", "/a/"), Some(String::from("b")));
    assert_eq!(strip_prefix_str("/a/b", "/x/"), None);
    assert_eq!(strip_prefix_str("short", "longer-prefix"), None);
    assert_eq!(strip_prefix_str("same", "same"), Some(String::new()));
}

#[test]
fn only_the_stylesheet_is_a_known_asset() {
    assert!(is_known_asset("style.css"));
    assert!(!is_known_asset("other.css"));
    assert!(!is_known_asset(""));
}

#[test]
fn status_codes_follow_the_taxonomy() {
    assert_eq!(status_code_of(&ResolvedContent::Markdown(String::new())), 200);
    assert_eq!(status_code_of(&ResolvedContent::Directory(Vec::new())), 200);
    assert_eq!(status_code_of(&ResolvedContent::RawFile(Vec::new(), None)), 200);
    assert_eq!(status_code_of(&ResolvedContent::NotFound), 404);
    assert_eq!(status_code_of(&ResolvedContent::InternalError), 500);
}

#[test]
fn str_eq_agrees_with_equality() {
    assert!(mdopen::str_eq("abc", "abc"));
    assert!(!mdopen::str_eq("abc", "abd"));
    assert!(!mdopen::str_eq("abc", "ab"));
    assert!(mdopen::str_eq("", ""));
}

#[test]
fn markdown_is_served_as_html() {
    assert_eq!(response_mime("doc.md"), Some("text/html"));
    assert_eq!(response_mime("img.png"), Some("image/png"));
    assert_eq!(response_mime("data.xyz"), None);
    assert_eq!(response_mime("noext"), None);
}
