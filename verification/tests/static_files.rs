use sbalite::static_files::{asset_to_find, choose_file, handle_request, spa_shell};
use sbalite::static_files::{try_serve_embedded, StaticFile};

fn page() -> Option<Vec<u8>> {
    Some(b"<html></html>".to_vec())
}

#[test]
fn the_root_asks_for_the_page() {
    assert_eq!(asset_to_find("/").as_deref(), Some("index.html"));
    assert_eq!(asset_to_find("").as_deref(), Some("index.html"));
    assert_eq!(asset_to_find("//assets/app.js").as_deref(), Some("assets/app.js"));
}

#[test]
fn a_path_that_leads_upwards_is_not_answered() {
    assert!(asset_to_find("/../secret").is_none());
    assert!(asset_to_find("/a..b").is_none());
    assert!(try_serve_embedded("/../secret", page(), page()).is_none());
    assert!(try_serve_embedded("/a/..", None, page()).is_none());
    assert_eq!(handle_request("/..", page(), page()).0, 404);
}

#[test]
fn an_asset_has_the_type_of_its_extension() {
    let script = try_serve_embedded("/assets/app.js", Some(b"1".to_vec()), page()).unwrap();
    assert_eq!(script.content_type, "text/javascript");
    assert_eq!(script.body, b"1".to_vec());
    let style = try_serve_embedded("/a.css", Some(vec![]), None).unwrap();
    assert_eq!(style.content_type, "text/css");
    let image = try_serve_embedded("/img/logo.PNG", Some(vec![]), None).unwrap();
    assert_eq!(image.content_type, "image/png");
    let unknown = try_serve_embedded("/data.unknownext", Some(vec![]), None).unwrap();
    assert_eq!(unknown.content_type, "application/octet-stream");
    let index = try_serve_embedded("/", page(), None).unwrap();
    assert_eq!(index.content_type, "text/html");
}

#[test]
fn a_route_is_answered_with_the_page() {
    for path in ["/applications/xyz", "/journal", "/wallboard", "/v1.0/route"] {
        let file = try_serve_embedded(path, None, page()).unwrap();
        assert_eq!(file.content_type, "text/html; charset=utf-8");
        assert_eq!(file.body, b"<html></html>".to_vec());
        assert_eq!(handle_request(path, None, page()).0, 200);
    }
    assert!(try_serve_embedded("/journal", None, None).is_none());
}

#[test]
fn a_missing_asset_is_not_found() {
    assert!(try_serve_embedded("/missing.js", None, page()).is_none());
    let (status, file) = handle_request("/a/b.png", None, page());
    assert_eq!(status, 404);
    assert!(file.is_none());
}

#[test]
fn a_found_asset_goes_before_the_page() {
    let asset = StaticFile {
        content_type: "text/plain".to_string(),
        body: b"x".to_vec(),
    };
    let file = choose_file("/journal", Some(asset), page()).unwrap();
    assert_eq!(file.content_type, "text/plain");
    assert_eq!(file.body, b"x".to_vec());
}

#[test]
fn the_shell_is_the_page_or_nothing() {
    assert_eq!(spa_shell(page()).unwrap().content_type, "text/html; charset=utf-8");
    assert!(spa_shell(None).is_none());
}
