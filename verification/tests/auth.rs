use base64::Engine;
use sbalite::auth::{check_basic_auth_header, require_basic_auth, AuthConfig, AuthDecision};
use sbalite::config::ServerConfig;

fn basic_header(user: &str, pass: &str) -> String {
    let encoded = base64::engine::general_purpose::STANDARD.encode(format!("{user}:{pass}"));
    format!("Basic {encoded}")
}

#[test]
fn basic_auth_accepts_correct_credentials() {
    let expected = ("admin".to_string(), "secret".to_string());
    let header = basic_header("admin", "secret");
    assert!(check_basic_auth_header(Some(&header), &expected));
}

#[test]
fn basic_auth_rejects_wrong_password() {
    let expected = ("admin".to_string(), "secret".to_string());
    let header = basic_header("admin", "wrong");
    assert!(!check_basic_auth_header(Some(&header), &expected));
}

#[test]
fn basic_auth_rejects_wrong_username() {
    let expected = ("admin".to_string(), "secret".to_string());
    let header = basic_header("someone-else", "secret");
    assert!(!check_basic_auth_header(Some(&header), &expected));
}

#[test]
fn basic_auth_rejects_missing_header() {
    let expected = ("admin".to_string(), "secret".to_string());
    assert!(!check_basic_auth_header(None, &expected));
}

#[test]
fn basic_auth_rejects_non_basic_scheme() {
    let expected = ("admin".to_string(), "secret".to_string());
    assert!(!check_basic_auth_header(Some("Bearer sometoken"), &expected));
}

#[test]
fn basic_auth_rejects_malformed_base64() {
    let expected = ("admin".to_string(), "secret".to_string());
    assert!(!check_basic_auth_header(
        Some("Basic not-valid-base64!!!"),
        &expected
    ));
}

#[test]
fn basic_auth_takes_the_text_of_the_standard_encoding() {
    let expected = ("admin".to_string(), "secret".to_string());
    assert!(check_basic_auth_header(Some("Basic YWRtaW46c2VjcmV0"), &expected));
    assert!(!check_basic_auth_header(Some("basic YWRtaW46c2VjcmV0"), &expected));
    assert!(!check_basic_auth_header(Some("Basic  YWRtaW46c2VjcmV0"), &expected));
    assert!(!check_basic_auth_header(Some("Basic admin:secret"), &expected));
    assert!(!check_basic_auth_header(Some("Basic "), &expected));
    assert!(!check_basic_auth_header(Some("Basic"), &expected));
}

#[test]
fn basic_auth_wants_the_padding() {
    let expected = ("a".to_string(), "bc".to_string());
    assert!(check_basic_auth_header(Some("Basic YTpiYw=="), &expected));
    assert!(!check_basic_auth_header(Some("Basic YTpiYw="), &expected));
    assert!(!check_basic_auth_header(Some("Basic YTpiYw"), &expected));
    assert!(!check_basic_auth_header(Some("Basic YTpiYx=="), &expected));
}

#[test]
fn basic_auth_splits_at_the_first_colon() {
    let expected = ("admin".to_string(), "a:b".to_string());
    assert!(check_basic_auth_header(Some(&basic_header("admin", "a:b")), &expected));
    let colon_in_name = ("admin:a".to_string(), "b".to_string());
    assert!(!check_basic_auth_header(
        Some(&basic_header("admin:a", "b")),
        &colon_in_name
    ));
}

#[test]
fn basic_auth_takes_text_beyond_ascii() {
    let expected = ("j\u{f6}rg".to_string(), "\u{1f511}".to_string());
    assert!(check_basic_auth_header(
        Some(&basic_header("j\u{f6}rg", "\u{1f511}")),
        &expected
    ));
    let latin1 = base64::engine::general_purpose::STANDARD.encode([b'j', 0xf6, b':', b'x']);
    let named = ("j\u{f6}".to_string(), "x".to_string());
    assert!(!check_basic_auth_header(Some(&format!("Basic {latin1}")), &named));
}

#[test]
fn without_credentials_everything_passes() {
    let auth = AuthConfig { credentials: None };
    assert!(matches!(require_basic_auth(&auth, None), AuthDecision::Proceed));
    assert!(matches!(
        require_basic_auth(&auth, Some("Bearer x")),
        AuthDecision::Proceed
    ));
}

#[test]
fn a_refused_request_is_challenged() {
    let auth = AuthConfig {
        credentials: Some(("admin".to_string(), "secret".to_string())),
    };
    match require_basic_auth(&auth, None) {
        AuthDecision::Refuse { status, www_authenticate } => {
            assert_eq!(status, 401);
            assert_eq!(www_authenticate, "Basic realm=\"sbalite\"");
        }
        AuthDecision::Proceed => panic!("a request without credentials passed"),
    }
    assert!(matches!(
        require_basic_auth(&auth, Some(&basic_header("admin", "not-the-password"))),
        AuthDecision::Refuse { status: 401, .. }
    ));
    assert!(matches!(
        require_basic_auth(&auth, Some(&basic_header("admin", "secret"))),
        AuthDecision::Proceed
    ));
}

#[test]
fn protection_needs_both_a_name_and_a_password() {
    let mut server = ServerConfig::default();
    assert!(AuthConfig::from_server(&server).credentials.is_none());
    server.auth_username = Some("admin".to_string());
    assert!(AuthConfig::from_server(&server).credentials.is_none());
    server.auth_password = Some("hello".to_string());
    assert_eq!(
        AuthConfig::from_server(&server).credentials,
        Some(("admin".to_string(), "hello".to_string()))
    );
    server.auth_username = None;
    assert!(AuthConfig::from_server(&server).credentials.is_none());
}
