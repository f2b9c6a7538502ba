use sbalite::text::{has_text, same_ignoring_case, same_text, text_before};
use sbalite::urls::{context_path_of, origin_of, trim_first_slashes, upstream_url_of};

#[test]
fn an_origin_is_scheme_and_host() {
    assert_eq!(origin_of("https://host/context/actuator"), "https://host");
    assert_eq!(origin_of("http://127.0.0.1:8080/actuator"), "http://127.0.0.1:8080");
    assert_eq!(origin_of("https://host"), "https://host");
    assert_eq!(origin_of("host/actuator"), "host/actuator");
    assert_eq!(origin_of(""), "");
    assert_eq!(origin_of("a://b://c/d"), "a://b:");
    assert_eq!(origin_of("x/y://host/z"), "x/y://host");
    assert_eq!(origin_of("://"), "://");
}

#[test]
fn a_context_path_begins_with_the_third_slash() {
    assert_eq!(context_path_of("https://host/context/actuator"), "/context/actuator");
    assert_eq!(context_path_of("https://host/actuator"), "/actuator");
    assert_eq!(context_path_of("https://host/"), "/");
    assert_eq!(context_path_of("https://host"), "");
    assert_eq!(context_path_of("host/a/b/c/d"), "/c/d");
    assert_eq!(context_path_of(""), "");
}

#[test]
fn origin_and_context_path_make_up_an_address() {
    for url in ["https://host/context/actuator", "http://h:1/a", "http://h", "http://h/"] {
        assert_eq!(format!("{}{}", origin_of(url), context_path_of(url)), url);
    }
}

#[test]
fn an_upstream_address_has_no_slash_at_its_end() {
    assert_eq!(upstream_url_of("http://h/actuator", "env", None), "http://h/actuator/env");
    assert_eq!(upstream_url_of("http://h/actuator", "env/", None), "http://h/actuator/env");
    assert_eq!(upstream_url_of("http://h/actuator", "env//", None), "http://h/actuator/env");
    assert_eq!(
        upstream_url_of("http://h/actuator", "metrics/jvm.memory/", Some("tag=area:heap")),
        "http://h/actuator/metrics/jvm.memory?tag=area:heap"
    );
    assert_eq!(upstream_url_of("http://h/actuator", "/", Some("")), "http://h/actuator/?");
}

#[test]
fn first_slashes_are_trimmed() {
    assert_eq!(trim_first_slashes("//a/b/"), "a/b/");
    assert_eq!(trim_first_slashes("/"), "");
    assert_eq!(trim_first_slashes("a"), "a");
}

#[test]
fn texts_are_ordered_as_the_language_orders_them() {
    let texts = ["", "a", "ab", "b", "B", "10", "9", "\u{e9}", "\u{ffff}", "\u{1f600}", "a\u{0}"];
    for a in texts {
        for b in texts {
            assert_eq!(text_before(a, b), a < b);
            assert_eq!(same_text(a, b), a == b);
        }
    }
}

#[test]
fn texts_are_searched_and_compared() {
    assert!(has_text("text/html,application/json", "application/json"));
    assert!(!has_text("text/htm", "text/html"));
    assert!(has_text("aab", "ab"));
    assert!(has_text("", ""));
    assert!(same_ignoring_case("Content-Length", "content-length"));
    assert!(!same_ignoring_case("host", "hosts"));
    assert!(!same_ignoring_case("\u{c9}", "\u{e9}"));
    assert!(!same_ignoring_case("[", "{"));
}
