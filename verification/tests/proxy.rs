use sbalite::config::{InstanceConfig, InstancesConfig};
use sbalite::proxy::{instance_actuator_proxy, is_hop_by_hop, proxy_reply};
use sbalite::proxy::{Header, ProxyOutcome, ProxyStart};
use sbalite::state::MonitorState;

fn header(name: &str, value: &str) -> Header {
    Header {
        name: name.to_string(),
        value: value.as_bytes().to_vec(),
    }
}

fn names(headers: &[Header]) -> Vec<&str> {
    headers.iter().map(|h| h.name.as_str()).collect()
}

fn monitor() -> MonitorState {
    let mut cfg = InstancesConfig::default();
    cfg.instances.push(InstanceConfig {
        name: "svc".to_string(),
        actuator_base_url: "http://svc/actuator".to_string(),
        bearer_token: Some("token".to_string()),
    });
    MonitorState::new(cfg)
}

#[test]
fn an_unknown_instance_is_answered_404() {
    match instance_actuator_proxy(&monitor(), "does-not-exist", "health", None, vec![]) {
        ProxyStart::Reply { reply } => {
            assert_eq!(reply.status, 404);
            assert!(reply.headers.is_empty());
            assert!(reply.body.is_empty());
        }
        ProxyStart::Forward { .. } => panic!("the request was handed on"),
    }
}

#[test]
fn a_request_is_handed_on_with_the_token_of_the_instance() {
    let headers = vec![
        header("host", "localhost:9001"),
        header("accept", "application/json"),
        header("Authorization", "Basic YWRtaW46c2VjcmV0"),
        header("connection", "keep-alive"),
        header("cookie", "a"),
        header("cookie", "b"),
        header("TE", "trailers"),
    ];
    match instance_actuator_proxy(&monitor(), "svc", "loggers/root/", Some("x=1"), headers) {
        ProxyStart::Forward { request } => {
            assert_eq!(request.url, "http://svc/actuator/loggers/root?x=1");
            assert_eq!(request.bearer_token.as_deref(), Some("token"));
            assert_eq!(names(&request.headers), vec!["accept", "cookie", "cookie"]);
            assert_eq!(request.headers[2].value, b"b".to_vec());
        }
        ProxyStart::Reply { .. } => panic!("the request was answered"),
    }
}

#[test]
fn an_answer_passes_through() {
    let reply = proxy_reply(ProxyOutcome::Answered {
        status: 503,
        headers: vec![
            header("content-type", "application/json"),
            header("content-length", "17"),
            header("transfer-encoding", "chunked"),
            header("x-a", "1"),
            header("X-A", "2"),
        ],
        body: Some(br#"{"status": "DOWN"}"#.to_vec()),
    });
    assert_eq!(reply.status, 503);
    assert_eq!(reply.body, br#"{"status": "DOWN"}"#.to_vec());
    assert_eq!(names(&reply.headers), vec!["content-type", "x-a", "X-A"]);
    assert_eq!(reply.headers[1].value, b"1".to_vec());
    assert_eq!(reply.headers[2].value, b"2".to_vec());
}

#[test]
fn every_value_of_a_repeated_header_comes_back() {
    let reply = proxy_reply(ProxyOutcome::Answered {
        status: 200,
        headers: vec![header("set-cookie", "a=1"), header("set-cookie", "b=2")],
        body: None,
    });
    assert_eq!(names(&reply.headers), vec!["set-cookie", "set-cookie"]);
    assert_eq!(reply.headers[0].value, b"a=1".to_vec());
    assert_eq!(reply.headers[1].value, b"b=2".to_vec());
}

#[test]
fn what_goes_wrong_is_told_by_the_status() {
    assert_eq!(proxy_reply(ProxyOutcome::BodyUnreadable).status, 400);
    assert_eq!(proxy_reply(ProxyOutcome::Unreachable).status, 502);
    let unread = proxy_reply(ProxyOutcome::Answered {
        status: 200,
        headers: vec![],
        body: None,
    });
    assert_eq!(unread.status, 200);
    assert!(unread.body.is_empty());
}

#[test]
fn hop_by_hop_headers_are_known_in_any_case() {
    for name in [
        "connection",
        "Keep-Alive",
        "proxy-authenticate",
        "Proxy-Authorization",
        "te",
        "trailer",
        "Transfer-Encoding",
        "UPGRADE",
    ] {
        assert!(is_hop_by_hop(name));
    }
    assert!(!is_hop_by_hop("content-type"));
    assert!(!is_hop_by_hop("authorization"));
    assert!(!is_hop_by_hop(""));
}
