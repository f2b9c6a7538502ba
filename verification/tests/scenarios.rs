use base64::Engine;
use sbalite::auth::{require_basic_auth, AuthConfig, AuthDecision};
use sbalite::config::{InstanceConfig, InstancesConfig};
use sbalite::exchange::Exchange;
use sbalite::handlers::{applications_handler, ApplicationsReply};
use sbalite::json::parse_json;
use sbalite::probe::{advance_probe, begin_probe, ProbeStep};
use sbalite::proxy::{instance_actuator_proxy, proxy_reply, Header, ProxyOutcome, ProxyStart};
use sbalite::state::{MonitorState, PollReport};
use sbalite::static_files::spa_shell;

fn answered(body: String) -> Exchange {
    Exchange::Answered {
        status: 200,
        body: Some(body.into_bytes()),
    }
}

/// An actuator that exposes its health, with the given status.
fn answer_of_actuator(base_url: &str, url: &str, status: &str) -> Exchange {
    if url == base_url {
        answered(
            r#"{"_links": {"self": {"href": "/actuator"}, "health": {"href": "/actuator/health"}}}"#
                .to_string(),
        )
    } else if url == format!("{base_url}/health") {
        answered(format!(r#"{{"status": "{status}"}}"#))
    } else {
        panic!("unexpected call to {url}")
    }
}

fn run_poll_once(state: &mut MonitorState, status: &str) -> PollReport {
    let mut views = Vec::new();
    for cfg in state.configs().clone() {
        let mut step = begin_probe(&cfg);
        let view = loop {
            match step {
                ProbeStep::Send { probe, request } => {
                    let exchange = answer_of_actuator(&cfg.actuator_base_url, &request.url, status);
                    step = advance_probe(&cfg, probe, exchange);
                }
                ProbeStep::Finished { view } => break view,
            }
        };
        views.push(view);
    }
    assert!(state.has_room_for(1));
    state.poll_once(views)
}

fn test_monitor_state(instances: Vec<InstanceConfig>) -> MonitorState {
    MonitorState::new(InstancesConfig {
        server: Default::default(),
        instances,
    })
}

fn fake_instance(name: &str) -> InstanceConfig {
    InstanceConfig {
        name: name.to_string(),
        actuator_base_url: "http://127.0.0.1:54321/actuator".to_string(),
        bearer_token: None,
    }
}

fn basic_auth(user: &str, password: &str) -> String {
    let text = format!("{user}:{password}");
    let encoded = base64::engine::general_purpose::STANDARD.encode(text);
    format!("Basic {encoded}")
}

#[test]
fn applications_returns_json_by_default() {
    let state = test_monitor_state(vec![]);
    assert!(matches!(
        applications_handler("*/*", &state),
        ApplicationsReply::Applications { groups } if groups.is_empty()
    ));
}

#[test]
fn applications_returns_html_shell_on_browser_refresh() {
    let state = test_monitor_state(vec![]);
    assert!(matches!(
        applications_handler("text/html", &state),
        ApplicationsReply::Page
    ));
    let shell = spa_shell(Some(b"<!doctype html><html></html>".to_vec())).unwrap();
    assert!(shell.content_type.starts_with("text/html"));
    let body = String::from_utf8(shell.body).unwrap();
    assert!(body.to_lowercase().contains("<html"));
}

#[test]
fn basic_auth_rejects_without_credentials_and_accepts_with_them() {
    let auth = AuthConfig {
        credentials: Some(("admin".to_string(), "secret".to_string())),
    };
    match require_basic_auth(&auth, None) {
        AuthDecision::Refuse {
            status,
            www_authenticate,
        } => {
            assert_eq!(status, 401);
            assert!(!www_authenticate.is_empty());
        }
        AuthDecision::Proceed => panic!("the request passed"),
    }
    assert!(matches!(
        require_basic_auth(&auth, Some(&basic_auth("admin", "secret"))),
        AuthDecision::Proceed
    ));
    assert!(matches!(
        require_basic_auth(&auth, Some(&basic_auth("admin", "not-the-password"))),
        AuthDecision::Refuse { status: 401, .. }
    ));
}

#[test]
fn actuator_proxy_forwards_requests_to_the_real_upstream() {
    let state = test_monitor_state(vec![fake_instance("fake-service")]);
    let start = instance_actuator_proxy(&state, "fake-service", "health", None, vec![]);
    let request = match start {
        ProxyStart::Forward { request } => request,
        ProxyStart::Reply { reply } => panic!("answered {}", reply.status),
    };
    let base_url = "http://127.0.0.1:54321/actuator";
    let outcome = match answer_of_actuator(base_url, &request.url, "UP") {
        Exchange::Answered { status, body } => ProxyOutcome::Answered {
            status,
            headers: vec![Header {
                name: "content-type".to_string(),
                value: b"application/json".to_vec(),
            }],
            body,
        },
        Exchange::Failed { .. } => ProxyOutcome::Unreachable,
    };
    let reply = proxy_reply(outcome);
    assert_eq!(reply.status, 200);
    let body = parse_json(&reply.body).unwrap();
    assert!(body.same(&parse_json(br#"{"status": "UP"}"#).unwrap()));
}

#[test]
fn actuator_proxy_returns_404_for_an_unknown_instance() {
    let state = test_monitor_state(vec![]);
    match instance_actuator_proxy(&state, "does-not-exist", "health", None, vec![]) {
        ProxyStart::Reply { reply } => assert_eq!(reply.status, 404),
        ProxyStart::Forward { request } => panic!("forwarded to {}", request.url),
    }
}

#[test]
fn applications_sse_delivers_a_real_event_when_status_changes() {
    let mut state = test_monitor_state(vec![fake_instance("flaky-service")]);
    assert!(run_poll_once(&mut state, "UP").published.is_empty());
    assert!(matches!(
        applications_handler("text/event-stream", &state),
        ApplicationsReply::EventStream
    ));
    let report = run_poll_once(&mut state, "DOWN");
    assert_eq!(report.published.len(), 1);
    assert_eq!(report.published[0].name, "flaky-service");
    assert_eq!(report.published[0].status, "DOWN");
    assert_eq!(report.published[0].instances[0].status_info.status, "DOWN");
}
