use sbalite::config::InstanceConfig;
use sbalite::discovery::{discover_endpoints, endpoints_in};
use sbalite::exchange::Exchange;
use sbalite::json::{parse_json, Json};
use sbalite::model::InstanceView;
use sbalite::probe::{advance_probe, advance_probe_at, begin_probe, ActuatorRequest, Probe, ProbeStep};

fn json(text: &str) -> Json {
    parse_json(text.as_bytes()).unwrap()
}

fn answered(body: &str) -> Exchange {
    Exchange::Answered {
        status: 200,
        body: Some(body.as_bytes().to_vec()),
    }
}

fn failed() -> Exchange {
    Exchange::Failed {
        timed_out: false,
        not_connected: true,
        message: "refused".to_string(),
    }
}

fn config() -> InstanceConfig {
    InstanceConfig {
        name: "svc".to_string(),
        actuator_base_url: "https://host:8443/ctx/actuator".to_string(),
        bearer_token: Some("token".to_string()),
    }
}

fn sent(step: ProbeStep) -> (Probe, ActuatorRequest) {
    match step {
        ProbeStep::Send { probe, request } => (probe, request),
        ProbeStep::Finished { .. } => panic!("the probe is over"),
    }
}

fn finished(step: ProbeStep) -> InstanceView {
    match step {
        ProbeStep::Finished { view } => view,
        ProbeStep::Send { .. } => panic!("the probe goes on"),
    }
}

const LINKS: &str = r#"{"_links": {
    "self": {"href": "http://elsewhere/actuator"},
    "info": {"href": "http://elsewhere/actuator/info"},
    "health": {"href": "http://elsewhere/actuator/health"},
    "broken": {"templated": true},
    "odd": {"href": 5}
}}"#;

#[test]
fn endpoints_are_listed_in_the_order_of_their_names() {
    let endpoints = endpoints_in(&json(LINKS));
    let found: Vec<(&str, &str)> = endpoints
        .iter()
        .map(|e| (e.id.as_str(), e.url.as_str()))
        .collect();
    assert_eq!(
        found,
        vec![
            ("health", "http://elsewhere/actuator/health"),
            ("info", "http://elsewhere/actuator/info"),
        ]
    );
}

#[test]
fn without_links_there_are_no_endpoints() {
    assert!(discover_endpoints(&failed()).is_empty());
    assert!(discover_endpoints(&answered("not json")).is_empty());
    assert!(discover_endpoints(&answered("{}")).is_empty());
    assert!(discover_endpoints(&answered(r#"{"_links": []}"#)).is_empty());
    assert!(discover_endpoints(&Exchange::Answered { status: 200, body: None }).is_empty());
    let refused = Exchange::Answered {
        status: 401,
        body: Some(LINKS.as_bytes().to_vec()),
    };
    assert_eq!(discover_endpoints(&refused).len(), 2);
}

#[test]
fn a_probe_asks_root_health_and_info() {
    let cfg = config();
    let (probe, request) = sent(begin_probe(&cfg));
    assert_eq!(request.url, "https://host:8443/ctx/actuator");
    assert_eq!(request.bearer_token.as_deref(), Some("token"));
    assert_eq!(request.timeout_secs, 5);

    let (probe, request) = sent(advance_probe(&cfg, probe, answered(LINKS)));
    assert_eq!(request.url, "https://host:8443/ctx/actuator/health");
    assert_eq!(request.bearer_token.as_deref(), Some("token"));
    assert_eq!(request.timeout_secs, 9);

    let (probe, request) = sent(advance_probe(&cfg, probe, answered(r#"{"status": "UP"}"#)));
    assert_eq!(request.url, "https://host:8443/ctx/actuator/info");
    assert_eq!(request.timeout_secs, 5);

    let view = finished(advance_probe_at(
        &cfg,
        probe,
        answered(r#"{"build": {"version": "1.2.3"}}"#),
        "2024-01-01T00:00:00.000000Z".to_string(),
    ));
    assert_eq!(view.id, "svc");
    assert_eq!(view.build_version.as_deref(), Some("1.2.3"));
    assert_eq!(view.endpoints.len(), 2);
    assert!(view.info.same(&json(r#"{"build": {"version": "1.2.3"}}"#)));
    assert!(view.registered);
    assert_eq!(view.status_info.status, "UP");
    assert_eq!(view.status_timestamp, "2024-01-01T00:00:00.000000Z");
    assert!(view.tags.same(&json("{}")));
    assert_eq!(view.version, 1);
    assert_eq!(view.registration.name, "svc");
    assert_eq!(view.registration.health_url, "https://host:8443/ctx/actuator/health");
    assert_eq!(view.registration.management_url, "https://host:8443/ctx/actuator");
    assert_eq!(view.registration.service_url, "https://host:8443");
    assert_eq!(view.registration.source, "static");
    assert!(view
        .registration
        .metadata
        .same(&json(r#"{"management.context-path": "/ctx/actuator"}"#)));
}

#[test]
fn a_probe_without_info_endpoint_ends_after_health() {
    let cfg = config();
    let (probe, _) = sent(begin_probe(&cfg));
    let (probe, _) = sent(advance_probe(&cfg, probe, failed()));
    let view = finished(advance_probe(&cfg, probe, failed()));
    assert_eq!(view.status_info.status, "OFFLINE");
    assert!(view.info.same(&json("{}")));
    assert_eq!(view.build_version, None);
    assert!(view.endpoints.is_empty());
}

#[test]
fn info_that_is_no_json_is_null_and_missing_info_is_empty() {
    let cfg = config();
    let probe = || {
        let (probe, _) = sent(begin_probe(&cfg));
        let (probe, _) = sent(advance_probe(&cfg, probe, answered(LINKS)));
        sent(advance_probe(&cfg, probe, answered(r#"{"status": "UP"}"#))).0
    };
    let odd = finished(advance_probe(&cfg, probe(), answered("oops")));
    assert!(odd.info.same(&Json::Null));
    let missing = finished(advance_probe(&cfg, probe(), failed()));
    assert!(missing.info.same(&json("{}")));
}
