use sbalite::config::{InstanceConfig, InstancesConfig};
use sbalite::exchange::Exchange;
use sbalite::handlers::{applications_handler, health_groups_handler, instance_detail_handler};
use sbalite::handlers::{journal_handler, negotiate, ApplicationsReply, InstanceReply};
use sbalite::handlers::{JournalReply, Wanted};
use sbalite::json::{parse_json, Json};
use sbalite::probe::{advance_probe, begin_probe, ProbeStep};
use sbalite::state::MonitorState;

const BROWSER: &str = "text/html,application/xhtml+xml,*/*;q=0.8";

fn json(text: &str) -> Json {
    parse_json(text.as_bytes()).unwrap()
}

fn polled(health: &str) -> MonitorState {
    let config = InstanceConfig {
        name: "svc".to_string(),
        actuator_base_url: "http://svc/actuator".to_string(),
        bearer_token: None,
    };
    let mut cfg = InstancesConfig::default();
    cfg.instances.push(config.clone());
    let mut state = MonitorState::new(cfg);
    let mut bodies = vec!["{}", health].into_iter();
    let mut step = begin_probe(&config);
    while let ProbeStep::Send { probe, .. } = step {
        let body = bodies.next().unwrap().as_bytes().to_vec();
        step = advance_probe(&config, probe, Exchange::Answered { status: 200, body: Some(body) });
    }
    match step {
        ProbeStep::Finished { view } => state.poll_once(vec![view]),
        ProbeStep::Send { .. } => unreachable!(),
    };
    state
}

#[test]
fn a_stream_goes_before_a_page_and_a_page_before_data() {
    assert_eq!(negotiate("text/event-stream"), Wanted::EventStream);
    assert_eq!(negotiate("text/html, text/event-stream"), Wanted::EventStream);
    assert_eq!(negotiate(BROWSER), Wanted::Page);
    assert_eq!(negotiate("application/json"), Wanted::Data);
    assert_eq!(negotiate("*/*"), Wanted::Data);
    assert_eq!(negotiate(""), Wanted::Data);
}

#[test]
fn applications_are_data_by_default() {
    let state = MonitorState::new(InstancesConfig::default());
    match applications_handler("*/*", &state) {
        ApplicationsReply::Applications { groups } => assert!(groups.is_empty()),
        other => panic!("unexpected {other:?}"),
    }
    match applications_handler("", &polled(r#"{"status": "UP"}"#)) {
        ApplicationsReply::Applications { groups } => {
            assert_eq!(groups.len(), 1);
            assert_eq!(groups[0].name, "svc");
            assert_eq!(groups[0].status, "UP");
        }
        other => panic!("unexpected {other:?}"),
    }
}

#[test]
fn applications_are_a_page_for_a_browser_and_a_stream_on_demand() {
    let state = MonitorState::new(InstancesConfig::default());
    assert!(matches!(applications_handler("text/html", &state), ApplicationsReply::Page));
    assert!(matches!(
        applications_handler("text/event-stream", &state),
        ApplicationsReply::EventStream
    ));
}

#[test]
fn the_journal_is_answered_like_the_applications() {
    let state = polled(r#"{"status": "UP"}"#);
    match journal_handler("application/json", &state) {
        JournalReply::Events { events } => assert_eq!(events.len(), 4),
        other => panic!("unexpected {other:?}"),
    }
    assert!(matches!(journal_handler(BROWSER, &state), JournalReply::Page));
    assert!(matches!(
        journal_handler("text/event-stream", &state),
        JournalReply::EventStream
    ));
}

#[test]
fn an_instance_is_found_by_its_name() {
    let state = polled(r#"{"status": "UP"}"#);
    match instance_detail_handler("*/*", &state, "svc") {
        InstanceReply::Instance { view } => assert_eq!(view.id, "svc"),
        other => panic!("unexpected {other:?}"),
    }
    assert!(matches!(
        instance_detail_handler("*/*", &state, "other"),
        InstanceReply::NotFound
    ));
    assert!(matches!(
        instance_detail_handler(BROWSER, &state, "other"),
        InstanceReply::Page
    ));
    assert!(matches!(
        instance_detail_handler("text/event-stream", &state, "svc"),
        InstanceReply::Instance { .. }
    ));
}

#[test]
fn health_groups_come_from_the_details() {
    let state = polled(r#"{"status": "UP", "groups": ["liveness", "readiness"]}"#);
    let groups = health_groups_handler(&state, "svc").unwrap();
    assert!(groups.same(&json(r#"["liveness", "readiness"]"#)));
    let none = health_groups_handler(&polled(r#"{"status": "UP"}"#), "svc").unwrap();
    assert!(none.same(&json("[]")));
    assert!(health_groups_handler(&state, "other").is_none());
}
