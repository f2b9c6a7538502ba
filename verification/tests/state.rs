use sbalite::config::{InstanceConfig, InstancesConfig};
use sbalite::groups::group_instances;
use sbalite::json::{parse_json, Json};
use sbalite::model::{EndpointView, InstanceView, JournalEvent, JournalEventKind};
use sbalite::model::{RegistrationView, StatusInfoView};
use sbalite::state::{build_application_groups, MonitorState};

fn json(text: &str) -> Json {
    parse_json(text.as_bytes()).unwrap()
}

fn instance(name: &str) -> InstanceConfig {
    InstanceConfig {
        name: name.to_string(),
        actuator_base_url: format!("http://{name}/actuator"),
        bearer_token: None,
    }
}

fn monitor(names: &[&str], journal_max_events: Option<usize>) -> MonitorState {
    let mut cfg = InstancesConfig::default();
    cfg.server.journal_max_events = journal_max_events;
    cfg.instances = names.iter().map(|n| instance(n)).collect();
    MonitorState::new(cfg)
}

fn named_view(id: &str, name: &str, status: &str, at: &str) -> InstanceView {
    InstanceView {
        build_version: Some(format!("{id}-1")),
        endpoints: vec![EndpointView {
            id: "health".to_string(),
            url: "http://h".to_string(),
        }],
        id: id.to_string(),
        info: json(r#"{"a": 1}"#),
        registered: true,
        registration: RegistrationView {
            health_url: "http://h/health".to_string(),
            management_url: "http://h".to_string(),
            metadata: json("{}"),
            name: name.to_string(),
            service_url: "http://h".to_string(),
            source: "static".to_string(),
        },
        status_info: StatusInfoView {
            status: status.to_string(),
            details: json("{}"),
            out_of_service: false,
            restricted: false,
        },
        status_timestamp: at.to_string(),
        tags: json("{}"),
        version: 1,
    }
}

fn view(id: &str, status: &str) -> InstanceView {
    named_view(id, id, status, "2024-01-01T00:00:00.000000Z")
}

fn kind_name(kind: &JournalEventKind) -> &'static str {
    match kind {
        JournalEventKind::Registered { .. } => "REGISTERED",
        JournalEventKind::StatusChanged { .. } => "STATUS_CHANGED",
        JournalEventKind::EndpointsDetected { .. } => "ENDPOINTS_DETECTED",
        JournalEventKind::InfoChanged { .. } => "INFO_CHANGED",
    }
}

fn told(events: &[JournalEvent]) -> Vec<(String, u64, &'static str)> {
    events
        .iter()
        .map(|e| (e.instance.clone(), e.version, kind_name(&e.kind)))
        .collect()
}

fn info_event() -> JournalEventKind {
    JournalEventKind::InfoChanged { info: Json::Null }
}

#[test]
fn a_first_poll_registers_and_publishes_nothing() {
    let mut state = monitor(&["svc"], None);
    let report = state.poll_once(vec![view("svc", "UP")]);
    assert_eq!(
        told(&report.recorded),
        vec![
            ("svc".to_string(), 0, "REGISTERED"),
            ("svc".to_string(), 1, "STATUS_CHANGED"),
            ("svc".to_string(), 2, "ENDPOINTS_DETECTED"),
            ("svc".to_string(), 3, "INFO_CHANGED"),
        ]
    );
    assert!(report.published.is_empty());
    assert_eq!(told(&state.journal_events()), told(&report.recorded));
    assert_eq!(state.instance("svc").unwrap().version, 1);
}

#[test]
fn a_quiet_poll_tells_nothing() {
    let mut state = monitor(&["svc"], None);
    state.poll_once(vec![view("svc", "UP")]);
    let report = state.poll_once(vec![view("svc", "UP")]);
    assert!(report.recorded.is_empty());
    assert!(report.published.is_empty());
    assert_eq!(state.journal_events().len(), 4);
    assert_eq!(state.instance("svc").unwrap().version, 2);
}

#[test]
fn a_changed_status_is_recorded_and_published() {
    let mut state = monitor(&["flaky", "steady"], None);
    state.poll_once(vec![view("flaky", "UP"), view("steady", "UP")]);
    let report = state.poll_once(vec![view("flaky", "DOWN"), view("steady", "UP")]);
    assert_eq!(
        told(&report.recorded),
        vec![("flaky".to_string(), 4, "STATUS_CHANGED")]
    );
    assert_eq!(report.published.len(), 1);
    assert_eq!(report.published[0].name, "flaky");
    assert_eq!(report.published[0].status, "DOWN");
    assert_eq!(report.published[0].instances[0].version, 2);
}

#[test]
fn other_changes_are_recorded_but_not_published() {
    let mut state = monitor(&["svc"], None);
    state.poll_once(vec![view("svc", "UP")]);
    let mut changed = view("svc", "UP");
    changed.info = json(r#"{"a": 2}"#);
    changed.endpoints.clear();
    let report = state.poll_once(vec![changed]);
    assert_eq!(
        told(&report.recorded),
        vec![
            ("svc".to_string(), 4, "ENDPOINTS_DETECTED"),
            ("svc".to_string(), 5, "INFO_CHANGED"),
        ]
    );
    assert!(report.published.is_empty());
}

#[test]
fn info_with_the_same_fields_is_no_change() {
    let mut state = monitor(&["svc"], None);
    let mut first = view("svc", "UP");
    first.info = json(r#"{"a": 1, "b": [0.0]}"#);
    state.poll_once(vec![first]);
    let mut second = view("svc", "UP");
    second.info = json(r#"{"b": [-0.0], "a": 1}"#);
    assert!(state.poll_once(vec![second]).recorded.is_empty());
}

#[test]
fn details_of_a_status_do_not_count_as_a_change() {
    let mut state = monitor(&["svc"], None);
    state.poll_once(vec![view("svc", "UP")]);
    let mut second = view("svc", "UP");
    second.status_info.details = json(r#"{"db": 1}"#);
    assert!(state.poll_once(vec![second]).recorded.is_empty());
    let kept = state.instance("svc").unwrap();
    assert!(kept.status_info.details.same(&json(r#"{"db": 1}"#)));
}

#[test]
fn recorded_events_tell_the_time() {
    let mut state = monitor(&["svc"], None);
    let report = state.poll_once(vec![view("svc", "UP")]);
    for event in &report.recorded {
        assert_eq!(event.timestamp.len(), 27);
        assert!(chrono::DateTime::parse_from_rfc3339(&event.timestamp).is_ok());
    }
}

#[test]
fn the_journal_keeps_the_newest_events() {
    let mut state = monitor(&[], Some(3));
    for i in 0..5 {
        let event = state.record_at("svc".to_string(), info_event(), format!("t{i}"));
        assert_eq!(event.version, i);
    }
    let kept: Vec<(u64, String)> = state
        .journal_events()
        .iter()
        .map(|e| (e.version, e.timestamp.clone()))
        .collect();
    assert_eq!(
        kept,
        vec![
            (2, "t2".to_string()),
            (3, "t3".to_string()),
            (4, "t4".to_string())
        ]
    );
}

#[test]
fn a_journal_without_room_stays_empty_and_counts_on() {
    let mut state = monitor(&[], Some(0));
    assert_eq!(state.record_journal_event("a".to_string(), info_event()).version, 0);
    assert_eq!(state.record_journal_event("a".to_string(), info_event()).version, 1);
    assert!(state.journal_events().is_empty());
}

#[test]
fn versions_are_counted_per_instance() {
    let mut state = monitor(&[], None);
    let names = ["a", "b", "a", "a", "b"];
    let versions: Vec<u64> = names
        .iter()
        .map(|n| state.record_journal_event(n.to_string(), info_event()).version)
        .collect();
    assert_eq!(versions, vec![0, 0, 1, 2, 1]);
}

#[test]
fn the_journal_holds_five_thousand_events_by_default() {
    let mut state = monitor(&[], None);
    for _ in 0..5001 {
        state.record_at("svc".to_string(), info_event(), "t".to_string());
    }
    let events = state.journal_events();
    assert_eq!(events.len(), 5000);
    assert_eq!(events[0].version, 1);
}

#[test]
fn the_later_of_two_configurations_of_one_name_counts() {
    let mut cfg = InstancesConfig::default();
    cfg.instances = vec![instance("a"), instance("b"), instance("a")];
    cfg.instances[2].actuator_base_url = "http://later/actuator".to_string();
    cfg.instances[2].bearer_token = Some("abc123".to_string());
    let state = MonitorState::new(cfg);
    assert_eq!(state.configs().len(), 2);
    assert_eq!(
        state.actuator_target("a"),
        Some(("http://later/actuator".to_string(), Some("abc123".to_string())))
    );
    assert_eq!(
        state.actuator_target("b"),
        Some(("http://b/actuator".to_string(), None))
    );
    assert_eq!(state.actuator_target("c"), None);
}

#[test]
fn applications_gather_the_instances_of_one_name() {
    let mut state = monitor(&[], None);
    state.poll_once(vec![
        named_view("z", "shop", "DOWN", "2024-01-01T00:00:02.000000Z"),
        named_view("m", "mail", "OFFLINE", "2024-01-01T00:00:00.000000Z"),
        named_view("a", "shop", "UP", "2024-01-01T00:00:01.000000Z"),
    ]);
    let groups = build_application_groups(&state);
    assert_eq!(groups.len(), 2);
    let shop = groups.iter().find(|g| g.name == "shop").unwrap();
    let ids: Vec<&str> = shop.instances.iter().map(|i| i.id.as_str()).collect();
    assert_eq!(ids, vec!["a", "z"]);
    assert_eq!(shop.status, "UP");
    assert_eq!(shop.status_timestamp, "2024-01-01T00:00:02.000000Z");
    assert_eq!(shop.build_version.as_deref(), Some("a-1"));
    let mail = groups.iter().find(|g| g.name == "mail").unwrap();
    assert_eq!(mail.status, "OFFLINE");
}

#[test]
fn an_application_is_down_unless_up_or_offline() {
    let status = |statuses: &[&str]| {
        let views: Vec<InstanceView> = statuses
            .iter()
            .enumerate()
            .map(|(i, s)| named_view(&format!("i{i}"), "app", s, "t"))
            .collect();
        group_instances(&views)[0].status.clone()
    };
    assert_eq!(status(&["UP"]), "UP");
    assert_eq!(status(&["OFFLINE", "UP", "DOWN"]), "UP");
    assert_eq!(status(&["OFFLINE", "OFFLINE"]), "OFFLINE");
    assert_eq!(status(&["OFFLINE", "DOWN"]), "DOWN");
    assert_eq!(status(&["OUT_OF_SERVICE"]), "DOWN");
    assert!(group_instances(&vec![]).is_empty());
}

#[test]
fn a_fresh_monitor_has_room() {
    let mut state = monitor(&["svc"], None);
    assert!(state.has_room_for(1000));
    let mut late = view("svc", "UP");
    late.version = 7;
    state.poll_once(vec![late]);
    assert_eq!(state.instance("svc").unwrap().version, 1);
    assert!(state.has_room_for(1));
    assert!(!state.has_room_for(usize::MAX));
}

#[test]
fn room_for_one_is_enough_where_each_instance_is_polled_once() {
    let mut state = monitor(&["a", "b", "c"], None);
    assert!(state.has_room_for(1));
    let report = state.poll_once(vec![view("a", "UP"), view("b", "UP"), view("c", "UP")]);
    assert_eq!(report.recorded.len(), 12);
    for id in ["a", "b", "c"] {
        assert_eq!(state.instance(id).unwrap().version, 1);
    }
}
