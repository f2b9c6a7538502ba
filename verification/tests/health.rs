use sbalite::exchange::Exchange;
use sbalite::health::{check_health, check_health_at, hoist_components, read_health_reply};
use sbalite::json::{parse_json, Json};
use sbalite::model::StatusInfoView;

fn json(text: &str) -> Json {
    parse_json(text.as_bytes()).unwrap()
}

fn answered(status: u16, body: &str) -> Exchange {
    Exchange::Answered {
        status,
        body: Some(body.as_bytes().to_vec()),
    }
}

fn health(status: u16, body: &str) -> StatusInfoView {
    check_health_at("http://host/actuator", answered(status, body), "now".to_string())
}

#[test]
fn a_reported_status_is_taken_over() {
    let info = health(200, r#"{"status": "UP"}"#);
    assert_eq!(info.status, "UP");
    assert!(info.details.same(&json("{}")));
    assert!(!info.out_of_service);
    assert!(!info.restricted);
}

#[test]
fn a_health_payload_counts_whatever_the_http_status() {
    let body = r#"{"status": "DOWN", "components": {"db": {"status": "DOWN"}}}"#;
    for code in [200, 404, 503] {
        let info = health(code, body);
        assert_eq!(info.status, "DOWN");
        assert!(info.details.same(&json(r#"{"db": {"status": "DOWN"}}"#)));
    }
}

#[test]
fn components_are_hoisted_beside_the_other_fields() {
    let details = hoist_components(json(
        r#"{"status": "UP", "groups": ["liveness"], "components": {"db": 1, "ping": 2}}"#,
    ));
    assert!(details.same(&json(r#"{"db": 1, "ping": 2, "groups": ["liveness"]}"#)));
}

#[test]
fn a_field_wins_over_a_component_of_its_name() {
    let details = hoist_components(json(
        r#"{"status": "UP", "x": "field", "components": {"x": "component", "status": "kept"}}"#,
    ));
    assert!(details.same(&json(r#"{"x": "field", "status": "kept"}"#)));
}

#[test]
fn components_that_are_no_object_stay_where_they_are() {
    let details = hoist_components(json(r#"{"status": "UP", "components": [1], "a": 2}"#));
    assert!(details.same(&json(r#"{"components": [1], "a": 2}"#)));
    assert!(hoist_components(json("[1]")).same(&json("[1]")));
}

#[test]
fn another_answer_is_told_as_down() {
    let info = health(503, "<html>busy</html>");
    assert_eq!(info.status, "DOWN");
    assert!(info.details.same(&json(
        r#"{"path": "http://host/actuator/health", "error": "Service Unavailable",
            "status": 503, "timestamp": "now"}"#
    )));
    let unread = check_health_at(
        "http://host/actuator",
        Exchange::Answered { status: 404, body: None },
        "now".to_string(),
    );
    assert_eq!(unread.details.get("error").unwrap().as_text(), Some("Not Found"));
    let numeric = health(200, r#"{"status": 1}"#);
    assert_eq!(numeric.status, "DOWN");
    assert_eq!(numeric.details.get("error").unwrap().as_text(), Some("OK"));
}

#[test]
fn a_status_without_a_phrase_is_an_error() {
    let info = health(599, "{}");
    assert_eq!(info.details.get("error").unwrap().as_text(), Some("Error"));
    let given = read_health_reply(
        "u",
        500,
        Some("Broken".to_string()),
        Json::Null,
        "t".to_string(),
    );
    assert_eq!(given.details.get("error").unwrap().as_text(), Some("Broken"));
}

#[test]
fn failures_are_told_as_exceptions() {
    for (timed_out, not_connected, name) in [
        (true, false, "java.util.concurrent.TimeoutException"),
        (true, true, "java.util.concurrent.TimeoutException"),
        (false, true, "java.net.ConnectException"),
        (false, false, "java.io.IOException"),
    ] {
        let info = check_health(
            "http://host/actuator",
            Exchange::Failed {
                timed_out,
                not_connected,
                message: "boom".to_string(),
            },
        );
        assert_eq!(info.status, "OFFLINE");
        assert_eq!(info.details.get("exception").unwrap().as_text(), Some(name));
        assert_eq!(info.details.get("message").unwrap().as_text(), Some("boom"));
    }
}

#[test]
fn a_placeholder_tells_the_time() {
    let info = check_health("http://host/actuator", answered(404, "{}"));
    let told = info.details.get("timestamp").unwrap().as_text().unwrap().to_string();
    assert_eq!(told.len(), 27);
    assert!(told.ends_with('Z'));
    assert_eq!(&told[4..5], "-");
    assert_eq!(&told[10..11], "T");
    assert_eq!(&told[19..20], ".");
    let parsed = chrono::DateTime::parse_from_rfc3339(&told).unwrap();
    let age = chrono::Utc::now().signed_duration_since(parsed);
    assert!(age.num_seconds() >= 0 && age.num_seconds() < 60);
}
