use sbalite::auth::AuthConfig;
use sbalite::config::{parse_decimal, InstanceConfig, InstancesConfig, OneOrMany, ServerConfig};
use sbalite::json::Json;
use sbalite::model::JournalEventKind;
use sbalite::state::{build_application_groups, MonitorState};

fn text_of(value: &toml::Value) -> String {
    value.as_str().unwrap().to_string()
}

fn one_or_many(value: &toml::Value) -> OneOrMany {
    match value {
        toml::Value::Array(items) => OneOrMany::Many(items.iter().map(text_of).collect()),
        single => OneOrMany::One(text_of(single)),
    }
}

fn config_of(text: &str) -> InstancesConfig {
    let table: toml::Table = toml::from_str(text).unwrap();
    let mut config = InstancesConfig::default();
    if let Some(server) = table.get("server") {
        let number = |key: &str| server.get(key).map(|v| v.as_integer().unwrap());
        let text = |key: &str| server.get(key).map(text_of);
        config.server.port = number("port").map(|n| n.try_into().unwrap());
        config.server.poll_interval_secs =
            number("poll_interval_secs").map(|n| n.try_into().unwrap());
        config.server.insecure_tls = server.get("insecure_tls").map(|v| v.as_bool().unwrap());
        config.server.ca_cert_path = server.get("ca_cert_path").map(one_or_many);
        config.server.log_level = text("log_level");
        config.server.journal_max_events =
            number("journal_max_events").map(|n| n.try_into().unwrap());
        config.server.auth_username = text("auth_username");
        config.server.auth_password = text("auth_password");
    }
    if let Some(toml::Value::Array(instances)) = table.get("instance") {
        for instance in instances {
            config.instances.push(InstanceConfig {
                name: text_of(&instance["name"]),
                actuator_base_url: text_of(&instance["actuator_base_url"]),
                bearer_token: instance.get("bearer_token").map(text_of),
            });
        }
    }
    config
}

#[test]
fn ca_cert_path_accepts_a_single_string() {
    let toml_str = r#"
            [server]
            ca_cert_path = "/etc/sbalite/ca.pem"
        "#;
    let cfg = config_of(toml_str);
    let paths = cfg.server.ca_cert_path.unwrap().into_vec();
    assert_eq!(paths, vec!["/etc/sbalite/ca.pem".to_string()]);
}

#[test]
fn ca_cert_path_accepts_an_array() {
    let toml_str = r#"
            [server]
            ca_cert_path = ["/etc/sbalite/ca-a.pem", "/etc/sbalite/ca-b.pem"]
        "#;
    let cfg = config_of(toml_str);
    let paths = cfg.server.ca_cert_path.unwrap().into_vec();
    assert_eq!(
        paths,
        vec![
            "/etc/sbalite/ca-a.pem".to_string(),
            "/etc/sbalite/ca-b.pem".to_string()
        ]
    );
}

#[test]
fn a_server_section_sets_what_it_names() {
    let toml_str = r#"
            [server]
            port = 9001
            poll_interval_secs = 30
            insecure_tls = true
            log_level = "debug"
            journal_max_events = 1
            auth_username = "admin"
            auth_password = "hello"
        "#;
    let cfg = config_of(toml_str);
    assert_eq!(cfg.server.listen_port(None), 9001);
    assert_eq!(cfg.server.poll_interval(None), 30);
    assert!(cfg.server.accepts_any_certificate(None));
    assert_eq!(cfg.server.log_filter(None), "sbalite=debug");
    assert_eq!(
        AuthConfig::from_server(&cfg.server).credentials,
        Some(("admin".to_string(), "hello".to_string()))
    );
    let mut state = MonitorState::new(cfg);
    for _ in 0..2 {
        let kind = JournalEventKind::InfoChanged { info: Json::Null };
        state.record_journal_event("svc".to_string(), kind);
    }
    assert_eq!(state.journal_events().len(), 1);
}

#[test]
fn server_section_is_fully_optional() {
    let toml_str = r#"
            [[instance]]
            name = "svc"
            actuator_base_url = "https://host/actuator"
        "#;
    let cfg = config_of(toml_str);
    assert_eq!(cfg.server.port, None);
    assert_eq!(cfg.server.insecure_tls, None);
    assert_eq!(cfg.instances.len(), 1);
    assert_eq!(cfg.instances[0].name, "svc");
    assert_eq!(cfg.instances[0].bearer_token, None);
    assert_eq!(cfg.server.listen_port(None), 9000);
    assert!(!cfg.server.accepts_any_certificate(None));
    assert_eq!(
        MonitorState::new(cfg).actuator_target("svc"),
        Some(("https://host/actuator".to_string(), None))
    );
}

#[test]
fn instance_bearer_token_is_optional() {
    let toml_str = r#"
            [[instance]]
            name = "secured"
            actuator_base_url = "https://host/actuator"
            bearer_token = "abc123"
        "#;
    let cfg = config_of(toml_str);
    assert_eq!(cfg.instances[0].bearer_token.as_deref(), Some("abc123"));
    let (_, token) = MonitorState::new(cfg).actuator_target("secured").unwrap();
    assert_eq!(token.as_deref(), Some("abc123"));
}

#[test]
fn empty_file_yields_zero_instances_not_an_error() {
    let cfg = config_of("");
    assert!(cfg.instances.is_empty());
    let state = MonitorState::new(cfg);
    assert!(state.configs().is_empty());
    assert!(build_application_groups(&state).is_empty());
}

#[test]
fn an_empty_list_stays_empty() {
    assert!(OneOrMany::Many(vec![]).into_vec().is_empty());
}

#[test]
fn decimal_numbers_are_read_as_written() {
    assert_eq!(parse_decimal("0", 65535), Some(0));
    assert_eq!(parse_decimal("9001", 65535), Some(9001));
    assert_eq!(parse_decimal("+7", 65535), Some(7));
    assert_eq!(parse_decimal("0010", 65535), Some(10));
    assert_eq!(parse_decimal("65535", 65535), Some(65535));
    assert_eq!(parse_decimal("65536", 65535), None);
    assert_eq!(parse_decimal("18446744073709551615", u64::MAX), Some(u64::MAX));
    assert_eq!(parse_decimal("18446744073709551616", u64::MAX), None);
    for text in ["", "+", "-1", "-0", " 1", "1 ", "1_000", "0x10", "++1", "1.0", "\u{661}"] {
        assert_eq!(parse_decimal(text, u64::MAX), None);
        assert_eq!(text.parse::<u64>().ok(), None);
    }
    for text in ["0", "+7", "0010", "18446744073709551615", "18446744073709551616"] {
        assert_eq!(parse_decimal(text, u64::MAX), text.parse::<u64>().ok());
        assert_eq!(
            parse_decimal(text, 65535),
            text.parse::<u16>().ok().map(u64::from)
        );
    }
}

#[test]
fn the_environment_comes_before_the_file() {
    let mut server = ServerConfig::default();
    assert_eq!(server.listen_port(None), 9000);
    assert_eq!(server.listen_port(Some("8080")), 8080);
    assert_eq!(server.listen_port(Some("80800")), 9000);
    server.port = Some(9001);
    assert_eq!(server.listen_port(None), 9001);
    assert_eq!(server.listen_port(Some("8080")), 8080);
    assert_eq!(server.listen_port(Some("not a port")), 9001);

    assert_eq!(server.poll_interval(None), 10);
    server.poll_interval_secs = Some(30);
    assert_eq!(server.poll_interval(None), 30);
    assert_eq!(server.poll_interval(Some("5")), 5);
    assert_eq!(server.poll_interval(Some("soon")), 30);
}

#[test]
fn certificates_are_checked_unless_told_otherwise() {
    let mut server = ServerConfig::default();
    assert!(!server.accepts_any_certificate(None));
    assert!(server.accepts_any_certificate(Some("true")));
    assert!(server.accepts_any_certificate(Some("1")));
    assert!(!server.accepts_any_certificate(Some("yes")));
    server.insecure_tls = Some(true);
    assert!(server.accepts_any_certificate(None));
    assert!(!server.accepts_any_certificate(Some("")));
    assert!(!server.accepts_any_certificate(Some("TRUE")));
    server.insecure_tls = Some(false);
    assert!(!server.accepts_any_certificate(None));
}

#[test]
fn the_log_directive_names_this_program() {
    let mut server = ServerConfig::default();
    assert_eq!(server.log_filter(None), "sbalite=info");
    server.log_level = Some("trace".to_string());
    assert_eq!(server.log_filter(None), "sbalite=trace");
    assert_eq!(
        server.log_filter(Some("sbalite=debug,reqwest=debug")),
        "sbalite=debug,reqwest=debug"
    );
}
