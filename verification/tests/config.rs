use lab_resource_manager::infrastructure::config::defaults;
use lab_resource_manager::infrastructure::config::loader::{
    parse_duration_candidates_hours, parse_notice_policy, parse_number_env,
    validate_mcp_allowed_hosts, validate_mcp_tls_paths, validate_percentage, ConfigLoadError,
    NoticePolicy,
};
use lab_resource_manager::infrastructure::config::notification_format::{
    DateFormat, FormatConfig, ResourceStyle, TemplateConfig, TimeStyle,
};
use lab_resource_manager::infrastructure::config::resource_config::{
    load_config, ConfigRoot, DeviceConfig, RoomConfig, ServerConfig,
};
use lab_resource_manager::infrastructure::config::storage_config::{StorageBackend, StorageConfig};

#[test]
fn test_parse_duration_candidates_hours_valid() {
    let result = parse_duration_candidates_hours("1,2,3,5,8").unwrap();
    assert_eq!(result, vec![1, 2, 3, 5, 8]);
}

#[test]
fn test_parse_duration_candidates_hours_trims_whitespace() {
    let result = parse_duration_candidates_hours(" 1 , 2 ").unwrap();
    assert_eq!(result, vec![1, 2]);
}

#[test]
fn test_parse_duration_candidates_hours_single_value() {
    let result = parse_duration_candidates_hours("4").unwrap();
    assert_eq!(result, vec![4]);
}

#[test]
fn test_parse_duration_candidates_hours_rejects_non_numeric() {
    let result = parse_duration_candidates_hours("1,abc,3");
    assert!(result.is_err());
}

#[test]
fn test_parse_duration_candidates_hours_rejects_empty_string() {
    let result = parse_duration_candidates_hours("");
    assert!(result.is_err());
}

#[test]
fn test_default_duration_candidates_are_parseable() {
    let result =
        parse_duration_candidates_hours(defaults::RESERVATION_PROPOSAL_DURATION_CANDIDATES_HOURS);
    assert!(result.is_ok());
}

#[test]
fn a_rejected_candidate_is_named_in_the_reason() {
    match parse_duration_candidates_hours("1,abc,3") {
        Err(ConfigLoadError::InvalidEnvVar { name, reason }) => {
            assert_eq!(name, "RESERVATION_PROPOSAL_DURATION_CANDIDATES_HOURS");
            assert_eq!(reason, "'abc'は正の整数である必要があります");
        }
        other => panic!("unexpected: {:?}", other),
    }
}

#[test]
fn a_notice_policy_is_read_by_name() {
    assert_eq!(
        parse_notice_policy("IDLE_HELD_GPU_NOTICES", "observe").unwrap(),
        NoticePolicy::Observe
    );
    assert_eq!(
        parse_notice_policy("IDLE_HELD_GPU_NOTICES", " notify ").unwrap(),
        NoticePolicy::Notify
    );
}

#[test]
fn an_unknown_notice_policy_is_refused_rather_than_guessed() {
    assert!(parse_notice_policy("IDLE_HELD_GPU_NOTICES", "quiet").is_err());
}

#[test]
fn the_default_notice_policy_is_readable() {
    assert!(parse_notice_policy("IDLE_HELD_GPU_NOTICES", defaults::IDLE_HELD_GPU_NOTICES).is_ok());
}

#[test]
fn a_percentage_beyond_a_hundred_is_rejected() {
    assert!(validate_percentage("COMPUTING_GPU_UTILIZATION_PERCENT", 101).is_err());
    assert!(validate_percentage("COMPUTING_GPU_UTILIZATION_PERCENT", 100).is_ok());
}

#[test]
fn a_number_setting_falls_back_to_its_default_and_rejects_words() {
    assert_eq!(parse_number_env("POLLING_INTERVAL_SECS", None, 60, u64::MAX).unwrap(), 60);
    assert_eq!(parse_number_env("POLLING_INTERVAL_SECS", Some(" 90 "), 60, u64::MAX).unwrap(), 90);
    match parse_number_env("POLLING_INTERVAL_SECS", Some("soon"), 60, u64::MAX) {
        Err(ConfigLoadError::InvalidEnvVar { name, .. }) => {
            assert_eq!(name, "POLLING_INTERVAL_SECS")
        }
        other => panic!("unexpected: {:?}", other),
    }
    assert!(parse_number_env("COMPUTING_GPU_UTILIZATION_PERCENT", Some("101"), 5, 100).is_err());
}

#[test]
fn test_validate_mcp_allowed_hosts_skips_when_mcp_disabled() {
    let result = validate_mcp_allowed_hosts(None, None).unwrap();
    assert!(result.is_empty());
}

#[test]
fn test_validate_mcp_allowed_hosts_rejects_unset_when_mcp_enabled() {
    let result = validate_mcp_allowed_hosts(Some("0.0.0.0:8787"), None);
    assert!(result.is_err());
}

#[test]
fn test_validate_mcp_allowed_hosts_rejects_empty_string_when_mcp_enabled() {
    let result = validate_mcp_allowed_hosts(Some("0.0.0.0:8787"), Some("  , ,"));
    assert!(result.is_err());
}

#[test]
fn test_validate_mcp_allowed_hosts_accepts_configured_hosts() {
    let result =
        validate_mcp_allowed_hosts(Some("0.0.0.0:8787"), Some("thalys:8787, 192.168.1.10:8787"))
            .unwrap();
    assert_eq!(result, vec!["thalys:8787", "192.168.1.10:8787"]);
}

#[test]
fn test_validate_mcp_tls_paths_accepts_both_unset() {
    assert!(validate_mcp_tls_paths(&None, &None).is_ok());
}

#[test]
fn test_validate_mcp_tls_paths_accepts_both_set() {
    let cert = Some("cert.pem".to_string());
    let key = Some("key.pem".to_string());
    assert!(validate_mcp_tls_paths(&cert, &key).is_ok());
}

#[test]
fn test_validate_mcp_tls_paths_rejects_cert_without_key() {
    let cert = Some("cert.pem".to_string());
    assert!(validate_mcp_tls_paths(&cert, &None).is_err());
}

#[test]
fn test_validate_mcp_tls_paths_rejects_key_without_cert() {
    let key = Some("key.pem".to_string());
    assert!(validate_mcp_tls_paths(&None, &key).is_err());
}

#[test]
fn a_config_error_reads_as_a_sentence() {
    let missing = ConfigLoadError::MissingEnvVar("SLACK_BOT_TOKEN".to_string());
    assert_eq!(missing.message(), "環境変数 SLACK_BOT_TOKEN が必要です");
}

#[test]
fn test_resource_style_default() {
    let style: ResourceStyle = Default::default();
    assert_eq!(style, ResourceStyle::Full);
}

#[test]
fn test_time_style_default() {
    let style: TimeStyle = Default::default();
    assert_eq!(style, TimeStyle::Full);
}

#[test]
fn test_date_format_default() {
    let format: DateFormat = Default::default();
    assert_eq!(format, DateFormat::Ymd);
}

#[test]
fn test_template_config_default() {
    let config: TemplateConfig = Default::default();
    assert!(config.created.is_none());
    assert!(config.updated.is_none());
    assert!(config.deleted.is_none());
}

#[test]
fn the_format_defaults_show_everything_in_full() {
    let format: FormatConfig = Default::default();
    assert_eq!(format.resource_style, ResourceStyle::Full);
    assert_eq!(format.time_style, TimeStyle::Full);
    assert_eq!(format.date_format, DateFormat::Ymd);
}

fn server(name: &str) -> ServerConfig {
    ServerConfig {
        name: name.to_string(),
        devices: vec![DeviceConfig { id: 0, model: "A100".to_string() }],
        notifications: vec![],
    }
}

fn storage(entries: &[(&str, &str)]) -> StorageConfig {
    StorageConfig {
        backend: StorageBackend::GoogleCalendar {
            calendars: entries.iter().map(|(k, v)| (k.to_string(), v.to_string())).collect(),
        },
    }
}

#[test]
fn load_config_validates_all_resources_have_mappings() {
    let root = ConfigRoot {
        servers: vec![server("gpu-server-1")],
        rooms: vec![RoomConfig { name: "Meeting Room A".to_string(), notifications: vec![] }],
        storage: Some(storage(&[
            ("gpu-server-1", "xxx@group.calendar.google.com"),
            ("Meeting Room A", "yyy@group.calendar.google.com"),
        ])),
    };
    let (resources, storage) = load_config(root).expect("valid config should load successfully");
    assert_eq!(resources.servers.len(), 1);
    assert_eq!(resources.servers[0].name, "gpu-server-1");
    assert_eq!(
        storage.calendar_id_for_resource("gpu-server-1"),
        Some("xxx@group.calendar.google.com")
    );
}

#[test]
fn load_config_fails_when_server_missing_mapping() {
    let root = ConfigRoot {
        servers: vec![server("gpu-server-1"), server("gpu-server-2")],
        rooms: vec![],
        storage: Some(storage(&[("gpu-server-1", "xxx@group.calendar.google.com")])),
    };
    let err = load_config(root).expect_err("should fail when server lacks mapping");
    assert!(err.contains("gpu-server-2"), "error should mention missing server: {}", err);
}

#[test]
fn load_config_fails_when_room_missing_mapping() {
    let root = ConfigRoot {
        servers: vec![server("gpu-server-1")],
        rooms: vec![RoomConfig { name: "Meeting Room B".to_string(), notifications: vec![] }],
        storage: Some(storage(&[("gpu-server-1", "xxx@group.calendar.google.com")])),
    };
    let err = load_config(root).expect_err("should fail when room lacks mapping");
    assert!(err.contains("Meeting Room B"), "error should mention missing room: {}", err);
}

#[test]
fn load_config_without_storage_is_refused() {
    let root = ConfigRoot { servers: vec![server("gpu-server-1")], rooms: vec![], storage: None };
    assert_eq!(load_config(root).unwrap_err(), "storage設定が見つかりません");
}

#[test]
fn get_calendar_mappings() {
    let s = storage(&[
        ("gpu-server-1", "xxx@group.calendar.google.com"),
        ("Meeting Room A", "yyy@group.calendar.google.com"),
    ]);
    let mappings = s.google_calendar_mappings().unwrap();
    assert_eq!(mappings.len(), 2);
    assert_eq!(s.calendar_id_for_resource("gpu-server-1"), Some("xxx@group.calendar.google.com"));
    assert_eq!(s.calendar_id_for_resource("unknown"), None);
}

#[test]
fn calendars_for_no_resource_are_found() {
    let s = storage(&[
        ("gpu-server-1", "xxx@group.calendar.google.com"),
        ("retired", "zzz@group.calendar.google.com"),
    ]);
    let unmapped = s.find_unmapped_calendars(&["gpu-server-1".to_string()], &[]);
    assert_eq!(unmapped, vec!["retired".to_string()]);
}
