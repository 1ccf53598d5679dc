use lab_resource_manager::domain::identity::{ExternalSystem, Instant};
use lab_resource_manager::domain::resource::{Gpu, Resource, ResourceUsage, TimePeriod};
use lab_resource_manager::infrastructure::config::resource_config::{
    DeviceConfig, ResourceConfig, ServerConfig,
};
use lab_resource_manager::infrastructure::config::storage_config::{StorageBackend, StorageConfig};
use lab_resource_manager::infrastructure::repositories::identity_link::json_file::{
    ExternalIdentityDto, IdentityLinkDto, JsonFileIdentityLinkRepository,
};
use lab_resource_manager::infrastructure::repositories::mcp_token::json_file::JsonFileMcpTokenRepository;
use lab_resource_manager::infrastructure::repositories::resource_usage::google_calendar::gpu_spec::create_gpus_from_spec;
use lab_resource_manager::infrastructure::repositories::resource_usage::google_calendar::id_mapper::{
    ExternalId, IdMapper,
};
use lab_resource_manager::infrastructure::repositories::resource_usage::google_calendar::repository::{
    build_description, event_id_for, extract_notes, find_future, find_overlapping, keep_active,
    CalendarEvent, GoogleCalendarUsageRepository, IdResolution,
};
use lab_resource_manager::infrastructure::repositories::resource_usage::mock::MockUsageRepository;

const SERVICE_ACCOUNT_EMAIL: &str = "service-account@example.com";
const CALENDAR_ID: &str = "thalys-calendar-id";
const NOW: i64 = 1_800_000_000;
const HOUR: i64 = 3600;

/// 2025-11-12T07:05:35Z.
const NOV_12_2025: i64 = 1762931135;
/// 2026-07-24T14:06:14Z.
const JUL_24_2026: i64 = 1784901974;

fn at(seconds: i64) -> Instant {
    Instant { seconds, nanos: 0 }
}

fn stored_identity(system: &str, user_id: &str, linked_at: i64) -> ExternalIdentityDto {
    ExternalIdentityDto { system: system.to_string(), user_id: user_id.to_string(), linked_at: at(linked_at) }
}

fn persisted() -> IdentityLinkDto {
    IdentityLinkDto {
        email: "member@example.com".to_string(),
        external_identities: vec![
            stored_identity("slack", "U01ABCDEF", NOV_12_2025),
            stored_identity("os:Thalys", "kkawaguchi", JUL_24_2026),
        ],
        created_at: at(NOV_12_2025),
        updated_at: at(NOV_12_2025),
    }
}

#[test]
fn reads_the_identity_links_written_by_earlier_versions() {
    let entity = persisted().to_entity();
    assert_eq!(entity.email(), "member@example.com");
    let slack = entity.get_identity_for_system(&ExternalSystem::Slack).expect("Slackの識別子が読めるべき");
    assert_eq!(slack.user_id(), "U01ABCDEF");
    let os = entity
        .get_identity_for_system(&ExternalSystem::Os { server: "Thalys".to_string() })
        .expect("サーバーごとの識別子が読めるべき");
    assert_eq!(os.user_id(), "kkawaguchi");
}

#[test]
fn keeps_the_binding_time_through_a_round_trip() {
    let entity = persisted().to_entity();
    let written = IdentityLinkDto::from_entity(&entity);
    assert_eq!(written.external_identities.len(), 2);
    assert_eq!(written.external_identities[1].system, "os:Thalys", "システムの表記を変えてはいけない");
    assert_eq!(written.external_identities[1].linked_at, at(JUL_24_2026), "結びつけた日時を失ってはいけない");
}

#[test]
fn skips_identities_for_systems_that_are_no_longer_supported() {
    let dto = IdentityLinkDto {
        email: "member@example.com".to_string(),
        external_identities: vec![
            stored_identity("discord", "x", NOV_12_2025),
            stored_identity("slack", "U01ABCDEF", NOV_12_2025),
        ],
        created_at: at(NOV_12_2025),
        updated_at: at(NOV_12_2025),
    };
    let entity = dto.to_entity();
    assert_eq!(entity.binding_records().len(), 1);
    assert!(entity.has_identity_for_system(&ExternalSystem::Slack));
}

#[test]
fn a_saved_link_is_found_by_email_and_by_user_id() {
    let mut repo = JsonFileIdentityLinkRepository::new("links.json".to_string());
    repo.save(&persisted().to_entity());
    let found = repo.find_by_email("member@example.com").expect("saved link");
    assert_eq!(found.email(), "member@example.com");
    assert!(repo.find_by_email("other@example.com").is_none());
    let by_slack = repo.find_by_external_user_id(&ExternalSystem::Slack, "U01ABCDEF");
    assert_eq!(by_slack.map(|l| l.email().to_string()), Some("member@example.com".to_string()));
    assert!(repo.find_by_external_user_id(&ExternalSystem::Slack, "kkawaguchi").is_none());
}

#[test]
fn issue_token_can_be_resolved_back_to_the_email() {
    let mut repo = JsonFileMcpTokenRepository::new("tokens.json".to_string());
    let token = repo.issue_token("user@example.com");
    assert_eq!(token.len(), 36);
    assert_eq!(repo.resolve(&token), Some("user@example.com".to_string()));
}

#[test]
fn resolve_unknown_token_returns_none() {
    let mut repo = JsonFileMcpTokenRepository::new("tokens.json".to_string());
    repo.issue_token("user@example.com");
    assert_eq!(repo.resolve("not-a-real-token"), None);
}

#[test]
fn reissuing_a_token_revokes_the_previous_one() {
    let mut repo = JsonFileMcpTokenRepository::new("tokens.json".to_string());
    let first = repo.issue_token("user@example.com");
    let second = repo.issue_token("user@example.com");
    assert_ne!(first, second);
    assert_eq!(repo.resolve(&first), None);
    assert_eq!(repo.resolve(&second), Some("user@example.com".to_string()));
}

#[test]
fn token_survives_a_reload_from_disk() {
    let mut repo = JsonFileMcpTokenRepository::new("tokens.json".to_string());
    let token = repo.issue_token("user@example.com");
    let stored: Vec<_> = repo.entries().iter().map(|(t, r)| (t.clone(), r.duplicate())).collect();
    let mut reloaded = JsonFileMcpTokenRepository::new("tokens.json".to_string());
    reloaded.load(&stored);
    assert_eq!(reloaded.resolve(&token), Some("user@example.com".to_string()));
}

fn thalys_config() -> ResourceConfig {
    ResourceConfig {
        servers: vec![ServerConfig {
            name: "Thalys".to_string(),
            devices: vec![
                DeviceConfig { id: 0, model: "A100".to_string() },
                DeviceConfig { id: 1, model: "A100".to_string() },
            ],
            notifications: vec![],
        }],
        rooms: vec![],
    }
}

fn repository() -> GoogleCalendarUsageRepository {
    GoogleCalendarUsageRepository::new(
        thalys_config(),
        StorageConfig {
            backend: StorageBackend::GoogleCalendar {
                calendars: vec![("Thalys".to_string(), CALENDAR_ID.to_string())],
            },
        },
        SERVICE_ACCOUNT_EMAIL.to_string(),
        IdMapper::new("mappings.json".to_string(), &[]),
    )
}

fn reservation_event(id: &str, title: &str, creator: &str, start: i64, end: i64) -> CalendarEvent {
    CalendarEvent {
        id: Some(id.to_string()),
        status: Some("confirmed".to_string()),
        creator_email: Some(creator.to_string()),
        summary: Some(title.to_string()),
        description: None,
        start: Some(start),
        end: Some(end),
    }
}

fn read(repo: &mut GoogleCalendarUsageRepository, events: &[CalendarEvent]) -> Vec<ResourceUsage> {
    let active = keep_active(events, CALENDAR_ID, "Thalys");
    repo.parse_events(&active).0
}

#[test]
fn find_overlapping_includes_reservation_that_already_ended() {
    let mut repo = repository();
    let existing =
        reservation_event("already-ended", "0", "owner@example.com", NOW - 5 * HOUR, NOW - 3 * HOUR);
    let usages = read(&mut repo, &[existing]);
    let period = TimePeriod::new(NOW - 4 * HOUR, NOW - 2 * HOUR).unwrap();
    assert_eq!(find_overlapping(&usages, &period).len(), 1, "終了時刻が過去の予約も競合チェックの対象に含めるべき");
}

#[test]
fn find_overlapping_ignores_cancelled_events() {
    let mut repo = repository();
    let mut cancelled =
        reservation_event("cancelled-event", "0", "owner@example.com", NOW - HOUR, NOW + HOUR);
    cancelled.status = Some("cancelled".to_string());
    let usages = read(&mut repo, &[cancelled]);
    let period = TimePeriod::new(NOW - HOUR, NOW + HOUR).unwrap();
    assert!(find_overlapping(&usages, &period).is_empty(), "キャンセル済みイベントは予約として扱わない");
}

#[test]
fn find_overlapping_skips_unparsable_events_but_keeps_the_rest() {
    let mut repo = repository();
    let unparsable = reservation_event("unparsable", "実験中", "owner@example.com", NOW - HOUR, NOW + HOUR);
    let valid = reservation_event("valid", "1", "owner@example.com", NOW - HOUR, NOW + HOUR);
    let active = keep_active(&[unparsable, valid], CALENDAR_ID, "Thalys");
    let (usages, failures) = repo.parse_events(&active);
    assert_eq!(failures.len(), 1);
    let period = TimePeriod::new(NOW - HOUR, NOW + HOUR).unwrap();
    assert_eq!(find_overlapping(&usages, &period).len(), 1, "解釈できないイベントは飛ばし、残りは返すべき");
}

#[test]
fn find_future_excludes_reservation_that_already_ended() {
    let mut repo = repository();
    let ended = reservation_event("already-ended", "0", "owner@example.com", NOW - 5 * HOUR, NOW - 3 * HOUR);
    let usages = read(&mut repo, &[ended]);
    assert!(find_future(&usages, NOW).is_empty(), "終了済みの予約は今後の予約として扱わない");
}

#[test]
fn find_future_keeps_ongoing_reservation() {
    let mut repo = repository();
    let ongoing = reservation_event("ongoing", "0", "owner@example.com", NOW - 5 * HOUR, NOW + HOUR);
    let usages = read(&mut repo, &[ongoing]);
    assert_eq!(find_future(&usages, NOW).len(), 1, "開始時刻が過去でも進行中の予約は含めるべき");
}

#[test]
fn parse_failures_are_reported_once_per_event() {
    let mut repository = repository();
    assert!(repository.should_report_parse_failure("event-a"), "初回は報告する");
    assert!(!repository.should_report_parse_failure("event-a"), "2回目以降は報告しない");
    assert!(repository.should_report_parse_failure("event-b"), "別のイベントは報告する");
}

#[test]
fn an_event_written_for_a_reservation_reads_back_as_it() {
    let repo = repository();
    let usage = ResourceUsage::reconstruct(
        "usage-1".to_string(),
        "owner@example.com".to_string(),
        TimePeriod::new(NOW, NOW + 2 * HOUR).unwrap(),
        vec![
            Resource::Gpu(Gpu::new("Thalys".to_string(), 0, "A100".to_string())),
            Resource::Gpu(Gpu::new("Thalys".to_string(), 1, "A100".to_string())),
        ],
        Some("学習ジョブ".to_string()),
    );
    let mut event = GoogleCalendarUsageRepository::create_event_from_usage(&usage, Some("kkawaguchi"));
    assert_eq!(event.summary.as_deref(), Some("0,1"));
    event.id = Some("usage1".to_string());
    event.creator_email = Some(SERVICE_ACCOUNT_EMAIL.to_string());
    let read = repo.parse_event(&event, "Thalys").unwrap();
    assert_eq!(read.owner_email, "owner@example.com");
    assert_eq!(read.time_period, usage.time_period);
    assert_eq!(read.resources.len(), 2);
    assert_eq!(read.notes.as_deref(), Some("学習ジョブ"));
}

#[test]
fn the_notes_are_read_back_from_the_description() {
    let usage = ResourceUsage::reconstruct(
        "usage-1".to_string(),
        "owner@example.com".to_string(),
        TimePeriod::new(NOW, NOW + HOUR).unwrap(),
        vec![Resource::Room { name: "会議室A".to_string() }],
        Some("打ち合わせ".to_string()),
    );
    let description = build_description(&usage, None);
    assert_eq!(extract_notes(&description), Some("打ち合わせ".to_string()));
}

#[test]
fn an_event_without_a_creator_is_refused() {
    let repo = repository();
    let mut event = reservation_event("e", "0", "owner@example.com", NOW, NOW + HOUR);
    event.creator_email = None;
    assert!(repo.parse_event(&event, "Thalys").is_err());
}

#[test]
fn the_event_id_of_a_reservation_drops_the_hyphens() {
    assert_eq!(event_id_for("ab-12-cd"), "ab12cd");
}

#[test]
fn an_unmapped_reservation_is_looked_up_by_its_derived_event_id() {
    let mut repo = repository();
    match repo.resolve_for_find("ab-12") {
        IdResolution::Derived(e) => assert_eq!(e, "ab12"),
        other => panic!("unexpected: {:?}", other),
    }
    repo.id_mapper.save_mapping(
        "ab-12",
        ExternalId { calendar_id: CALENDAR_ID.to_string(), event_id: "ev1".to_string() },
    );
    match repo.resolve_for_find("ev1") {
        IdResolution::Mapped(x) => assert_eq!(x.event_id, "ev1"),
        other => panic!("unexpected: {:?}", other),
    }
}

#[test]
fn a_gpu_title_names_the_devices_of_the_server() {
    let server = &thalys_config().servers[0];
    let gpus = create_gpus_from_spec("0,1", server).unwrap();
    assert_eq!(gpus.len(), 2);
    let range = create_gpus_from_spec("0-1", server).unwrap();
    assert_eq!(range.len(), 2);
    assert!(create_gpus_from_spec("7", server).is_err());
    assert!(create_gpus_from_spec("実験中", server).is_err());
}

#[test]
fn the_mock_repository_keeps_what_is_saved() {
    let mut repo = MockUsageRepository::new();
    let usage = ResourceUsage::reconstruct(
        "u1".to_string(),
        "owner@example.com".to_string(),
        TimePeriod::new(NOW, NOW + HOUR).unwrap(),
        vec![Resource::Room { name: "会議室A".to_string() }],
        None,
    );
    let id = repo.save(&usage);
    assert_eq!(id, "u1");
    assert_eq!(repo.find_by_id("u1").map(|u| u.owner_email), Some("owner@example.com".to_string()));
    assert_eq!(repo.find_by_owner("owner@example.com").len(), 1);
    assert!(repo.delete("u1").is_ok());
    assert!(repo.delete("u1").is_err());
    assert!(repo.find_by_id("u1").is_none());
}

#[test]
fn notes_read_back_trimmed_and_blank_notes_read_back_as_none() {
    let with_notes = |notes: Option<&str>| {
        ResourceUsage::reconstruct(
            "usage-1".to_string(),
            "owner@example.com".to_string(),
            TimePeriod::new(NOW, NOW + HOUR).unwrap(),
            vec![Resource::Room { name: "会議室A".to_string() }],
            notes.map(|n| n.to_string()),
        )
    };
    let untrimmed = build_description(&with_notes(Some("  打ち合わせ\n予約者: x \n")), Some("kkawaguchi"));
    assert_eq!(extract_notes(&untrimmed), Some("打ち合わせ\n予約者: x".to_string()));
    let blank = build_description(&with_notes(Some(" \n ")), None);
    assert_eq!(extract_notes(&blank), None);
    let none = build_description(&with_notes(None), Some("kkawaguchi"));
    assert_eq!(extract_notes(&none), None);
}
