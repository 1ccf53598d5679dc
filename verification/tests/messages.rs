use lab_resource_manager::domain::identity::{
    ExternalIdentity, ExternalIdentityBindingRecord, ExternalSystem, IdentityLink, Instant,
};
use lab_resource_manager::domain::notification::NotificationEvent;
use lab_resource_manager::domain::resource::{Gpu, Resource, ResourceUsage, TimePeriod};
use lab_resource_manager::infrastructure::config::notification_format::NotificationCustomization;
use lab_resource_manager::infrastructure::config::resource_config::{
    DeviceConfig, NotificationConfig, ResourceConfig, RoomConfig, ServerConfig,
};
use lab_resource_manager::infrastructure::notifier::router::NotificationRouter;
use lab_resource_manager::infrastructure::notifier::senders::mock::MockSender;
use lab_resource_manager::infrastructure::notifier::senders::sender::NotificationContext;
use lab_resource_manager::infrastructure::notifier::senders::slack::formatter::SlackMessageFormatter;
use lab_resource_manager::infrastructure::notifier::senders::slack::SlackSender;
use lab_resource_manager::infrastructure::notifier::slack::SlackNotifier;
use lab_resource_manager::infrastructure::resource_collection_access::google_calendar::{
    grant_access, revoke_access, AclEntry,
};
use lab_resource_manager::infrastructure::slack_direct_message::resolve_slack_user_id;

/// 2024-01-15 10:00 UTC.
const JAN_15_10_UTC: i64 = 1705312800;
const HOUR: i64 = 3600;

fn usage(resources: Vec<Resource>, notes: Option<&str>) -> ResourceUsage {
    ResourceUsage::reconstruct(
        "usage-1".to_string(),
        "owner@example.com".to_string(),
        TimePeriod::new(JAN_15_10_UTC, JAN_15_10_UTC + 2 * HOUR).unwrap(),
        resources,
        notes.map(|n| n.to_string()),
    )
}

fn thalys(n: u32) -> Resource {
    Resource::Gpu(Gpu::new("Thalys".to_string(), n, "A100".to_string()))
}

fn linked(slack_id: Option<&str>) -> IdentityLink {
    let mut records = vec![ExternalIdentityBindingRecord::reconstitute(
        ExternalIdentity::new(ExternalSystem::Os { server: "Thalys".to_string() }, "kkawaguchi".to_string()),
        Instant { seconds: 0, nanos: 0 },
    )];
    if let Some(id) = slack_id {
        records.push(ExternalIdentityBindingRecord::reconstitute(
            ExternalIdentity::new(ExternalSystem::Slack, id.to_string()),
            Instant { seconds: 0, nanos: 0 },
        ));
    }
    IdentityLink::reconstitute(
        "owner@example.com".to_string(),
        records,
        Instant { seconds: 0, nanos: 0 },
        Instant { seconds: 0, nanos: 0 },
    )
}

fn mock_destination() -> NotificationConfig {
    NotificationConfig::Mock { timezone: None, templates: None, format: None }
}

#[test]
fn the_owner_is_mentioned_when_a_slack_identity_is_linked() {
    let link = linked(Some("U12345"));
    assert_eq!(SlackMessageFormatter::format_user("owner@example.com", Some(&link)), "<@U12345>");
    let unlinked = linked(None);
    assert_eq!(SlackMessageFormatter::format_user("owner@example.com", Some(&unlinked)), "owner@example.com");
    assert_eq!(SlackMessageFormatter::format_user("owner@example.com", None), "owner@example.com");
}

#[test]
fn a_direct_message_needs_a_linked_slack_identity() {
    let link = linked(Some("U12345"));
    assert_eq!(resolve_slack_user_id("owner@example.com", Some(&link)).unwrap(), "U12345");
    assert!(resolve_slack_user_id("owner@example.com", Some(&linked(None))).is_err());
    assert!(resolve_slack_user_id("owner@example.com", None).is_err());
}

#[test]
fn the_slack_message_uses_the_destinations_template() {
    let event = NotificationEvent::ResourceUsageCreated(usage(vec![thalys(0)], Some("メモ")));
    let link = linked(Some("U12345"));
    let customization = NotificationCustomization::default();
    let context = NotificationContext {
        event: &event,
        identity_link: Some(&link),
        timezone: Some("Asia/Tokyo"),
        customization: &customization,
    };
    let message = SlackSender::format_message(&context);
    assert!(message.starts_with("🔔 新規予約\n👤 <@U12345>"), "{message}");
    assert!(message.contains("Thalys / A100 / GPU:0"));
    assert!(message.contains("メモ"));
    let blocks = SlackSender::build_message_blocks(&message, &context);
    assert_eq!(blocks.len(), 2);
    let deleted = NotificationEvent::ResourceUsageDeleted(usage(vec![thalys(0)], None));
    let context = NotificationContext {
        event: &deleted,
        identity_link: None,
        timezone: None,
        customization: &customization,
    };
    assert_eq!(SlackSender::build_message_blocks("gone", &context).len(), 1);
    assert!(SlackMessageFormatter::format_message(&context).contains("owner@example.com"));
}

#[test]
fn the_mock_sender_renders_the_same_message() {
    let event = NotificationEvent::ResourceUsageUpdated(usage(vec![thalys(1)], None));
    let customization = NotificationCustomization::default();
    let context = NotificationContext {
        event: &event,
        identity_link: None,
        timezone: Some("Asia/Tokyo"),
        customization: &customization,
    };
    let message = MockSender::new().format_message(&context);
    assert!(message.contains("🔄 予約更新"), "{message}");
    assert!(message.contains("owner@example.com"));
}

#[test]
fn the_webhook_message_says_what_happened() {
    let notifier = SlackNotifier::new("https://hooks.example.com/x".to_string());
    let created = NotificationEvent::ResourceUsageCreated(usage(vec![thalys(0)], None));
    assert!(notifier.format_message(&created).starts_with("[新規使用予定] owner@example.com"));
    let deleted = NotificationEvent::ResourceUsageDeleted(usage(vec![thalys(0)], None));
    assert_eq!(notifier.format_message(&deleted), "[使用予定削除] owner@example.comが使用予定を削除しました");
}

#[test]
fn each_destination_is_notified_once() {
    let config = ResourceConfig {
        servers: vec![ServerConfig {
            name: "Thalys".to_string(),
            devices: vec![
                DeviceConfig { id: 0, model: "A100".to_string() },
                DeviceConfig { id: 1, model: "A100".to_string() },
            ],
            notifications: vec![mock_destination()],
        }],
        rooms: vec![RoomConfig { name: "会議室A".to_string(), notifications: vec![mock_destination()] }],
    };
    let router = NotificationRouter::new(config);
    let event = NotificationEvent::ResourceUsageCreated(usage(
        vec![thalys(0), thalys(1), Resource::Room { name: "会議室A".to_string() }],
        None,
    ));
    assert_eq!(router.collect_notification_configs(&event).len(), 1);
    let unknown = NotificationEvent::ResourceUsageCreated(usage(
        vec![Resource::Gpu(Gpu::new("Freccia".to_string(), 0, "RTX6000".to_string()))],
        None,
    ));
    assert!(router.collect_notification_configs(&unknown).is_empty());
    assert!(router.format_message(&event).contains("会議室A"));
}

#[test]
fn sharing_a_calendar_twice_is_refused() {
    let rules = Some(vec![AclEntry {
        id: Some("user:member@example.com".to_string()),
        scope_value: Some("member@example.com".to_string()),
    }]);
    assert!(grant_access("cal", "member@example.com", &rules).is_err());
    let request = grant_access("cal", "new@example.com", &rules).unwrap();
    assert_eq!(request.role, "writer");
    assert_eq!(request.scope_type, "user");
    assert_eq!(request.scope_value, "new@example.com");
    assert_eq!(revoke_access("cal", "member@example.com", &rules).unwrap(), "user:member@example.com");
    assert!(revoke_access("cal", "new@example.com", &rules).is_err());
    assert!(revoke_access("cal", "new@example.com", &None).is_err());
}
