use chrono::{Local, TimeZone};
use lab_resource_manager::domain::identity::{ExternalIdentity, ExternalSystem, Instant};
use lab_resource_manager::domain::idle::{IdleEvidence, IdleReservation};
use lab_resource_manager::domain::proposal::ReservationProposal;
use lab_resource_manager::domain::resource::{Gpu, Resource, ResourceUsage, TimePeriod};
use lab_resource_manager::infrastructure::config::notification_format::ResourceStyle;
use lab_resource_manager::infrastructure::idle_reservation_notifier::mock::MockIdleReservationNotifier;
use lab_resource_manager::infrastructure::idle_reservation_notifier::slack::{
    build_idle_blocks, build_idle_message, format_memory,
};
use lab_resource_manager::infrastructure::notifier::formatter::format_resources_styled;
use lab_resource_manager::infrastructure::notifier::senders::slack::block_builder::{
    ButtonValue, MessageBlock, SlackBlockBuilder,
};
use lab_resource_manager::infrastructure::reservation_proposal::slack::{
    build_proposal_blocks, build_proposal_text, collect_gpus, format_duration_label,
    ACTION_ACCEPT_RESERVATION_PROPOSAL,
};
use lab_resource_manager::infrastructure::unauthorized_usage_notifier::slack::build_unauthorized_message;

/// 2024-01-15 10:00 UTC.
const JAN_15_10_UTC: i64 = 1705312800;
const HOUR: i64 = 3600;

fn sample_reservation() -> ResourceUsage {
    ResourceUsage::reconstruct(
        "reservation-1".to_string(),
        "owner@example.com".to_string(),
        TimePeriod::new(JAN_15_10_UTC, JAN_15_10_UTC + 6 * HOUR).unwrap(),
        vec![Resource::Gpu(Gpu::new("Thalys".to_string(), 0, "A100".to_string()))],
        None,
    )
}

fn sample_proposal_with_devices(devices: Vec<u32>, candidates: Vec<i64>) -> ReservationProposal {
    ReservationProposal {
        resources: devices
            .into_iter()
            .map(|n| Resource::Gpu(Gpu::new("Thalys".to_string(), n, "A100".to_string())))
            .collect(),
        owner_email: "user@example.com".to_string(),
        observed_identity: ExternalIdentity::new(
            ExternalSystem::Os { server: "Thalys".to_string() },
            "kkawaguchi".to_string(),
        ),
        active_since: Instant { seconds: JAN_15_10_UTC, nanos: 0 },
        duration_candidates: candidates,
    }
}

fn sample_proposal(candidates: Vec<i64>) -> ReservationProposal {
    sample_proposal_with_devices(vec![0, 1], candidates)
}

fn button_values(blocks: &[MessageBlock]) -> Vec<(String, Option<String>)> {
    match &blocks[1] {
        MessageBlock::Actions { elements } => elements
            .iter()
            .map(|b| {
                let v = match &b.value {
                    ButtonValue::Text(t) => Some(t.clone()),
                    ButtonValue::Proposal(_) => None,
                };
                (b.action_id.clone(), v)
            })
            .collect(),
        MessageBlock::Section { .. } => panic!("the second block should hold the buttons"),
    }
}

#[test]
fn the_message_names_the_resource_and_when_it_went_quiet() {
    let reservation = sample_reservation();
    let idle_since = JAN_15_10_UTC + HOUR;
    let message = build_idle_message(&reservation, idle_since, &IdleEvidence::NoProcesses);
    assert!(message.contains("Thalys"), "{message}");
    let local = Local.timestamp_opt(idle_since, 0).unwrap().format("%H:%M").to_string();
    assert!(
        message.contains(&local),
        "いつから使われていないのかが分からないと、心当たりを確かめられない: {message}"
    );
}

#[test]
fn a_gpu_held_without_computing_is_told_apart_from_one_nobody_touched() {
    let reservation = sample_reservation();
    let idle_since = JAN_15_10_UTC + HOUR;
    let held = build_idle_message(
        &reservation,
        idle_since,
        &IdleEvidence::HeldWithoutComputing {
            at_rest: vec![Gpu::new("Thalys".to_string(), 0, "A100".to_string())],
            observed_count: 1,
            peak_utilization_percent: 3,
            used_memory_mib: Some(38_000),
        },
    );
    let absent = build_idle_message(&reservation, idle_since, &IdleEvidence::NoProcesses);
    assert_ne!(held, absent, "心当たりの違う二つの状況を、同じ文面で知らせてはいけない");
    assert!(held.contains("37.1 GiB"), "確保されている量が分かる: {held}");
    assert!(held.contains("3%"), "稼働率まで示して確かめられるようにする: {held}");
}

#[test]
fn memory_is_shown_in_a_unit_that_reads_at_a_glance() {
    assert_eq!(format_memory(38_000), "37.1 GiB");
    assert_eq!(format_memory(512), "512 MiB");
}

#[test]
fn memory_rounds_to_one_decimal_of_a_gib() {
    assert_eq!(format_memory(1024), "1.0 GiB");
    assert_eq!(format_memory(1023), "1023 MiB");
    assert_eq!(format_memory(1536), "1.5 GiB");
}

#[test]
fn every_button_carries_the_reservation_it_acts_on() {
    let reservation = sample_reservation();
    let blocks = build_idle_blocks(&reservation, "test message");
    let values = button_values(&blocks);
    assert_eq!(values.len(), 3, "終了・継続・取り消しの3択");
    for (_, value) in &values {
        assert_eq!(value.as_deref(), Some("reservation-1"), "どの予約への操作か分からないボタンがある");
    }
}

#[test]
fn the_buttons_are_distinguishable_from_one_another() {
    let reservation = sample_reservation();
    let blocks = build_idle_blocks(&reservation, "test message");
    let ids: Vec<String> = button_values(&blocks).into_iter().map(|(id, _)| id).collect();
    let mut unique = ids.clone();
    unique.sort();
    unique.dedup();
    assert_eq!(unique.len(), ids.len(), "{ids:?}");
}

#[test]
fn an_idle_notice_is_kept_unless_sending_fails() {
    let mut notifier = MockIdleReservationNotifier::new();
    let idle = IdleReservation {
        reservation: sample_reservation(),
        idle_since: JAN_15_10_UTC,
        evidence: IdleEvidence::NoProcesses,
    };
    assert!(notifier.notify_idle(idle).is_ok());
    assert_eq!(notifier.sent_notices().len(), 1);
    notifier.set_failing(true);
    let again = IdleReservation {
        reservation: sample_reservation(),
        idle_since: JAN_15_10_UTC,
        evidence: IdleEvidence::NoProcesses,
    };
    assert!(notifier.notify_idle(again).is_err());
    assert_eq!(notifier.sent_notices().len(), 1);
}

#[test]
fn test_format_duration_label_whole_hours() {
    assert_eq!(format_duration_label(HOUR), "1時間");
    assert_eq!(format_duration_label(8 * HOUR), "8時間");
}

#[test]
fn test_format_duration_label_minutes_only() {
    assert_eq!(format_duration_label(30 * 60), "30分");
}

#[test]
fn test_format_duration_label_hours_and_minutes() {
    assert_eq!(format_duration_label(90 * 60), "1時間30分");
}

#[test]
fn test_build_proposal_blocks_button_count_matches_candidates() {
    let candidates = vec![HOUR, 2 * HOUR, 3 * HOUR];
    let proposal = sample_proposal(candidates.clone());
    let gpus = collect_gpus(&proposal).unwrap();
    let blocks = build_proposal_blocks(&proposal, &gpus, "test message");
    assert_eq!(blocks.len(), 2);
    assert_eq!(button_values(&blocks).len(), candidates.len());
}

#[test]
fn test_build_proposal_blocks_action_ids_are_unique_within_block() {
    let candidates = vec![HOUR, 2 * HOUR, 3 * HOUR];
    let proposal = sample_proposal(candidates.clone());
    let gpus = collect_gpus(&proposal).unwrap();
    let blocks = build_proposal_blocks(&proposal, &gpus, "test message");
    let ids: Vec<String> = button_values(&blocks).into_iter().map(|(id, _)| id).collect();
    let mut unique = ids.clone();
    unique.sort();
    unique.dedup();
    assert_eq!(unique.len(), candidates.len());
    for id in &ids {
        assert!(id.starts_with(ACTION_ACCEPT_RESERVATION_PROPOSAL));
    }
}

#[test]
fn an_accept_button_carries_the_whole_reservation() {
    let proposal = sample_proposal(vec![2 * HOUR]);
    let gpus = collect_gpus(&proposal).unwrap();
    let blocks = build_proposal_blocks(&proposal, &gpus, "test message");
    match &blocks[1] {
        MessageBlock::Actions { elements } => match &elements[0].value {
            ButtonValue::Proposal(p) => {
                assert_eq!(p.server, "Thalys");
                assert_eq!(p.device_numbers, vec![0, 1]);
                assert_eq!(p.owner_email, "user@example.com");
                assert_eq!(p.active_since, Instant { seconds: JAN_15_10_UTC, nanos: 0 });
                assert_eq!(p.duration_minutes, 120);
            }
            ButtonValue::Text(_) => panic!("an accept button carries the proposal"),
        },
        MessageBlock::Section { .. } => panic!("the second block should hold the buttons"),
    }
}

#[test]
fn a_proposal_for_a_room_is_refused() {
    let mut proposal = sample_proposal(vec![HOUR]);
    proposal.resources.push(Resource::Room { name: "会議室A".to_string() });
    assert!(collect_gpus(&proposal).is_err());
    let empty = sample_proposal_with_devices(vec![], vec![HOUR]);
    assert!(collect_gpus(&empty).is_err());
}

#[test]
fn the_message_lists_each_resource_on_its_own_line() {
    let proposal = sample_proposal_with_devices(vec![4, 5, 6], vec![HOUR]);
    let listed = format_resources_styled(&proposal.resources, ResourceStyle::Full);
    assert_eq!(
        listed, "Thalys / A100 / GPU:4\nThalys / A100 / GPU:5\nThalys / A100 / GPU:6",
        "枚数が増えても1行に詰めず、通知と同じ表現で並べる"
    );
    let text = build_proposal_text(&proposal);
    assert!(text.contains(&listed));
}

#[test]
fn test_build_unauthorized_message_contains_owner_and_resource() {
    let usage = ResourceUsage::reconstruct(
        "u".to_string(),
        "owner@example.com".to_string(),
        TimePeriod::new(JAN_15_10_UTC, JAN_15_10_UTC + 2 * HOUR).unwrap(),
        vec![Resource::Gpu(Gpu::new("Thalys".to_string(), 0, "A100".to_string()))],
        None,
    );
    let message = build_unauthorized_message(&usage);
    assert!(message.contains("owner@example.com"));
    assert!(message.contains("Thalys"));
    assert!(message.contains("他の人が予約中のリソースを使用"));
}

#[test]
fn a_standing_reservation_gets_edit_and_cancel_buttons() {
    let blocks = SlackBlockBuilder::build_message_with_buttons("hello", "usage-9");
    let values = button_values(&blocks);
    assert_eq!(values.len(), 2);
    assert_eq!(values[0], ("edit_reservation".to_string(), Some("usage-9".to_string())));
    assert_eq!(values[1], ("cancel_reservation".to_string(), Some("usage-9".to_string())));
    let plain = SlackBlockBuilder::build_message_only("hello");
    assert_eq!(plain.len(), 1);
}

#[test]
fn the_idle_mock_keeps_the_notices_sent_while_not_failing_in_call_order() {
    let notice = |since: i64| IdleReservation {
        reservation: sample_reservation(),
        idle_since: since,
        evidence: IdleEvidence::NoProcesses,
    };
    let mut notifier = MockIdleReservationNotifier::new();
    assert!(notifier.sent_notices().is_empty());
    assert!(notifier.notify_idle(notice(1)).is_ok());
    notifier.set_failing(true);
    assert!(notifier.notify_idle(notice(2)).is_err());
    notifier.set_failing(false);
    assert!(notifier.notify_idle(notice(3)).is_ok());
    let sent: Vec<i64> = notifier.sent_notices().iter().map(|n| n.idle_since).collect();
    assert_eq!(sent, vec![1, 3]);
}
