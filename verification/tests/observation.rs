use lab_resource_manager::domain::identity::{ExternalIdentity, ExternalSystem, Instant};
use lab_resource_manager::domain::observation::{GpuActivity, ObservedUsage, ServerObservation};
use lab_resource_manager::domain::resource::{Gpu, Resource};
use lab_resource_manager::infrastructure::config::resource_config::{
    DeviceConfig, ResourceConfig, ServerConfig,
};
use lab_resource_manager::infrastructure::resource_usage_observer::mock::MockResourceUsageObserver;
use lab_resource_manager::infrastructure::resource_usage_observer::shared_file::{
    snapshot_from_readings, GpuUsageDeviceEntry, GpuUsageProcessEntry, GpuUsageReport,
    ServerReading, SharedFileResourceUsageObserver,
};

const NOW: i64 = 1_800_000_000;

fn at(seconds: i64) -> Instant {
    Instant { seconds, nanos: 0 }
}

fn observer() -> SharedFileResourceUsageObserver {
    SharedFileResourceUsageObserver::new(
        "/var/lib/gpu-usage".to_string(),
        ResourceConfig {
            servers: vec![ServerConfig {
                name: "Thalys".to_string(),
                devices: vec![DeviceConfig { id: 0, model: "A100".to_string() }],
                notifications: vec![],
            }],
            rooms: vec![],
        },
        20,
    )
}

fn report(generated_at: i64, devices: Vec<GpuUsageDeviceEntry>) -> GpuUsageReport {
    GpuUsageReport {
        server: "Thalys".to_string(),
        generated_at: at(generated_at),
        processes: vec![
            GpuUsageProcessEntry {
                device_number: 0,
                os_user: "kkawaguchi".to_string(),
                started_at: at(generated_at - 600),
                used_memory_mib: Some(1024),
            },
            GpuUsageProcessEntry {
                device_number: 7,
                os_user: "someone".to_string(),
                started_at: at(generated_at - 600),
                used_memory_mib: None,
            },
        ],
        devices,
    }
}

fn thalys_gpu0() -> Gpu {
    Gpu::new("Thalys".to_string(), 0, "A100".to_string())
}

#[test]
fn a_server_without_a_report_is_not_covered() {
    let readings = vec![("Thalys".to_string(), ServerReading::unavailable(ServerObservation::Missing))];
    let snapshot = snapshot_from_readings(&readings);
    assert!(!snapshot.covers("Thalys"), "レポートがないサーバーの利用状況は分からない");
    assert_eq!(snapshot.servers().len(), 1);
    assert_eq!(snapshot.servers()[0].1, ServerObservation::Missing, "届いていないことが理由として分かる");
}

#[test]
fn test_valid_report_is_parsed() {
    let o = observer();
    let reading = o.reading_from_report(&report(NOW - 5, vec![]), at(NOW));
    assert_eq!(reading.observation, ServerObservation::Observed { generated_at: at(NOW - 5) }, "いつ時点の状況なのかが分かる");
    let snapshot = snapshot_from_readings(&[("Thalys".to_string(), reading)]);
    assert!(snapshot.covers("Thalys"));
    let usages = snapshot.usages();
    assert_eq!(usages.len(), 1);
    assert_eq!(usages[0].external_identity.user_id(), "kkawaguchi");
    match &usages[0].resource {
        Resource::Gpu(g) => {
            assert_eq!(g.server(), "Thalys");
            assert_eq!(g.device_number(), 0);
            assert_eq!(g.model(), "A100");
        }
        other => panic!("unexpected resource: {:?}", other),
    }
    assert_eq!(usages[0].active_since, at(NOW - 5 - 600));
    assert_eq!(usages[0].used_memory_mib, Some(1024));
}

#[test]
fn a_stale_report_leaves_the_server_uncovered() {
    let o = observer();
    let reading = o.reading_from_report(&report(NOW - 30, vec![]), at(NOW));
    assert!(reading.usages.is_empty());
    let snapshot = snapshot_from_readings(&[("Thalys".to_string(), reading)]);
    assert!(!snapshot.covers("Thalys"), "監視が止まっている間の沈黙を「使われていない」と読ませない");
    assert_eq!(
        snapshot.servers()[0].1,
        ServerObservation::Stale { generated_at: at(NOW - 30) },
        "届いてはいるが古い、と区別できる"
    );
}

#[test]
fn test_unconfigured_device_is_filtered_out() {
    let o = observer();
    let reading = o.reading_from_report(&report(NOW, vec![]), at(NOW));
    assert_eq!(reading.usages.len(), 1);
    let snapshot = snapshot_from_readings(&[("Thalys".to_string(), reading)]);
    assert!(snapshot.covers("Thalys"), "レポートは読めているので、そのサーバーの利用状況は把握できている");
}

#[test]
fn a_report_carries_how_hard_each_device_was_working() {
    let o = observer();
    let devices = vec![
        GpuUsageDeviceEntry { device_number: 0, peak_utilization_percent: 87 },
        GpuUsageDeviceEntry { device_number: 7, peak_utilization_percent: 50 },
    ];
    let reading = o.reading_from_report(&report(NOW, devices), at(NOW));
    let snapshot = snapshot_from_readings(&[("Thalys".to_string(), reading)]);
    assert_eq!(
        snapshot.gpu_activity_of(&thalys_gpu0()),
        Some(GpuActivity::new(87)),
        "レポートに載っているデバイスの稼働状況は読み取れる"
    );
}

#[test]
fn a_report_without_device_activity_leaves_it_unknown() {
    let o = observer();
    let reading = o.reading_from_report(&report(NOW, vec![]), at(NOW));
    let snapshot = snapshot_from_readings(&[("Thalys".to_string(), reading)]);
    assert_eq!(snapshot.gpu_activity_of(&thalys_gpu0()), None, "報告のないことを、計算していないことの証拠にしてはいけない");
    assert_eq!(snapshot.usages().len(), 1, "稼働状況が無くても、誰が乗っているかは読み取れる");
}

#[test]
fn a_report_that_cannot_be_parsed_is_reported_as_unreadable() {
    let readings = vec![("Thalys".to_string(), ServerReading::unavailable(ServerObservation::Unreadable))];
    let snapshot = snapshot_from_readings(&readings);
    assert!(!snapshot.covers("Thalys"));
    assert_eq!(snapshot.servers()[0].1, ServerObservation::Unreadable, "壊れたレポートは、届いていないこととは別の手当てが要る");
}

#[test]
fn a_report_is_stale_only_past_the_limit() {
    let o = observer();
    assert!(!o.report_is_stale(at(NOW), at(NOW - 20)));
    assert!(o.report_is_stale(at(NOW), Instant { seconds: NOW - 21, nanos: 999_999_999 }));
}

#[test]
fn the_mock_observer_covers_the_servers_of_its_usages() {
    let mut o = MockResourceUsageObserver::new();
    let usage = ObservedUsage::new(
        Resource::Gpu(thalys_gpu0()),
        ExternalIdentity::new(ExternalSystem::Os { server: "Thalys".to_string() }, "kkawaguchi".to_string()),
        at(NOW - 60),
    );
    o.set_active_usages(vec![usage], at(NOW));
    let snapshot = o.observe_active_usages();
    assert!(snapshot.covers("Thalys"));
    assert!(!snapshot.covers("Freccia"));
    assert_eq!(snapshot.usages().len(), 1);
}
