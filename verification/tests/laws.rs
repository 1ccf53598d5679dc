use lab_resource_manager::domain::identity::{
    ExternalIdentity, ExternalIdentityBindingRecord, ExternalSystem, IdentityLink, Instant,
};
use lab_resource_manager::domain::resource::{Gpu, Resource, ResourceUsage, TimePeriod};
use lab_resource_manager::infrastructure::config::resource_config::{DeviceConfig, ServerConfig};
use lab_resource_manager::infrastructure::repositories::resource_usage::google_calendar::gpu_spec::create_gpus_from_spec;
use lab_resource_manager::infrastructure::repositories::resource_usage::google_calendar::repository::{
    format_gpu_spec, resolve_os_user_name,
};
use lab_resource_manager::parse::{parse_i64, parse_unsigned_at_most};
use lab_resource_manager::text::decimal_string;

fn gpu(n: u32) -> Resource {
    Resource::Gpu(Gpu::new("Thalys".to_string(), n, "A100".to_string()))
}

#[test]
fn a_number_written_in_decimal_reads_back() {
    for n in [0u64, 7, 10, 4_294_967_295, u64::MAX] {
        assert_eq!(parse_unsigned_at_most(&decimal_string(n), u64::MAX), Some(n));
    }
    assert_eq!(parse_unsigned_at_most("300", 255), None);
    assert_eq!(parse_i64("-42"), Some(-42));
    assert_eq!(parse_i64("+42"), Some(42));
    assert_eq!(parse_i64("4 2"), None);
}

#[test]
fn the_title_of_a_reservation_reads_back_as_its_devices_in_order() {
    let server = ServerConfig {
        name: "Thalys".to_string(),
        devices: (0..8).map(|id| DeviceConfig { id, model: "A100".to_string() }).collect(),
        notifications: vec![],
    };
    let title = format_gpu_spec(&[gpu(5), gpu(1), gpu(7)]).unwrap();
    assert_eq!(title, "1,5,7");
    let read = create_gpus_from_spec(&title, &server).unwrap();
    let numbers: Vec<u32> = read
        .iter()
        .map(|r| match r {
            Resource::Gpu(g) => g.device_number(),
            Resource::Room { .. } => panic!("a GPU title names GPUs"),
        })
        .collect();
    assert_eq!(numbers, vec![1, 5, 7]);
    assert_eq!(format_gpu_spec(&[Resource::Room { name: "会議室A".to_string() }]), None);
}

#[test]
fn overlap_does_not_depend_on_the_order() {
    let a = TimePeriod::new(0, 10).unwrap();
    let b = TimePeriod::new(9, 20).unwrap();
    let c = TimePeriod::new(10, 20).unwrap();
    assert!(a.overlaps_with(&b) && b.overlaps_with(&a));
    assert!(!a.overlaps_with(&c) && !c.overlaps_with(&a));
    assert!(a.overlaps_with(&a));
    assert!(TimePeriod::new(5, 5).is_none());
}

#[test]
fn the_os_user_is_the_one_linked_for_the_reserved_server() {
    let link = IdentityLink::reconstitute(
        "owner@example.com".to_string(),
        vec![
            ExternalIdentityBindingRecord::reconstitute(
                ExternalIdentity::new(ExternalSystem::Os { server: "Freccia".to_string() }, "other".to_string()),
                Instant { seconds: 0, nanos: 0 },
            ),
            ExternalIdentityBindingRecord::reconstitute(
                ExternalIdentity::new(ExternalSystem::Os { server: "Thalys".to_string() }, "kkawaguchi".to_string()),
                Instant { seconds: 0, nanos: 0 },
            ),
        ],
        Instant { seconds: 0, nanos: 0 },
        Instant { seconds: 0, nanos: 0 },
    );
    let usage = ResourceUsage::reconstruct(
        "u".to_string(),
        "owner@example.com".to_string(),
        TimePeriod::new(0, 10).unwrap(),
        vec![Resource::Room { name: "会議室A".to_string() }, gpu(0)],
        None,
    );
    assert_eq!(resolve_os_user_name(&usage, Some(&link)), Some("kkawaguchi".to_string()));
    assert_eq!(resolve_os_user_name(&usage, None), None);
    let room_only = ResourceUsage::reconstruct(
        "u".to_string(),
        "owner@example.com".to_string(),
        TimePeriod::new(0, 10).unwrap(),
        vec![Resource::Room { name: "会議室A".to_string() }],
        None,
    );
    assert_eq!(resolve_os_user_name(&room_only, Some(&link)), None);
}
