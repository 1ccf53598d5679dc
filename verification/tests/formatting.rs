use lab_resource_manager::domain::resource::{Gpu, Resource, ResourceUsage, TimePeriod};
use lab_resource_manager::infrastructure::config::notification_format::{
    DateFormat, FormatConfig, ResourceStyle, TemplateConfig, TimeStyle,
};
use lab_resource_manager::infrastructure::notifier::formatter::{
    date_format_string, format_number_list, format_resources_compact,
    format_resources_server_only, format_resources_styled, format_time_full, format_time_smart,
};
use lab_resource_manager::infrastructure::notifier::template_renderer::{
    render_placeholders, TemplateRenderer,
};

/// 2024-01-15 10:00 UTC.
const JAN_15_10_UTC: i64 = 1705312800;
/// 2024-01-15 12:00 UTC.
const JAN_15_12_UTC: i64 = 1705320000;
/// 2024-01-15 22:00 UTC.
const JAN_15_22_UTC: i64 = 1705356000;
/// 2024-01-16 06:00 UTC.
const JAN_16_06_UTC: i64 = 1705384800;

fn gpu(server: &str, n: u32, model: &str) -> Resource {
    Resource::Gpu(Gpu::new(server.to_string(), n, model.to_string()))
}

fn room(name: &str) -> Resource {
    Resource::Room { name: name.to_string() }
}

fn test_period() -> TimePeriod {
    TimePeriod::new(JAN_15_10_UTC, JAN_15_12_UTC).unwrap()
}

fn create_test_usage() -> ResourceUsage {
    ResourceUsage::reconstruct(
        "usage-1".to_string(),
        "test@example.com".to_string(),
        test_period(),
        vec![gpu("Thalys", 0, "A100"), gpu("Thalys", 1, "A100")],
        Some("テスト用予約".to_string()),
    )
}

#[test]
fn test_format_resources_compact_single_server() {
    let resources = vec![gpu("Thalys", 0, "A100"), gpu("Thalys", 2, "A100"), gpu("Thalys", 1, "A100")];
    assert_eq!(format_resources_compact(&resources), "Thalys 0,1,2");
}

#[test]
fn test_format_resources_compact_multiple_servers() {
    let resources =
        vec![gpu("Thalys", 0, "A100"), gpu("Freccia", 1, "RTX6000"), gpu("Thalys", 2, "A100")];
    assert_eq!(format_resources_compact(&resources), "Freccia 1\nThalys 0,2");
}

#[test]
fn test_format_resources_compact_with_room() {
    let resources = vec![gpu("Thalys", 0, "A100"), room("会議室A")];
    assert_eq!(format_resources_compact(&resources), "Thalys 0\n会議室A");
}

#[test]
fn a_device_listed_twice_is_listed_twice() {
    let resources = vec![gpu("Thalys", 1, "A100"), gpu("Thalys", 1, "A100")];
    assert_eq!(format_resources_compact(&resources), "Thalys 1,1");
}

#[test]
fn test_format_resources_server_only() {
    let resources =
        vec![gpu("Thalys", 0, "A100"), gpu("Thalys", 1, "A100"), gpu("Freccia", 0, "RTX6000")];
    assert_eq!(format_resources_server_only(&resources), "Freccia\nThalys");
}

#[test]
fn test_format_resources_styled_full() {
    let resources = vec![gpu("Thalys", 0, "A100")];
    assert_eq!(format_resources_styled(&resources, ResourceStyle::Full), "Thalys / A100 / GPU:0");
}

#[test]
fn the_full_style_puts_each_resource_on_its_own_line() {
    let resources = vec![gpu("Thalys", 4, "A100"), room("会議室A")];
    assert_eq!(
        format_resources_styled(&resources, ResourceStyle::Full),
        "Thalys / A100 / GPU:4\n会議室A"
    );
}

#[test]
fn a_number_list_is_joined_with_commas() {
    assert_eq!(format_number_list(&[0, 1, 12]), "0,1,12");
    assert_eq!(format_number_list(&[]), "");
}

#[test]
fn test_format_time_smart_same_day_jst() {
    let result = format_time_smart(&test_period(), Some("Asia/Tokyo"), DateFormat::Md);
    assert_eq!(result, "1/15 19:00-21:00");
}

#[test]
fn test_format_time_smart_same_day_japanese() {
    let result = format_time_smart(&test_period(), Some("Asia/Tokyo"), DateFormat::MdJapanese);
    assert_eq!(result, "1月15日 19:00-21:00");
}

#[test]
fn test_format_time_smart_multi_day() {
    let period = TimePeriod::new(JAN_15_22_UTC, JAN_16_06_UTC).unwrap();
    let result = format_time_smart(&period, Some("Asia/Tokyo"), DateFormat::Md);
    assert_eq!(result, "1/16 07:00-15:00");
}

#[test]
fn test_format_time_smart_ymd_format() {
    let result = format_time_smart(&test_period(), Some("Asia/Tokyo"), DateFormat::Ymd);
    assert_eq!(result, "2024-01-15 19:00-21:00");
}

#[test]
fn a_period_over_midnight_shows_both_dates() {
    let period = TimePeriod::new(JAN_15_10_UTC, JAN_16_06_UTC).unwrap();
    let result = format_time_smart(&period, Some("UTC"), DateFormat::Md);
    assert_eq!(result, "1/15 10:00 - 1/16 06:00");
}

#[test]
fn the_full_style_names_the_zone() {
    let result = format_time_full(&test_period(), Some("Asia/Tokyo"));
    assert_eq!(result, "2024-01-15 19:00 - 2024-01-15 21:00 (Asia/Tokyo)");
}

#[test]
fn test_date_format_string() {
    assert_eq!(date_format_string(DateFormat::Ymd), "%Y-%m-%d");
    assert_eq!(date_format_string(DateFormat::Md), "%-m/%-d");
    assert_eq!(date_format_string(DateFormat::MdJapanese), "%-m月%-d日");
}

#[test]
fn test_render_with_default_template() {
    let templates = TemplateConfig::default();
    let format = FormatConfig::default();
    let renderer = TemplateRenderer::new(&templates, &format, Some("Asia/Tokyo"));
    let result = renderer.render_created(&create_test_usage(), "<@U12345>");
    assert!(result.contains("🔔 新規予約"));
    assert!(result.contains("<@U12345>"));
    assert!(result.contains("Thalys"));
    assert!(result.contains("📝 備考"));
    assert!(result.contains("テスト用予約"));
}

#[test]
fn test_render_with_custom_template() {
    let templates = TemplateConfig {
        created: Some("{user}が{resource}を{time}使います".to_string()),
        updated: None,
        deleted: None,
        conflict: None,
    };
    let format = FormatConfig {
        resource_style: ResourceStyle::Compact,
        time_style: TimeStyle::Smart,
        date_format: DateFormat::Md,
    };
    let renderer = TemplateRenderer::new(&templates, &format, Some("Asia/Tokyo"));
    let result = renderer.render_created(&create_test_usage(), "田中太郎");
    assert!(result.contains("田中太郎が"));
    assert!(result.contains("Thalys 0,1"));
    assert!(result.contains("1/15"));
    assert!(result.contains("使います"));
    assert!(!result.contains("備考"));
    assert_eq!(result, "田中太郎がThalys 0,1を1/15 19:00-21:00使います");
}

#[test]
fn test_render_with_custom_format_only() {
    let templates = TemplateConfig::default();
    let format = FormatConfig {
        resource_style: ResourceStyle::ServerOnly,
        time_style: TimeStyle::Relative,
        date_format: DateFormat::MdJapanese,
    };
    let renderer = TemplateRenderer::new(&templates, &format, Some("Asia/Tokyo"));
    let result = renderer.render_updated(&create_test_usage(), "user@example.com");
    assert!(result.contains("🔄 予約更新"));
    assert!(result.contains("Thalys"));
    assert!(!result.contains("GPU:0"));
}

#[test]
fn test_get_resource_label_gpu() {
    let resources = vec![gpu("Thalys", 0, "A100")];
    assert_eq!(TemplateRenderer::get_resource_label(&resources), "💻 予約GPU");
}

#[test]
fn test_get_resource_label_room() {
    let resources = vec![room("会議室A")];
    assert_eq!(TemplateRenderer::get_resource_label(&resources), "🏢 予約部屋");
}

#[test]
fn test_get_resource_label_mixed() {
    let resources = vec![gpu("Thalys", 0, "A100"), room("会議室A")];
    assert_eq!(TemplateRenderer::get_resource_label(&resources), "📦 予約リソース");
}

#[test]
fn test_render_conflict_with_default_template() {
    let templates = TemplateConfig::default();
    let format = FormatConfig::default();
    let renderer = TemplateRenderer::new(&templates, &format, Some("Asia/Tokyo"));
    let conflicting = vec![gpu("Thalys", 0, "A100")];
    let result = renderer.render_conflict(&conflicting, &create_test_usage(), "<@U67890>");
    assert!(result.contains("⚠️ 予約が重複しています"));
    assert!(result.contains("<@U67890>"));
    assert!(result.contains("Thalys"));
    assert!(!result.contains("GPU:1"));
}

#[test]
fn test_render_conflict_with_custom_template() {
    let templates = TemplateConfig {
        created: None,
        updated: None,
        deleted: None,
        conflict: Some("{user}が既に{resource}を{time}で予約済みです".to_string()),
    };
    let format = FormatConfig::default();
    let renderer = TemplateRenderer::new(&templates, &format, Some("Asia/Tokyo"));
    let conflicting = vec![gpu("Thalys", 1, "A100")];
    let result = renderer.render_conflict(&conflicting, &create_test_usage(), "田中太郎");
    assert!(result.contains("田中太郎が既に"));
    assert!(result.contains("GPU:1"));
    assert!(result.contains("予約済みです"));
}

#[test]
fn test_render_without_notes() {
    let templates = TemplateConfig::default();
    let format = FormatConfig::default();
    let renderer = TemplateRenderer::new(&templates, &format, Some("Asia/Tokyo"));
    let usage = ResourceUsage::reconstruct(
        "usage-2".to_string(),
        "test@example.com".to_string(),
        test_period(),
        vec![gpu("Thalys", 0, "A100")],
        None,
    );
    let result = renderer.render_created(&usage, "user");
    assert!(!result.contains("📝 備考"));
}

#[test]
fn a_template_without_placeholders_is_kept_as_written() {
    let result = render_placeholders("そのまま", "a", "b", "c", "d", "e");
    assert_eq!(result, "そのまま");
}

#[test]
fn every_placeholder_is_replaced_wherever_it_stands() {
    let result = render_placeholders("{user}/{user} {resource_label}{resource}{time}{notes}", "L", "R", "U", "T", "N");
    assert_eq!(result, "U/U LRTN");
}
