//! Notification format settings: message templates and display styles.
use vstd::prelude::*;

verus! {

/// Message templates per event kind.
///
/// Placeholders: `{user}`, `{resource}`, `{time}`, `{notes}`, `{resource_label}`.
/// A missing template falls back to the built-in one.
#[derive(Debug, Clone, PartialEq, Eq, Hash)]
pub struct TemplateConfig {
    /// Template for a created reservation.
    pub created: Option<String>,
    /// Template for an updated reservation.
    pub updated: Option<String>,
    /// Template for a deleted reservation.
    pub deleted: Option<String>,
    /// Template for a reservation that conflicts with an existing one.
    pub conflict: Option<String>,
}

impl Default for TemplateConfig {
    fn default() -> (t: TemplateConfig)
        ensures
            t.created is None,
            t.updated is None,
            t.deleted is None,
            t.conflict is None,
    {
        TemplateConfig { created: None, updated: None, deleted: None, conflict: None }
    }
}

impl TemplateConfig {
    /// A copy with the same templates.
    pub fn duplicate(&self) -> (t: TemplateConfig)
        ensures
            crate::domain::resource::opt_view(t.created) == crate::domain::resource::opt_view(
                self.created,
            ),
            crate::domain::resource::opt_view(t.updated) == crate::domain::resource::opt_view(
                self.updated,
            ),
            crate::domain::resource::opt_view(t.deleted) == crate::domain::resource::opt_view(
                self.deleted,
            ),
            crate::domain::resource::opt_view(t.conflict) == crate::domain::resource::opt_view(
                self.conflict,
            ),
    {
        TemplateConfig {
            created: crate::domain::resource::duplicate_opt(&self.created),
            updated: crate::domain::resource::duplicate_opt(&self.updated),
            deleted: crate::domain::resource::duplicate_opt(&self.deleted),
            conflict: crate::domain::resource::duplicate_opt(&self.conflict),
        }
    }
}

/// How resources are listed.
#[derive(Debug, Clone, Copy, PartialEq, Eq, Hash, Structural)]
pub enum ResourceStyle {
    /// One line per resource: "Thalys / A100 80GB PCIe / GPU:0".
    Full,
    /// One line per server with its device numbers: "Thalys 0,1,2".
    Compact,
    /// Server names only: "Thalys".
    ServerOnly,
}

impl Default for ResourceStyle {
    fn default() -> (s: ResourceStyle)
        ensures
            s == ResourceStyle::Full,
    {
        ResourceStyle::Full
    }
}

/// How a period is shown.
#[derive(Debug, Clone, Copy, PartialEq, Eq, Hash, Structural)]
pub enum TimeStyle {
    /// "2024-01-15 19:00 - 2024-01-15 21:00 (Asia/Tokyo)".
    Full,
    /// The end date is left out on a single day: "1/15 19:00-21:00".
    Smart,
    /// Relative day names: "今日 19:00-21:00".
    Relative,
}

impl Default for TimeStyle {
    fn default() -> (s: TimeStyle)
        ensures
            s == TimeStyle::Full,
    {
        TimeStyle::Full
    }
}

/// How a date is shown.
#[derive(Debug, Clone, Copy, PartialEq, Eq, Hash, Structural)]
pub enum DateFormat {
    /// "2024-01-15".
    Ymd,
    /// "1/15".
    Md,
    /// "1月15日".
    MdJapanese,
}

impl Default for DateFormat {
    fn default() -> (f: DateFormat)
        ensures
            f == DateFormat::Ymd,
    {
        DateFormat::Ymd
    }
}

/// Display styles for resources, periods and dates.
#[derive(Debug, Clone, Copy, PartialEq, Eq, Hash, Structural)]
pub struct FormatConfig {
    pub resource_style: ResourceStyle,
    pub time_style: TimeStyle,
    pub date_format: DateFormat,
}

impl Default for FormatConfig {
    fn default() -> (f: FormatConfig)
        ensures
            f.resource_style == ResourceStyle::Full,
            f.time_style == TimeStyle::Full,
            f.date_format == DateFormat::Ymd,
    {
        FormatConfig {
            resource_style: ResourceStyle::Full,
            time_style: TimeStyle::Full,
            date_format: DateFormat::Ymd,
        }
    }
}

/// Templates and display styles of one notification destination.
#[derive(Debug, Clone, PartialEq, Eq, Hash)]
pub struct NotificationCustomization {
    pub templates: TemplateConfig,
    pub format: FormatConfig,
}

impl Default for NotificationCustomization {
    fn default() -> (c: NotificationCustomization)
        ensures
            c.templates.created is None,
            c.templates.updated is None,
            c.templates.deleted is None,
            c.templates.conflict is None,
            c.format.resource_style == ResourceStyle::Full,
            c.format.time_style == TimeStyle::Full,
            c.format.date_format == DateFormat::Ymd,
    {
        NotificationCustomization { templates: TemplateConfig::default(), format: FormatConfig::default() }
    }
}

} // verus!
