//! Default settings, following the standard paths of a systemd deployment.
use vstd::prelude::*;

verus! {

/// Default path of the Google service account key.
pub const GOOGLE_SERVICE_ACCOUNT_KEY_PATH: &'static str = "/etc/lab-resource-manager/service-account.json";

/// Default path of the resource file.
pub const RESOURCE_CONFIG_PATH: &'static str = "/etc/lab-resource-manager/resources.toml";

/// Default path of the identity link file.
pub const IDENTITY_LINKS_FILE: &'static str = "/var/lib/lab-resource-manager/identity_links.json";

/// Default path of the calendar event mapping file.
pub const CALENDAR_MAPPINGS_FILE: &'static str =
    "/var/lib/lab-resource-manager/google_calendar_mappings.json";

/// Default polling interval, in seconds.
pub const POLLING_INTERVAL_SECS: u64 = 60;

/// Default age, in seconds, after which a GPU usage report is stale.
pub const GPU_USAGE_MAX_STALENESS_SECS: u64 = 300;

/// Default time, in seconds, an unreserved use must last before a reservation is proposed.
pub const UNRESERVED_USAGE_THRESHOLD_SECS: u64 = 600;

/// Default time, in seconds, a reservation must stay unused before it counts as idle.
pub const IDLE_RESERVATION_THRESHOLD_SECS: u64 = 1800;

/// Default time, in seconds, a reserved GPU must be held without computing before it counts
/// as idle.
pub const IDLE_HELD_GPU_THRESHOLD_SECS: u64 = 1800;

/// Default utilization, in percent, from which a GPU counts as computing.
pub const COMPUTING_GPU_UTILIZATION_PERCENT: u64 = 5;

/// Default policy for GPUs held without computing.
pub const IDLE_HELD_GPU_NOTICES: &'static str = "observe";

/// Default time, in seconds, during which an idle reservation is not noticed again.
pub const IDLE_NOTICE_SILENCE_SECS: u64 = 3600;

/// Default durations, in hours and comma separated, offered for a reservation after the fact.
pub const RESERVATION_PROPOSAL_DURATION_CANDIDATES_HOURS: &'static str = "1,2,3,5,8";

/// Default path of the MCP access token file.
pub const MCP_TOKENS_FILE: &'static str = "/var/lib/lab-resource-manager/mcp_tokens.json";

/// Default time zone (IANA name) of the web pages.
pub const WEB_TIMEZONE: &'static str = "Asia/Tokyo";

} // verus!
