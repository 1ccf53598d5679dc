//! The application settings.
use crate::infrastructure::config::loader::NoticePolicy;
use crate::text::strings_view;
use vstd::prelude::*;

verus! {

/// Model of the application settings.
pub struct AppConfigView {
    pub google_service_account_key_path: Seq<char>,
    pub slack_bot_token: Seq<char>,
    pub slack_app_token: Seq<char>,
    pub resource_config_path: Seq<char>,
    pub identity_links_file: Seq<char>,
    pub calendar_mappings_file: Seq<char>,
    pub polling_interval_secs: u64,
    pub gpu_usage_reports_dir: Option<Seq<char>>,
    pub gpu_usage_max_staleness_secs: u64,
    pub unreserved_usage_threshold_secs: u64,
    pub idle_reservation_threshold_secs: u64,
    pub idle_held_gpu_threshold_secs: u64,
    pub computing_gpu_utilization_percent: u32,
    pub idle_held_gpu_notices: NoticePolicy,
    pub idle_notice_silence_secs: u64,
    pub reservation_proposal_duration_candidates: Seq<int>,
    pub mcp_listen_addr: Option<Seq<char>>,
    pub mcp_tokens_file: Seq<char>,
    pub mcp_allowed_hosts: Seq<Seq<char>>,
    pub mcp_tls_cert_file: Option<Seq<char>>,
    pub mcp_tls_key_file: Option<Seq<char>>,
}

/// The settings of the whole application.
#[derive(Debug)]
pub struct AppConfig {
    /// Path of the Google service account key.
    pub google_service_account_key_path: String,
    /// Slack bot token (xoxb-...).
    pub slack_bot_token: String,
    /// Slack app-level token for socket mode (xapp-...).
    pub slack_app_token: String,
    /// Path of the resource file.
    pub resource_config_path: String,
    /// Path of the identity link file.
    pub identity_links_file: String,
    /// Path of the calendar event mapping file.
    pub calendar_mappings_file: String,
    /// Polling interval, in seconds.
    pub polling_interval_secs: u64,
    /// Directory of the shared GPU usage reports; observation is off when unset.
    pub gpu_usage_reports_dir: Option<String>,
    /// Age, in seconds, after which a GPU usage report is stale.
    pub gpu_usage_max_staleness_secs: u64,
    /// Time, in seconds, an unreserved use must last before a reservation is proposed.
    pub unreserved_usage_threshold_secs: u64,
    /// Time, in seconds, a reservation must stay unused before it counts as idle.
    pub idle_reservation_threshold_secs: u64,
    /// Time, in seconds, a reserved GPU must be held without computing to count as idle.
    pub idle_held_gpu_threshold_secs: u64,
    /// Utilization, in percent, from which a GPU counts as computing.
    pub computing_gpu_utilization_percent: u32,
    /// Whether GPUs held without computing are announced.
    pub idle_held_gpu_notices: NoticePolicy,
    /// Time, in seconds, during which an idle reservation is not noticed again.
    pub idle_notice_silence_secs: u64,
    /// Durations offered for a reservation after the fact, in hours.
    pub reservation_proposal_duration_candidates: Vec<i64>,
    /// MCP listen address ("host:port"); MCP is off when unset.
    pub mcp_listen_addr: Option<String>,
    /// Path of the MCP access token file.
    pub mcp_tokens_file: String,
    /// Host header values MCP requests may carry; at least one when MCP is on, none when off.
    pub mcp_allowed_hosts: Vec<String>,
    /// Path of the MCP TLS certificate (PEM); TLS is off when unset.
    pub mcp_tls_cert_file: Option<String>,
    /// Path of the MCP TLS private key (PEM); TLS is off when unset.
    pub mcp_tls_key_file: Option<String>,
}

/// The model of an optional string.
pub open spec fn opt_seq(o: Option<String>) -> Option<Seq<char>> {
    match o {
        Some(s) => Some(s@),
        None => None,
    }
}

impl View for AppConfig {
    type V = AppConfigView;

    open spec fn view(&self) -> AppConfigView {
        AppConfigView {
            google_service_account_key_path: self.google_service_account_key_path@,
            slack_bot_token: self.slack_bot_token@,
            slack_app_token: self.slack_app_token@,
            resource_config_path: self.resource_config_path@,
            identity_links_file: self.identity_links_file@,
            calendar_mappings_file: self.calendar_mappings_file@,
            polling_interval_secs: self.polling_interval_secs,
            gpu_usage_reports_dir: opt_seq(self.gpu_usage_reports_dir),
            gpu_usage_max_staleness_secs: self.gpu_usage_max_staleness_secs,
            unreserved_usage_threshold_secs: self.unreserved_usage_threshold_secs,
            idle_reservation_threshold_secs: self.idle_reservation_threshold_secs,
            idle_held_gpu_threshold_secs: self.idle_held_gpu_threshold_secs,
            computing_gpu_utilization_percent: self.computing_gpu_utilization_percent,
            idle_held_gpu_notices: self.idle_held_gpu_notices,
            idle_notice_silence_secs: self.idle_notice_silence_secs,
            reservation_proposal_duration_candidates:
                self.reservation_proposal_duration_candidates@.map_values(|h: i64| h as int),
            mcp_listen_addr: opt_seq(self.mcp_listen_addr),
            mcp_tokens_file: self.mcp_tokens_file@,
            mcp_allowed_hosts: strings_view(self.mcp_allowed_hosts@),
            mcp_tls_cert_file: opt_seq(self.mcp_tls_cert_file),
            mcp_tls_key_file: opt_seq(self.mcp_tls_key_file),
        }
    }
}

} // verus!
