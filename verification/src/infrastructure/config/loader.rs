//! Reading the application settings from the values of the environment variables.
use crate::infrastructure::config::app_config::{opt_seq, AppConfig, AppConfigView};
use crate::infrastructure::config::defaults;
use crate::domain::resource::duplicate_opt;
use crate::parse::{parse_i64, parse_signed, parse_unsigned, parse_unsigned_at_most, pieces_view, split_chars, trim_chars};
use crate::text::{chars_of, owned, push_str, split, str_equal, string_from_chars, strings_view, trim};
use vstd::prelude::*;

verus! {

/// Model of a settings error.
pub enum ConfigLoadErrorView {
    MissingEnvVar(Seq<char>),
    InvalidEnvVar { name: Seq<char>, reason: Seq<char> },
}

/// Why the settings could not be read.
#[derive(Debug)]
pub enum ConfigLoadError {
    /// A required environment variable is not set.
    MissingEnvVar(String),
    /// An environment variable has a value that cannot be used.
    InvalidEnvVar { name: String, reason: String },
}

impl View for ConfigLoadError {
    type V = ConfigLoadErrorView;

    open spec fn view(&self) -> ConfigLoadErrorView {
        match self {
            ConfigLoadError::MissingEnvVar(n) => ConfigLoadErrorView::MissingEnvVar(n@),
            ConfigLoadError::InvalidEnvVar { name, reason } => ConfigLoadErrorView::InvalidEnvVar {
                name: name@,
                reason: reason@,
            },
        }
    }
}

/// The error for a variable whose value cannot be used.
pub open spec fn invalid(name: Seq<char>, reason: Seq<char>) -> ConfigLoadErrorView {
    ConfigLoadErrorView::InvalidEnvVar { name, reason }
}

/// The text of an error, as it is shown to the operator.
pub open spec fn error_message(e: ConfigLoadErrorView) -> Seq<char> {
    match e {
        ConfigLoadErrorView::MissingEnvVar(n) => "環境変数 "@ + n + " が必要です"@,
        ConfigLoadErrorView::InvalidEnvVar { name, reason } => "環境変数 "@ + name
            + " の値が不正です: "@ + reason,
    }
}

impl ConfigLoadError {
    /// The text of the error.
    pub fn message(&self) -> (m: String)
        ensures
            m@ == error_message(self@),
    {
        match self {
            ConfigLoadError::MissingEnvVar(n) => {
                let mut m = owned("環境変数 ");
                push_str(&mut m, n.as_str());
                push_str(&mut m, " が必要です");
                m
            },
            ConfigLoadError::InvalidEnvVar { name, reason } => {
                let mut m = owned("環境変数 ");
                push_str(&mut m, name.as_str());
                push_str(&mut m, " の値が不正です: ");
                push_str(&mut m, reason.as_str());
                m
            },
        }
    }
}

/// Whether a GPU held without computing is announced or only watched.
#[derive(Debug, Clone, Copy, PartialEq, Eq, Structural)]
pub enum NoticePolicy {
    /// Only watch.
    Observe,
    /// Announce it.
    Notify,
}

/// The reason given for a value that is not a number.
pub open spec fn not_a_number_reason() -> Seq<char> {
    "正の整数である必要があります"@
}

/// The model of an optional string slice.
pub open spec fn opt_str_view(o: Option<&str>) -> Option<Seq<char>> {
    match o {
        Some(s) => Some(s@),
        None => None,
    }
}

/// The model of an optional string.
pub open spec fn opt_string_view(o: Option<String>) -> Option<Seq<char>> {
    match o {
        Some(s) => Some(s@),
        None => None,
    }
}

/// A number setting: the default when unset, else the trimmed value read as a number no
/// greater than `max`, or nothing when it is not one.
pub open spec fn number_setting(raw: Option<Seq<char>>, default: nat, max: nat) -> Option<nat> {
    match raw {
        None => Some(default),
        Some(s) => parse_unsigned(trim(s), max),
    }
}

/// Reads a number setting that is at most `max`, with a default for when it is unset.
pub fn parse_number_env(name: &str, raw: Option<&str>, default: u64, max: u64) -> (r: Result<
    u64,
    ConfigLoadError,
>)
    requires
        default <= max,
    ensures
        match number_setting(opt_str_view(raw), default as nat, max as nat) {
            Some(v) => r matches Ok(x) && x == v,
            None => r matches Err(e) && e@ == invalid(name@, not_a_number_reason()),
        },
{
    match raw {
        None => Ok(default),
        Some(s) => {
            let t = string_from_chars(trim_chars(chars_of(s).as_slice()).as_slice());
            match parse_unsigned_at_most(t.as_str(), max) {
                Some(v) => Ok(v),
                None => Err(
                    ConfigLoadError::InvalidEnvVar {
                        name: owned(name),
                        reason: owned("正の整数である必要があります"),
                    },
                ),
            }
        },
    }
}

/// The policy a setting names, after trimming.
pub open spec fn notice_policy_named(raw: Seq<char>) -> Option<NoticePolicy> {
    if trim(raw) == "observe"@ {
        Some(NoticePolicy::Observe)
    } else if trim(raw) == "notify"@ {
        Some(NoticePolicy::Notify)
    } else {
        None
    }
}

/// The reason given for a policy that is neither "observe" nor "notify".
pub open spec fn unknown_policy_reason(raw: Seq<char>) -> Seq<char> {
    "'"@ + trim(raw) + "'ではなく、observeかnotifyを指定してください"@
}

/// Reads whether idle held GPUs are announced ("notify") or only watched ("observe").
pub fn parse_notice_policy(name: &str, raw: &str) -> (r: Result<NoticePolicy, ConfigLoadError>)
    ensures
        match notice_policy_named(raw@) {
            Some(p) => r matches Ok(q) && q == p,
            None => r matches Err(e) && e@ == invalid(name@, unknown_policy_reason(raw@)),
        },
{
    let t = string_from_chars(trim_chars(chars_of(raw).as_slice()).as_slice());
    if str_equal(t.as_str(), "observe") {
        Ok(NoticePolicy::Observe)
    } else if str_equal(t.as_str(), "notify") {
        Ok(NoticePolicy::Notify)
    } else {
        let mut reason = owned("'");
        push_str(&mut reason, t.as_str());
        push_str(&mut reason, "'ではなく、observeかnotifyを指定してください");
        Err(ConfigLoadError::InvalidEnvVar { name: owned(name), reason })
    }
}

/// The reason given for a percentage above a hundred.
pub open spec fn percentage_reason() -> Seq<char> {
    "0から100までの値である必要があります"@
}

/// Accepts a percentage from 0 to 100.
pub fn validate_percentage(name: &str, value: u32) -> (r: Result<u32, ConfigLoadError>)
    ensures
        value <= 100 ==> (r matches Ok(v) && v == value),
        value > 100 ==> (r matches Err(e) && e@ == invalid(name@, percentage_reason())),
{
    if value > 100 {
        return Err(
            ConfigLoadError::InvalidEnvVar {
                name: owned(name),
                reason: owned("0から100までの値である必要があります"),
            },
        );
    }
    Ok(value)
}

/// The name of the variable that holds the proposed durations.
pub open spec fn candidates_name() -> Seq<char> {
    "RESERVATION_PROPOSAL_DURATION_CANDIDATES_HOURS"@
}

/// The trimmed comma-separated pieces of a list.
pub open spec fn trimmed_pieces(raw: Seq<char>) -> Seq<Seq<char>> {
    split(raw, ',').map_values(|p: Seq<char>| trim(p))
}

/// The position of the first piece that is not an `i64` literal, if any.
pub open spec fn first_unparsable(pieces: Seq<Seq<char>>) -> Option<int>
    decreases pieces.len(),
{
    if pieces.len() == 0 {
        None
    } else {
        match first_unparsable(pieces.drop_last()) {
            Some(i) => Some(i),
            None => if parse_signed(pieces.last()) is None {
                Some(pieces.len() - 1)
            } else {
                None
            },
        }
    }
}

/// The values of pieces that all are `i64` literals.
pub open spec fn piece_values(pieces: Seq<Seq<char>>) -> Seq<int> {
    pieces.map_values(|p: Seq<char>| parse_signed(p)->0)
}

/// The reason given for a piece that is not a number.
pub open spec fn bad_candidate_reason(piece: Seq<char>) -> Seq<char> {
    "'"@ + piece + "'は正の整数である必要があります"@
}

/// The reason given for an empty list of durations.
pub open spec fn no_candidate_reason() -> Seq<char> {
    "少なくとも1つの候補が必要です"@
}

/// The outcome of reading a comma-separated list of hours.
pub open spec fn duration_candidates(raw: Seq<char>) -> Result<Seq<int>, ConfigLoadErrorView> {
    let pieces = trimmed_pieces(raw);
    match first_unparsable(pieces) {
        Some(i) => Err(invalid(candidates_name(), bad_candidate_reason(pieces[i]))),
        None => if pieces.len() == 0 {
            Err(invalid(candidates_name(), no_candidate_reason()))
        } else {
            Ok(piece_values(pieces))
        },
    }
}

/// The values of a list of hours, as integers.
pub open spec fn hours_view(v: Seq<i64>) -> Seq<int> {
    v.map_values(|h: i64| h as int)
}

/// Reads a comma-separated list of hours, such as "1,2,3,5,8".
pub fn parse_duration_candidates_hours(raw: &str) -> (r: Result<Vec<i64>, ConfigLoadError>)
    ensures
        match duration_candidates(raw@) {
            Ok(hours) => r matches Ok(v) && hours_view(v@) == hours,
            Err(e) => r matches Err(x) && x@ == e,
        },
{
    let parts = split_chars(chars_of(raw).as_slice(), ',');
    let ghost pieces = trimmed_pieces(raw@);
    assert(pieces =~= pieces_view(parts@).map_values(|p: Seq<char>| trim(p)));
    let mut out: Vec<i64> = Vec::new();
    let mut i: usize = 0;
    while i < parts.len()
        invariant
            pieces == pieces_view(parts@).map_values(|p: Seq<char>| trim(p)),
            pieces == trimmed_pieces(raw@),
            i <= parts@.len(),
            first_unparsable(pieces.subrange(0, i as int)) is None,
            hours_view(out@) == piece_values(pieces.subrange(0, i as int)),
        decreases parts@.len() - i,
    {
        let piece = string_from_chars(trim_chars(parts[i].as_slice()).as_slice());
        assert(piece@ == pieces[i as int]);
        let ghost prefix = pieces.subrange(0, i + 1);
        assert(prefix.drop_last() =~= pieces.subrange(0, i as int));
        assert(prefix.last() == pieces[i as int]);
        match parse_i64(piece.as_str()) {
            Some(h) => {
                let ghost before = hours_view(out@);
                out.push(h);
                assert(hours_view(out@) =~= before.push(h as int));
                assert(piece_values(prefix) =~= piece_values(pieces.subrange(0, i as int)).push(
                    h as int,
                ));
            },
            None => {
                assert(first_unparsable(prefix) == Some(i as int));
                assert(pieces.subrange(0, parts@.len() as int).subrange(0, i + 1) =~= prefix);
                proof {
                    lemma_first_unparsable_extends(pieces, i as int);
                }
                let mut reason = owned("'");
                push_str(&mut reason, piece.as_str());
                push_str(&mut reason, "'は正の整数である必要があります");
                let name = owned("RESERVATION_PROPOSAL_DURATION_CANDIDATES_HOURS");
                assert(name@ == candidates_name());
                return Err(ConfigLoadError::InvalidEnvVar { name, reason });
            },
        }
        i = i + 1;
    }
    assert(pieces.subrange(0, parts@.len() as int) =~= pieces);
    if out.len() == 0 {
        return Err(
            ConfigLoadError::InvalidEnvVar {
                name: owned("RESERVATION_PROPOSAL_DURATION_CANDIDATES_HOURS"),
                reason: owned("少なくとも1つの候補が必要です"),
            },
        );
    }
    Ok(out)
}

/// A failure found in a prefix is the first failure of the whole.
proof fn lemma_first_unparsable_extends(pieces: Seq<Seq<char>>, i: int)
    requires
        0 <= i < pieces.len(),
        first_unparsable(pieces.subrange(0, i + 1)) == Some(i),
    ensures
        first_unparsable(pieces) == Some(i),
    decreases pieces.len(),
{
    if pieces.len() == i + 1 {
        assert(pieces.subrange(0, i + 1) =~= pieces);
    } else {
        let t = pieces.drop_last();
        assert(t.subrange(0, i + 1) =~= pieces.subrange(0, i + 1));
        lemma_first_unparsable_extends(t, i);
    }
}

/// The hosts of a comma-separated list: its trimmed pieces that are not empty.
pub open spec fn allowed_hosts(raw: Seq<char>) -> Seq<Seq<char>> {
    trimmed_pieces(raw).filter(|h: Seq<char>| h.len() > 0)
}

/// The reason given when MCP is on and no host is allowed.
pub open spec fn no_host_reason() -> Seq<char> {
    "MCP_LISTEN_ADDR設定時は少なくとも1つのホストを指定する必要があります"@
}

/// The hosts that MCP requests may name, when MCP is on (a listen address is set): at
/// least one must be given. When MCP is off the list is empty and not checked.
pub fn validate_mcp_allowed_hosts(mcp_listen_addr: Option<&str>, raw: Option<&str>) -> (r:
    Result<Vec<String>, ConfigLoadError>)
    ensures
        mcp_listen_addr is None ==> (r matches Ok(v) && v@.len() == 0),
        mcp_listen_addr is Some ==> ({
            let hosts = match raw {
                Some(s) => allowed_hosts(s@),
                None => Seq::empty(),
            };
            if hosts.len() == 0 {
                r matches Err(e) && e@ == invalid("MCP_ALLOWED_HOSTS"@, no_host_reason())
            } else {
                r matches Ok(v) && strings_view(v@) == hosts
            }
        }),
{
    if mcp_listen_addr.is_none() {
        return Ok(Vec::new());
    }
    let mut hosts: Vec<String> = Vec::new();
    match raw {
        Some(s) => {
            let parts = split_chars(chars_of(s).as_slice(), ',');
            let ghost pieces = trimmed_pieces(s@);
            let ghost pred = |h: Seq<char>| h.len() > 0;
            assert(pieces =~= pieces_view(parts@).map_values(|p: Seq<char>| trim(p)));
            let mut i: usize = 0;
            while i < parts.len()
                invariant
                    pieces == pieces_view(parts@).map_values(|p: Seq<char>| trim(p)),
                    pred == (|h: Seq<char>| h.len() > 0),
                    i <= parts@.len(),
                    strings_view(hosts@) == pieces.subrange(0, i as int).filter(pred),
                decreases parts@.len() - i,
            {
                let host = string_from_chars(trim_chars(parts[i].as_slice()).as_slice());
                assert(host@ == pieces[i as int]);
                let ghost before = pieces.subrange(0, i as int);
                let ghost before_hosts = strings_view(hosts@);
                assert(pieces.subrange(0, i + 1) =~= before.push(host@));
                proof {
                    before.lemma_filter_push(host@, pred);
                }
                if host.as_str().unicode_len() > 0 {
                    hosts.push(host);
                    assert(strings_view(hosts@) =~= before_hosts.push(pieces[i as int]));
                }
                i = i + 1;
            }
            assert(pieces.subrange(0, parts@.len() as int) =~= pieces);
        },
        None => {},
    }
    if hosts.len() == 0 {
        return Err(
            ConfigLoadError::InvalidEnvVar {
                name: owned("MCP_ALLOWED_HOSTS"),
                reason: owned("MCP_LISTEN_ADDR設定時は少なくとも1つのホストを指定する必要があります"),
            },
        );
    }
    Ok(hosts)
}

/// The reason given when only one of the TLS files is set.
pub open spec fn tls_reason() -> Seq<char> {
    "TLSを有効化するには両方を設定する必要があります"@
}

/// Accepts the TLS certificate and key paths when both or neither are set.
pub fn validate_mcp_tls_paths(cert: &Option<String>, key: &Option<String>) -> (r: Result<
    (),
    ConfigLoadError,
>)
    ensures
        (cert is Some) == (key is Some) ==> r is Ok,
        (cert is Some) != (key is Some) ==> (r matches Err(e) && e@ == invalid(
            "MCP_TLS_CERT_FILE / MCP_TLS_KEY_FILE"@,
            tls_reason(),
        )),
{
    if cert.is_some() != key.is_some() {
        return Err(
            ConfigLoadError::InvalidEnvVar {
                name: owned("MCP_TLS_CERT_FILE / MCP_TLS_KEY_FILE"),
                reason: owned("TLSを有効化するには両方を設定する必要があります"),
            },
        );
    }
    Ok(())
}

/// The values of the environment variables the settings are read from; `None` for a variable
/// that is unset or not valid Unicode. Whether the MCP listen address has the "host:port"
/// form is decided where it is read.
#[derive(Debug)]
pub struct EnvVars {
    pub google_service_account_key: Option<String>,
    pub slack_bot_token: Option<String>,
    pub slack_app_token: Option<String>,
    pub resource_config: Option<String>,
    pub identity_links_file: Option<String>,
    pub google_calendar_mappings_file: Option<String>,
    pub polling_interval: Option<String>,
    pub gpu_usage_reports_dir: Option<String>,
    pub gpu_usage_max_staleness_secs: Option<String>,
    pub unreserved_usage_threshold_secs: Option<String>,
    pub idle_reservation_threshold_secs: Option<String>,
    pub idle_held_gpu_threshold_secs: Option<String>,
    pub computing_gpu_utilization_percent: Option<String>,
    pub idle_held_gpu_notices: Option<String>,
    pub idle_notice_silence_secs: Option<String>,
    pub reservation_proposal_duration_candidates_hours: Option<String>,
    pub mcp_listen_addr: Option<String>,
    pub mcp_listen_addr_is_socket_addr: bool,
    pub mcp_tokens_file: Option<String>,
    pub mcp_allowed_hosts: Option<String>,
    pub mcp_tls_cert_file: Option<String>,
    pub mcp_tls_key_file: Option<String>,
}

/// The value, or the default when unset.
pub open spec fn or_default(raw: Option<String>, default: Seq<char>) -> Seq<char> {
    match raw {
        Some(s) => s@,
        None => default,
    }
}

/// A number setting of the environment that fits in `u64`.
pub open spec fn env_number(raw: Option<String>, default: u64) -> Option<nat> {
    number_setting(opt_string_view(raw), default as nat, u64::MAX as nat)
}

/// The utilization percentage setting, which must fit in `u32`.
pub open spec fn env_percent(env: EnvVars) -> Option<nat> {
    number_setting(
        opt_string_view(env.computing_gpu_utilization_percent),
        defaults::COMPUTING_GPU_UTILIZATION_PERCENT as nat,
        u32::MAX as nat,
    )
}

/// The policy setting's text.
pub open spec fn env_policy_text(env: EnvVars) -> Seq<char> {
    or_default(env.idle_held_gpu_notices, defaults::IDLE_HELD_GPU_NOTICES@)
}

/// The durations setting's text.
pub open spec fn env_candidates_text(env: EnvVars) -> Seq<char> {
    or_default(
        env.reservation_proposal_duration_candidates_hours,
        defaults::RESERVATION_PROPOSAL_DURATION_CANDIDATES_HOURS@,
    )
}

/// The allowed hosts setting, read when MCP is on.
pub open spec fn env_hosts(env: EnvVars) -> Seq<Seq<char>> {
    if env.mcp_listen_addr is None {
        Seq::empty()
    } else {
        match env.mcp_allowed_hosts {
            Some(s) => allowed_hosts(s@),
            None => Seq::empty(),
        }
    }
}

/// The first problem with the environment, in the order the variables are read.
pub open spec fn settings_error(env: EnvVars) -> Option<ConfigLoadErrorView> {
    let nan = not_a_number_reason();
    if env.slack_bot_token is None {
        Some(ConfigLoadErrorView::MissingEnvVar("SLACK_BOT_TOKEN"@))
    } else if env.slack_app_token is None {
        Some(ConfigLoadErrorView::MissingEnvVar("SLACK_APP_TOKEN"@))
    } else if env_number(env.polling_interval, defaults::POLLING_INTERVAL_SECS) is None {
        Some(invalid("POLLING_INTERVAL"@, nan))
    } else if env_number(
        env.gpu_usage_max_staleness_secs,
        defaults::GPU_USAGE_MAX_STALENESS_SECS,
    ) is None {
        Some(invalid("GPU_USAGE_MAX_STALENESS_SECS"@, nan))
    } else if env_number(
        env.unreserved_usage_threshold_secs,
        defaults::UNRESERVED_USAGE_THRESHOLD_SECS,
    ) is None {
        Some(invalid("UNRESERVED_USAGE_THRESHOLD_SECS"@, nan))
    } else if env_number(
        env.idle_reservation_threshold_secs,
        defaults::IDLE_RESERVATION_THRESHOLD_SECS,
    ) is None {
        Some(invalid("IDLE_RESERVATION_THRESHOLD_SECS"@, nan))
    } else if env_number(
        env.idle_held_gpu_threshold_secs,
        defaults::IDLE_HELD_GPU_THRESHOLD_SECS,
    ) is None {
        Some(invalid("IDLE_HELD_GPU_THRESHOLD_SECS"@, nan))
    } else if env_percent(env) is None {
        Some(invalid("COMPUTING_GPU_UTILIZATION_PERCENT"@, nan))
    } else if env_percent(env)->0 > 100 {
        Some(invalid("COMPUTING_GPU_UTILIZATION_PERCENT"@, percentage_reason()))
    } else if notice_policy_named(env_policy_text(env)) is None {
        Some(invalid("IDLE_HELD_GPU_NOTICES"@, unknown_policy_reason(env_policy_text(env))))
    } else if env_number(env.idle_notice_silence_secs, defaults::IDLE_NOTICE_SILENCE_SECS) is None {
        Some(invalid("IDLE_NOTICE_SILENCE_SECS"@, nan))
    } else if duration_candidates(env_candidates_text(env)) is Err {
        Some(duration_candidates(env_candidates_text(env))->Err_0)
    } else if env.mcp_listen_addr is Some && !env.mcp_listen_addr_is_socket_addr {
        Some(invalid("MCP_LISTEN_ADDR"@, listen_addr_reason()))
    } else if env.mcp_listen_addr is Some && env_hosts(env).len() == 0 {
        Some(invalid("MCP_ALLOWED_HOSTS"@, no_host_reason()))
    } else if (env.mcp_tls_cert_file is Some) != (env.mcp_tls_key_file is Some) {
        Some(invalid("MCP_TLS_CERT_FILE / MCP_TLS_KEY_FILE"@, tls_reason()))
    } else {
        None
    }
}

/// The reason given for a listen address that is not "host:port".
pub open spec fn listen_addr_reason() -> Seq<char> {
    "\"host:port\"形式である必要があります"@
}

/// The settings an environment without problems gives.
pub open spec fn settings(env: EnvVars) -> AppConfigView {
    AppConfigView {
        google_service_account_key_path: or_default(
            env.google_service_account_key,
            defaults::GOOGLE_SERVICE_ACCOUNT_KEY_PATH@,
        ),
        slack_bot_token: env.slack_bot_token->0@,
        slack_app_token: env.slack_app_token->0@,
        resource_config_path: or_default(env.resource_config, defaults::RESOURCE_CONFIG_PATH@),
        identity_links_file: or_default(env.identity_links_file, defaults::IDENTITY_LINKS_FILE@),
        calendar_mappings_file: or_default(
            env.google_calendar_mappings_file,
            defaults::CALENDAR_MAPPINGS_FILE@,
        ),
        polling_interval_secs: env_number(env.polling_interval, defaults::POLLING_INTERVAL_SECS)->0 as u64,
        gpu_usage_reports_dir: opt_seq(env.gpu_usage_reports_dir),
        gpu_usage_max_staleness_secs: env_number(
            env.gpu_usage_max_staleness_secs,
            defaults::GPU_USAGE_MAX_STALENESS_SECS,
        )->0 as u64,
        unreserved_usage_threshold_secs: env_number(
            env.unreserved_usage_threshold_secs,
            defaults::UNRESERVED_USAGE_THRESHOLD_SECS,
        )->0 as u64,
        idle_reservation_threshold_secs: env_number(
            env.idle_reservation_threshold_secs,
            defaults::IDLE_RESERVATION_THRESHOLD_SECS,
        )->0 as u64,
        idle_held_gpu_threshold_secs: env_number(
            env.idle_held_gpu_threshold_secs,
            defaults::IDLE_HELD_GPU_THRESHOLD_SECS,
        )->0 as u64,
        computing_gpu_utilization_percent: env_percent(env)->0 as u32,
        idle_held_gpu_notices: notice_policy_named(env_policy_text(env))->0,
        idle_notice_silence_secs: env_number(
            env.idle_notice_silence_secs,
            defaults::IDLE_NOTICE_SILENCE_SECS,
        )->0 as u64,
        reservation_proposal_duration_candidates: duration_candidates(
            env_candidates_text(env),
        )->Ok_0,
        mcp_listen_addr: opt_seq(env.mcp_listen_addr),
        mcp_tokens_file: or_default(env.mcp_tokens_file, defaults::MCP_TOKENS_FILE@),
        mcp_allowed_hosts: env_hosts(env),
        mcp_tls_cert_file: opt_seq(env.mcp_tls_cert_file),
        mcp_tls_key_file: opt_seq(env.mcp_tls_key_file),
    }
}

/// The value, or an owned copy of the default when unset.
fn string_or(raw: &Option<String>, default: &str) -> (s: String)
    ensures
        s@ == or_default(*raw, default@),
{
    match raw {
        Some(v) => v.clone(),
        None => owned(default),
    }
}

/// The value as a string slice.
fn as_str_opt(raw: &Option<String>) -> (o: Option<&str>)
    ensures
        opt_str_view(o) == opt_string_view(*raw),
{
    match raw {
        Some(v) => Some(v.as_str()),
        None => None,
    }
}

/// Reads the application settings from the values of the environment variables: the
/// defaults for unset optional ones, and the first problem, in reading order, as the error.
#[verifier::rlimit(40)]
pub fn load_from_env(env: &EnvVars) -> (r: Result<AppConfig, ConfigLoadError>)
    ensures
        match settings_error(*env) {
            Some(e) => r matches Err(x) && x@ == e,
            None => r matches Ok(c) && c@ == settings(*env),
        },
{
    let google_service_account_key_path = string_or(
        &env.google_service_account_key,
        defaults::GOOGLE_SERVICE_ACCOUNT_KEY_PATH,
    );
    let slack_bot_token = match &env.slack_bot_token {
        Some(t) => t.clone(),
        None => {
            return Err(ConfigLoadError::MissingEnvVar(owned("SLACK_BOT_TOKEN")));
        },
    };
    let slack_app_token = match &env.slack_app_token {
        Some(t) => t.clone(),
        None => {
            return Err(ConfigLoadError::MissingEnvVar(owned("SLACK_APP_TOKEN")));
        },
    };
    let resource_config_path = string_or(&env.resource_config, defaults::RESOURCE_CONFIG_PATH);
    let identity_links_file = string_or(&env.identity_links_file, defaults::IDENTITY_LINKS_FILE);
    let calendar_mappings_file = string_or(
        &env.google_calendar_mappings_file,
        defaults::CALENDAR_MAPPINGS_FILE,
    );
    let polling_interval_secs = match parse_number_env(
        "POLLING_INTERVAL",
        as_str_opt(&env.polling_interval),
        defaults::POLLING_INTERVAL_SECS,
        u64::MAX,
    ) {
        Ok(v) => v,
        Err(e) => {
            return Err(e);
        },
    };
    let gpu_usage_reports_dir = duplicate_opt(&env.gpu_usage_reports_dir);
    let gpu_usage_max_staleness_secs = match parse_number_env(
        "GPU_USAGE_MAX_STALENESS_SECS",
        as_str_opt(&env.gpu_usage_max_staleness_secs),
        defaults::GPU_USAGE_MAX_STALENESS_SECS,
        u64::MAX,
    ) {
        Ok(v) => v,
        Err(e) => {
            return Err(e);
        },
    };
    let unreserved_usage_threshold_secs = match parse_number_env(
        "UNRESERVED_USAGE_THRESHOLD_SECS",
        as_str_opt(&env.unreserved_usage_threshold_secs),
        defaults::UNRESERVED_USAGE_THRESHOLD_SECS,
        u64::MAX,
    ) {
        Ok(v) => v,
        Err(e) => {
            return Err(e);
        },
    };
    let idle_reservation_threshold_secs = match parse_number_env(
        "IDLE_RESERVATION_THRESHOLD_SECS",
        as_str_opt(&env.idle_reservation_threshold_secs),
        defaults::IDLE_RESERVATION_THRESHOLD_SECS,
        u64::MAX,
    ) {
        Ok(v) => v,
        Err(e) => {
            return Err(e);
        },
    };
    let idle_held_gpu_threshold_secs = match parse_number_env(
        "IDLE_HELD_GPU_THRESHOLD_SECS",
        as_str_opt(&env.idle_held_gpu_threshold_secs),
        defaults::IDLE_HELD_GPU_THRESHOLD_SECS,
        u64::MAX,
    ) {
        Ok(v) => v,
        Err(e) => {
            return Err(e);
        },
    };
    let percent_raw = match parse_number_env(
        "COMPUTING_GPU_UTILIZATION_PERCENT",
        as_str_opt(&env.computing_gpu_utilization_percent),
        defaults::COMPUTING_GPU_UTILIZATION_PERCENT,
        0xffff_ffffu64,
    ) {
        Ok(v) => v,
        Err(e) => {
            return Err(e);
        },
    };
    let computing_gpu_utilization_percent = match validate_percentage(
        "COMPUTING_GPU_UTILIZATION_PERCENT",
        percent_raw as u32,
    ) {
        Ok(v) => v,
        Err(e) => {
            return Err(e);
        },
    };
    let policy_text: &str = match &env.idle_held_gpu_notices {
        Some(t) => t.as_str(),
        None => defaults::IDLE_HELD_GPU_NOTICES,
    };
    let idle_held_gpu_notices = match parse_notice_policy("IDLE_HELD_GPU_NOTICES", policy_text) {
        Ok(p) => p,
        Err(e) => {
            return Err(e);
        },
    };
    let idle_notice_silence_secs = match parse_number_env(
        "IDLE_NOTICE_SILENCE_SECS",
        as_str_opt(&env.idle_notice_silence_secs),
        defaults::IDLE_NOTICE_SILENCE_SECS,
        u64::MAX,
    ) {
        Ok(v) => v,
        Err(e) => {
            return Err(e);
        },
    };
    let candidates_text: &str = match &env.reservation_proposal_duration_candidates_hours {
        Some(t) => t.as_str(),
        None => defaults::RESERVATION_PROPOSAL_DURATION_CANDIDATES_HOURS,
    };
    let reservation_proposal_duration_candidates = match parse_duration_candidates_hours(
        candidates_text,
    ) {
        Ok(v) => v,
        Err(e) => {
            return Err(e);
        },
    };
    let mcp_listen_addr = duplicate_opt(&env.mcp_listen_addr);
    if env.mcp_listen_addr.is_some() && !env.mcp_listen_addr_is_socket_addr {
        return Err(
            ConfigLoadError::InvalidEnvVar {
                name: owned("MCP_LISTEN_ADDR"),
                reason: owned("\"host:port\"形式である必要があります"),
            },
        );
    }
    let mcp_tokens_file = string_or(&env.mcp_tokens_file, defaults::MCP_TOKENS_FILE);
    let mcp_allowed_hosts = match validate_mcp_allowed_hosts(
        as_str_opt(&env.mcp_listen_addr),
        as_str_opt(&env.mcp_allowed_hosts),
    ) {
        Ok(v) => v,
        Err(e) => {
            return Err(e);
        },
    };
    let mcp_tls_cert_file = duplicate_opt(&env.mcp_tls_cert_file);
    let mcp_tls_key_file = duplicate_opt(&env.mcp_tls_key_file);
    match validate_mcp_tls_paths(&mcp_tls_cert_file, &mcp_tls_key_file) {
        Ok(()) => {},
        Err(e) => {
            return Err(e);
        },
    }
    let c = AppConfig {
        google_service_account_key_path,
        slack_bot_token,
        slack_app_token,
        resource_config_path,
        identity_links_file,
        calendar_mappings_file,
        polling_interval_secs,
        gpu_usage_reports_dir,
        gpu_usage_max_staleness_secs,
        unreserved_usage_threshold_secs,
        idle_reservation_threshold_secs,
        idle_held_gpu_threshold_secs,
        computing_gpu_utilization_percent,
        idle_held_gpu_notices,
        idle_notice_silence_secs,
        reservation_proposal_duration_candidates,
        mcp_listen_addr,
        mcp_tokens_file,
        mcp_allowed_hosts,
        mcp_tls_cert_file,
        mcp_tls_key_file,
    };
    let ghost want = settings(*env);
    assert(c@.google_service_account_key_path == want.google_service_account_key_path);
    assert(c@.slack_bot_token == want.slack_bot_token);
    assert(c@.polling_interval_secs == want.polling_interval_secs);
    assert(c@.computing_gpu_utilization_percent == want.computing_gpu_utilization_percent);
    assert(c@.idle_held_gpu_notices == want.idle_held_gpu_notices);
    assert(c@.reservation_proposal_duration_candidates == want.reservation_proposal_duration_candidates);
    assert(c@.mcp_allowed_hosts == want.mcp_allowed_hosts);
    assert(c@.mcp_listen_addr == want.mcp_listen_addr);
    assert(c@.gpu_usage_reports_dir == want.gpu_usage_reports_dir);
    assert(c@ =~= settings(*env));
    Ok(c)
}

} // verus!
