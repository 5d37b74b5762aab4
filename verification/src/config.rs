//! Configuration types and their validation. Validation failures are fatal at
//! startup; each check reports a message naming the offending field.

use vstd::prelude::*;
use crate::strutil::{push_chars, chars_to_string, trim_spec, trimmed};
use vstd::string::StrSliceExecFns;

verus! {

/// Whether a string parses as an absolute URL. Its value is fixed by the
/// url crate (re-exported by reqwest); it depends on the string alone.
pub uninterp spec fn url_accepted(s: Seq<char>) -> bool;

/// Relies on reqwest's `Url::parse` (the url crate): acceptance of a URL
/// string depends on the string alone.
#[verifier::external_body]
fn parse_url_ok(s: &str) -> (r: bool)
    ensures
        r == url_accepted(s@),
{
    reqwest::Url::parse(s).is_ok()
}

/// The complete configuration.
#[derive(Clone, Debug)]
pub struct Settings {
    pub discord: DiscordSettings,
    pub webhook: WebhookSettings,
    pub message: MessageTemplateSettings,
    pub steam: SteamSettings,
    pub cache: CacheSettings,
    pub state_cache: StateCacheSettings,
    pub reminder: ReminderSettings,
}

/// Settings of the upstream presence feed and of the emit policy.
#[derive(Clone, Debug)]
pub struct DiscordSettings {
    pub bot_token: String,
    pub user_id: u64,
    pub guild_id: Option<u64>,
    pub emit_initial_status: bool,
    pub emit_on_activity_change: bool,
    pub rich_presence_only: bool,
}

/// Settings of the outbound notification sink.
#[derive(Clone, Debug)]
pub struct WebhookSettings {
    pub mode: WebhookMode,
    pub url: String,
    pub token: Option<String>,
    pub headers: Vec<(String, String)>,
    pub timeout_seconds: u64,
    pub openclaw: OpenClawSettings,
}

/// How the wake sink delivers: immediately or on the next heartbeat.
#[derive(Clone, Copy, Debug, PartialEq, Eq, Structural)]
pub enum OpenClawWakeMode {
    Now,
    NextHeartbeat,
}

impl OpenClawWakeMode {
    /// The mode's wire label.
    pub fn as_str(self) -> (r: &'static str)
        ensures
            self == OpenClawWakeMode::Now ==> r@ == "now"@,
            self == OpenClawWakeMode::NextHeartbeat ==> r@ == "next-heartbeat"@,
    {
        match self {
            OpenClawWakeMode::Now => "now",
            OpenClawWakeMode::NextHeartbeat => "next-heartbeat",
        }
    }
}

impl Default for OpenClawWakeMode {
    fn default() -> (r: Self)
        ensures
            r == OpenClawWakeMode::Now,
    {
        OpenClawWakeMode::Now
    }
}

/// Settings specific to the wake sink.
#[derive(Clone, Copy, Debug, PartialEq, Eq, Structural)]
pub struct OpenClawSettings {
    pub wake_mode: OpenClawWakeMode,
}

impl Default for OpenClawSettings {
    fn default() -> (r: Self)
        ensures
            r == (OpenClawSettings { wake_mode: OpenClawWakeMode::Now }),
    {
        OpenClawSettings { wake_mode: OpenClawWakeMode::Now }
    }
}

/// Which sink implementation delivers events.
#[derive(Clone, Copy, Debug, PartialEq, Eq, Structural)]
pub enum WebhookMode {
    OpenclawWake,
    GenericJson,
}

/// The default sink mode.
pub fn default_webhook_mode() -> (r: WebhookMode)
    ensures
        r == WebhookMode::OpenclawWake,
{
    WebhookMode::OpenclawWake
}

/// The default sink timeout, in seconds.
pub fn default_timeout_seconds() -> (r: u64)
    ensures
        r == 10,
{
    10
}

/// Optional text put before and after every rendered message.
#[derive(Clone, Debug)]
pub struct MessageTemplateSettings {
    pub prefix: Option<String>,
    pub suffix: Option<String>,
}

impl Default for MessageTemplateSettings {
    fn default() -> (r: Self)
        ensures
            r.prefix is None,
            r.suffix is None,
    {
        MessageTemplateSettings { prefix: None, suffix: None }
    }
}

/// Settings of the external game-details lookup and its cache tiers.
#[derive(Clone, Debug)]
pub struct SteamSettings {
    pub enabled: bool,
    pub api_key: Option<String>,
    pub language: String,
    pub description_max_chars: usize,
    pub timeout_seconds: u64,
    pub memory_cache_ttl_seconds: u64,
    pub memory_cache_capacity: usize,
    pub db_cache_ttl_seconds: u64,
}

/// The default lookup language.
pub fn default_steam_language() -> (r: String)
    ensures
        r@ == "schinese"@,
{
    let s: &str = "schinese";
    s.to_owned()
}

/// The default cap on description length, in characters.
pub fn default_steam_description_max_chars() -> (r: usize)
    ensures
        r == 240,
{
    240
}

/// The default lookup timeout, in seconds.
pub fn default_steam_timeout_seconds() -> (r: u64)
    ensures
        r == 8,
{
    8
}

/// The default memory-tier entry lifetime, in seconds.
pub fn default_steam_memory_cache_ttl_seconds() -> (r: u64)
    ensures
        r == 1800,
{
    1800
}

/// The default memory-tier capacity.
pub fn default_steam_memory_cache_capacity() -> (r: usize)
    ensures
        r == 512,
{
    512
}

/// The default durable-tier entry lifetime, in seconds.
pub fn default_steam_db_cache_ttl_seconds() -> (r: u64)
    ensures
        r == 86400,
{
    86400
}

impl Default for SteamSettings {
    fn default() -> (r: Self)
        ensures
            !r.enabled,
            r.api_key is None,
            r.language@ == "schinese"@,
            r.description_max_chars == 240,
            r.timeout_seconds == 8,
            r.memory_cache_ttl_seconds == 1800,
            r.memory_cache_capacity == 512,
            r.db_cache_ttl_seconds == 86400,
    {
        SteamSettings {
            enabled: false,
            api_key: None,
            language: default_steam_language(),
            description_max_chars: default_steam_description_max_chars(),
            timeout_seconds: default_steam_timeout_seconds(),
            memory_cache_ttl_seconds: default_steam_memory_cache_ttl_seconds(),
            memory_cache_capacity: default_steam_memory_cache_capacity(),
            db_cache_ttl_seconds: default_steam_db_cache_ttl_seconds(),
        }
    }
}

/// Which durable cache backend is configured.
#[derive(Clone, Copy, Debug, PartialEq, Eq, Structural)]
pub enum CacheBackend {
    Disabled,
    Sqlite,
}

/// Settings of the durable cache tier.
#[derive(Clone, Debug)]
pub struct CacheSettings {
    pub backend: CacheBackend,
    pub sqlite_path: String,
}

/// The default durable cache database path.
pub fn default_cache_sqlite_path() -> (r: String)
    ensures
        r@ == "./data/statushub-cache.sqlite3"@,
{
    let s: &str = "./data/statushub-cache.sqlite3";
    s.to_owned()
}

impl Default for CacheSettings {
    fn default() -> (r: Self)
        ensures
            r.backend == CacheBackend::Disabled,
            r.sqlite_path@ == "./data/statushub-cache.sqlite3"@,
    {
        CacheSettings { backend: CacheBackend::Disabled, sqlite_path: default_cache_sqlite_path() }
    }
}

/// Settings of the persistent status store.
#[derive(Clone, Debug)]
pub struct StateCacheSettings {
    pub enabled: bool,
    pub path: String,
}

/// Whether the persistent status store is on by default.
pub fn default_state_cache_enabled() -> (r: bool)
    ensures
        r,
{
    true
}

/// The default status file path.
pub fn default_state_cache_path() -> (r: String)
    ensures
        r@ == "./data/status-state.json"@,
{
    let s: &str = "./data/status-state.json";
    s.to_owned()
}

impl Default for StateCacheSettings {
    fn default() -> (r: Self)
        ensures
            r.enabled,
            r.path@ == "./data/status-state.json"@,
    {
        StateCacheSettings { enabled: default_state_cache_enabled(), path: default_state_cache_path() }
    }
}

/// Settings of the reminder scheduler.
#[derive(Clone, Copy, Debug, PartialEq, Eq, Structural)]
pub struct ReminderSettings {
    pub enabled: bool,
    pub interval_minutes: u64,
    pub steam_only: bool,
    pub check_interval_seconds: u64,
}

impl ReminderSettings {
    /// The reminder interval in seconds (saturating at the integer limit).
    pub fn interval_seconds(&self) -> (r: u64)
        ensures
            r as nat == if self.interval_minutes as nat * 60 <= u64::MAX as nat {
                self.interval_minutes as nat * 60
            } else {
                u64::MAX as nat
            },
    {
        let r = self.interval_minutes.checked_mul(60);
        match r {
            Option::Some(v) => v,
            Option::None => u64::MAX,
        }
    }
}

/// Whether the presence-feed settings are acceptable.
pub open spec fn discord_settings_ok(s: DiscordSettings) -> bool {
    &&& trim_spec(s.bot_token@).len() > 0
    &&& s.user_id > 0
    &&& !(s.guild_id matches Some(g) && g == 0)
}

/// Whether the sink settings are acceptable.
pub open spec fn webhook_settings_ok(s: WebhookSettings) -> bool {
    &&& trim_spec(s.url@).len() > 0
    &&& url_accepted(s.url@)
    &&& s.timeout_seconds > 0
}

/// Whether the lookup settings are acceptable.
pub open spec fn steam_settings_ok(s: SteamSettings) -> bool {
    &&& !(s.enabled && trim_spec(s.language@).len() == 0)
    &&& !(s.api_key matches Some(k) && trim_spec(k@).len() == 0)
    &&& s.description_max_chars > 0
    &&& s.timeout_seconds > 0
    &&& s.memory_cache_ttl_seconds > 0
    &&& s.memory_cache_capacity > 0
    &&& s.db_cache_ttl_seconds > 0
}

/// Whether the durable cache settings are acceptable.
pub open spec fn cache_settings_ok(s: CacheSettings) -> bool {
    !(s.backend == CacheBackend::Sqlite && s.sqlite_path@.len() == 0)
}

/// Whether the status store settings are acceptable.
pub open spec fn state_cache_settings_ok(s: StateCacheSettings) -> bool {
    !(s.enabled && s.path@.len() == 0)
}

/// Whether the whole configuration is acceptable.
pub open spec fn settings_ok(s: Settings) -> bool {
    &&& discord_settings_ok(s.discord)
    &&& webhook_settings_ok(s.webhook)
    &&& steam_settings_ok(s.steam)
    &&& cache_settings_ok(s.cache)
    &&& state_cache_settings_ok(s.state_cache)
}

/// The message the presence-feed check reports for its first failing field.
pub open spec fn discord_error_spec(s: DiscordSettings) -> Seq<char> {
    if trim_spec(s.bot_token@).len() == 0 {
        "discord.bot_token cannot be empty"@
    } else if s.user_id == 0 {
        "discord.user_id must be greater than 0"@
    } else {
        "discord.guild_id must be greater than 0 when provided"@
    }
}

impl DiscordSettings {
    /// Checks the presence-feed settings, reporting the first offending
    /// field.
    pub fn validate(&self) -> (r: Result<(), String>)
        ensures
            r is Ok <==> discord_settings_ok(*self),
            r matches Err(m) ==> m@ == discord_error_spec(*self),
    {
        if trimmed(self.bot_token.as_str()).unicode_len() == 0 {
            let m: &str = "discord.bot_token cannot be empty";
            return Err(m.to_owned());
        }
        if self.user_id == 0 {
            let m: &str = "discord.user_id must be greater than 0";
            return Err(m.to_owned());
        }
        if let Option::Some(g) = self.guild_id {
            if g == 0 {
                let m: &str = "discord.guild_id must be greater than 0 when provided";
                return Err(m.to_owned());
            }
        }
        Ok(())
    }
}

/// The message the sink check reports for its first failing field.
pub open spec fn webhook_error_spec(s: WebhookSettings) -> Seq<char> {
    if trim_spec(s.url@).len() == 0 {
        "webhook.url cannot be empty"@
    } else if !url_accepted(s.url@) {
        "webhook.url is not a valid URL: "@ + s.url@
    } else {
        "webhook.timeout_seconds must be greater than 0"@
    }
}

impl WebhookSettings {
    /// Checks the sink settings; a URL must be non-empty and parse as an
    /// absolute URL.
    pub fn validate(&self) -> (r: Result<(), String>)
        ensures
            r is Ok <==> webhook_settings_ok(*self),
            r matches Err(m) ==> m@ == webhook_error_spec(*self),
    {
        if trimmed(self.url.as_str()).unicode_len() == 0 {
            let m: &str = "webhook.url cannot be empty";
            return Err(m.to_owned());
        }
        if !parse_url_ok(self.url.as_str()) {
            let mut v: Vec<char> = Vec::new();
            push_chars(&mut v, "webhook.url is not a valid URL: ");
            push_chars(&mut v, self.url.as_str());
            return Err(chars_to_string(&v));
        }
        if self.timeout_seconds == 0 {
            let m: &str = "webhook.timeout_seconds must be greater than 0";
            return Err(m.to_owned());
        }
        Ok(())
    }

    /// The configured sink timeout, in seconds.
    pub fn timeout(&self) -> (r: u64)
        ensures
            r == self.timeout_seconds,
    {
        self.timeout_seconds
    }
}

/// The message the lookup check reports for its first failing field.
pub open spec fn steam_error_spec(s: SteamSettings) -> Seq<char> {
    if s.enabled && trim_spec(s.language@).len() == 0 {
        "steam.language cannot be empty when steam.enabled=true"@
    } else if s.api_key matches Some(k) && trim_spec(k@).len() == 0 {
        "steam.api_key cannot be empty when provided"@
    } else if s.description_max_chars == 0 {
        "steam.description_max_chars must be greater than 0"@
    } else if s.timeout_seconds == 0 {
        "steam.timeout_seconds must be greater than 0"@
    } else if s.memory_cache_ttl_seconds == 0 {
        "steam.memory_cache_ttl_seconds must be greater than 0"@
    } else if s.memory_cache_capacity == 0 {
        "steam.memory_cache_capacity must be greater than 0"@
    } else {
        "steam.db_cache_ttl_seconds must be greater than 0"@
    }
}

impl SteamSettings {
    /// Checks the lookup settings.
    pub fn validate(&self) -> (r: Result<(), String>)
        ensures
            r is Ok <==> steam_settings_ok(*self),
            r matches Err(m) ==> m@ == steam_error_spec(*self),
    {
        if self.enabled && trimmed(self.language.as_str()).unicode_len() == 0 {
            let m: &str = "steam.language cannot be empty when steam.enabled=true";
            return Err(m.to_owned());
        }
        if let Option::Some(key) = &self.api_key {
            if trimmed(key.as_str()).unicode_len() == 0 {
                let m: &str = "steam.api_key cannot be empty when provided";
                return Err(m.to_owned());
            }
        }
        if self.description_max_chars == 0 {
            let m: &str = "steam.description_max_chars must be greater than 0";
            return Err(m.to_owned());
        }
        if self.timeout_seconds == 0 {
            let m: &str = "steam.timeout_seconds must be greater than 0";
            return Err(m.to_owned());
        }
        if self.memory_cache_ttl_seconds == 0 {
            let m: &str = "steam.memory_cache_ttl_seconds must be greater than 0";
            return Err(m.to_owned());
        }
        if self.memory_cache_capacity == 0 {
            let m: &str = "steam.memory_cache_capacity must be greater than 0";
            return Err(m.to_owned());
        }
        if self.db_cache_ttl_seconds == 0 {
            let m: &str = "steam.db_cache_ttl_seconds must be greater than 0";
            return Err(m.to_owned());
        }
        Ok(())
    }
}

impl CacheSettings {
    /// Checks the durable cache settings.
    pub fn validate(&self) -> (r: Result<(), String>)
        ensures
            r is Ok <==> cache_settings_ok(*self),
            r matches Err(m) ==> m@ == "cache.sqlite_path cannot be empty when cache.backend=sqlite"@,
    {
        if matches!(self.backend, CacheBackend::Sqlite) && self.sqlite_path.as_str().unicode_len()
            == 0 {
            let m: &str = "cache.sqlite_path cannot be empty when cache.backend=sqlite";
            return Err(m.to_owned());
        }
        Ok(())
    }
}

impl StateCacheSettings {
    /// Checks the status store settings.
    pub fn validate(&self) -> (r: Result<(), String>)
        ensures
            r is Ok <==> state_cache_settings_ok(*self),
            r matches Err(m) ==> m@ == "state_cache.path cannot be empty when state_cache.enabled=true"@,
    {
        if self.enabled && self.path.as_str().unicode_len() == 0 {
            let m: &str = "state_cache.path cannot be empty when state_cache.enabled=true";
            return Err(m.to_owned());
        }
        Ok(())
    }
}

/// The message the whole-configuration check reports: the first failing
/// section's own message, in validation order.
pub open spec fn settings_error_spec(s: Settings) -> Seq<char> {
    if !discord_settings_ok(s.discord) {
        discord_error_spec(s.discord)
    } else if !webhook_settings_ok(s.webhook) {
        webhook_error_spec(s.webhook)
    } else if !steam_settings_ok(s.steam) {
        steam_error_spec(s.steam)
    } else if !cache_settings_ok(s.cache) {
        "cache.sqlite_path cannot be empty when cache.backend=sqlite"@
    } else {
        "state_cache.path cannot be empty when state_cache.enabled=true"@
    }
}

impl Settings {
    /// Checks the whole configuration, reporting the first failing
    /// section's message.
    pub fn validate(&self) -> (r: Result<(), String>)
        ensures
            r is Ok <==> settings_ok(*self),
            r matches Err(m) ==> m@ == settings_error_spec(*self),
    {
        if let Err(e) = self.discord.validate() {
            return Err(e);
        }
        if let Err(e) = self.webhook.validate() {
            return Err(e);
        }
        if let Err(e) = self.steam.validate() {
            return Err(e);
        }
        if let Err(e) = self.cache.validate() {
            return Err(e);
        }
        if let Err(e) = self.state_cache.validate() {
            return Err(e);
        }
        Ok(())
    }
}

} // verus!
