use statushub::cache::{cache_expiry, entry_live, CacheService};
use statushub::config::{
    CacheBackend, CacheSettings, DiscordSettings, MessageTemplateSettings, OpenClawSettings,
    OpenClawWakeMode, ReminderSettings, Settings, StateCacheSettings, SteamSettings,
    WebhookMode, WebhookSettings,
};
use statushub::steam::{
    build_game_details, parse_game_details, render_game_details, SteamGameDetails,
    SteamLookupCache, SteamMemoryCache,
};

fn sample_settings() -> Settings {
    Settings {
        discord: DiscordSettings {
            bot_token: "discord-token".to_string(),
            user_id: 123456789,
            guild_id: Some(987654321),
            emit_initial_status: true,
            emit_on_activity_change: false,
            rich_presence_only: false,
        },
        webhook: WebhookSettings {
            mode: WebhookMode::OpenclawWake,
            url: "http://127.0.0.1:18789/hooks/wake".to_string(),
            token: Some("secret".to_string()),
            headers: Vec::new(),
            timeout_seconds: 10,
            openclaw: OpenClawSettings {
                wake_mode: OpenClawWakeMode::Now,
            },
        },
        message: MessageTemplateSettings {
            prefix: Some("[PREFIX]".to_string()),
            suffix: Some("[SUFFIX]".to_string()),
        },
        steam: SteamSettings {
            enabled: true,
            api_key: Some("steam-api-key".to_string()),
            language: "schinese".to_string(),
            description_max_chars: 200,
            timeout_seconds: 5,
            memory_cache_ttl_seconds: 60,
            memory_cache_capacity: 128,
            db_cache_ttl_seconds: 3600,
        },
        cache: CacheSettings {
            backend: CacheBackend::Sqlite,
            sqlite_path: "./tmp/cache.sqlite3".to_string(),
        },
        state_cache: StateCacheSettings {
            enabled: true,
            path: "./tmp/state.json".to_string(),
        },
        reminder: ReminderSettings {
            enabled: false,
            interval_minutes: 30,
            steam_only: false,
            check_interval_seconds: 30,
        },
    }
}

#[test]
fn parse_valid_config() {
    let settings = sample_settings();
    settings.validate().expect("config should validate");
    assert_eq!(settings.discord.user_id, 123456789);
    assert!(settings.discord.emit_initial_status);
    assert_eq!(settings.message.prefix.as_deref(), Some("[PREFIX]"));
    assert!(settings.steam.enabled);
    assert!(matches!(settings.cache.backend, CacheBackend::Sqlite));
    assert!(settings.state_cache.enabled);
}

#[test]
fn reject_invalid_webhook_url() {
    let mut settings = sample_settings();
    settings.webhook.url = "not-a-url".to_string();
    let err = settings.validate().expect_err("config should fail");
    assert!(err.contains("webhook.url"));
}

#[test]
fn reject_zero_user_id() {
    let mut settings = sample_settings();
    settings.discord.user_id = 0;
    let err = settings.validate().expect_err("config should fail");
    assert!(err.contains("discord.user_id"));
}

#[test]
fn reject_blank_steam_language() {
    let mut settings = sample_settings();
    settings.steam.language = "  ".to_string();
    let err = settings.validate().expect_err("config should fail");
    assert!(err.contains("steam.language"));
}

#[test]
fn reject_unicode_whitespace_only_values() {
    let mut settings = sample_settings();
    settings.discord.bot_token = "\u{000B}".to_string();
    let err = settings.validate().expect_err("config should fail");
    assert_eq!(err, "discord.bot_token cannot be empty");
    let mut settings = sample_settings();
    settings.steam.language = "\u{00A0}\u{2003}".to_string();
    let err = settings.validate().expect_err("config should fail");
    assert_eq!(err, "steam.language cannot be empty when steam.enabled=true");
}

#[test]
fn reminder_interval_in_seconds() {
    let reminder = ReminderSettings {
        enabled: true,
        interval_minutes: 30,
        steam_only: false,
        check_interval_seconds: 30,
    };
    assert_eq!(reminder.interval_seconds(), 1800);
    assert_eq!(OpenClawWakeMode::Now.as_str(), "now");
    assert_eq!(OpenClawWakeMode::NextHeartbeat.as_str(), "next-heartbeat");
}

#[test]
fn expiry_helpers() {
    assert_eq!(cache_expiry(100, Some(60)), Some(160));
    assert_eq!(cache_expiry(100, None), None);
    assert!(entry_live(Some(101), 100));
    assert!(!entry_live(Some(100), 100));
    assert!(entry_live(None, 100));
}

#[test]
fn sqlite_cache_roundtrip() {
    let settings = CacheSettings {
        backend: CacheBackend::Sqlite,
        sqlite_path: "/tmp/statushub_test_cache.sqlite3".to_string(),
    };
    let service = CacheService::from_settings(&settings).expect("cache init should succeed");
    assert!(service.is_enabled());
    service
        .set_json("steam", "570", "{\"name\":\"Dota 2\"}", Some(60), 1000)
        .expect("cache set should succeed");
    let value = service
        .get_json("steam", "570", 1001)
        .expect("cache get should succeed");
    assert_eq!(value.as_deref(), Some("{\"name\":\"Dota 2\"}"));
    let expired = service
        .get_json("steam", "570", 5000)
        .expect("cache get should succeed");
    assert_eq!(expired, None);
}

#[test]
fn disabled_cache_degrades_to_miss() {
    let service = CacheService::disabled();
    assert!(!service.is_enabled());
    assert_eq!(service.get_json("ns", "k", 0).expect("get should be a miss"), None);
    service
        .set_json("ns", "k", "v", None, 0)
        .expect("set should be a no-op");
}

#[test]
fn memory_cache_respects_capacity_and_ttl() {
    let mut cache = SteamMemoryCache::new(2, 60);
    let game = |id: u32| SteamGameDetails {
        app_id: id,
        name: format!("game-{id}"),
        short_description: None,
        current_players: None,
    };
    cache.put(1, game(1), 0);
    cache.put(2, game(2), 0);
    cache.put(3, game(3), 0);
    assert!(cache.entries.len() <= 2);
    assert!(cache.get(3, 1).is_some());
    // An expired entry is treated as absent on the next read.
    assert!(cache.get(3, 61).is_none());
    // A repeated key overwrites instead of growing the cache.
    cache.put(4, game(4), 100);
    cache.put(4, game(4), 100);
    assert!(cache.entries.len() <= 2);
}

#[test]
fn game_details_json_round_trip() {
    let full = build_game_details(
        570,
        "Dota \"2\"".to_string(),
        " A MOBA. ",
        100,
        Some(12345),
    );
    let raw = render_game_details(&full);
    let back = parse_game_details(&raw).expect("details should parse");
    assert_eq!(back.app_id, full.app_id);
    assert_eq!(back.name, full.name);
    assert_eq!(back.short_description, full.short_description);
    assert_eq!(back.current_players, full.current_players);

    let bare = SteamGameDetails {
        app_id: 1,
        name: String::new(),
        short_description: None,
        current_players: None,
    };
    let raw2 = render_game_details(&bare);
    assert_eq!(
        raw2,
        "{\"app_id\":1,\"name\":\"\",\"short_description\":null,\"current_players\":null}"
    );
    let back2 = parse_game_details(&raw2).expect("details should parse");
    assert_eq!(back2.app_id, 1);
    assert!(back2.short_description.is_none());
    assert!(back2.current_players.is_none());
    assert!(parse_game_details("nonsense").is_none());
}

#[test]
fn lookup_cache_backfills_memory() {
    let mut lookup = SteamLookupCache::new(8, 60, 3600, None);
    assert!(lookup.cached_lookup(570, 0).is_none());
    let details = SteamGameDetails {
        app_id: 570,
        name: "Dota 2".to_string(),
        short_description: None,
        current_players: None,
    };
    lookup.store(570, &details, 0);
    let hit = lookup.cached_lookup(570, 30).expect("memory tier should hit");
    assert_eq!(hit.name, "Dota 2");
    assert!(lookup.cached_lookup(570, 120).is_none());
}
