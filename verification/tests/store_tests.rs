use statushub::cache::CacheService;
use statushub::config::{CacheBackend, CacheSettings};
use statushub::event::DiscordStatus;
use statushub::state_cache::{
    parse_status_file, render_status_file, status_from_json, status_to_json, PersistentStatusCache,
    StatusEntry, StatusRecord,
};

#[test]
fn persist_and_reload_status() {
    let mut cache = PersistentStatusCache::load(None, None).expect("cache load should succeed");
    let contents = cache.set_status("discord:1:*", DiscordStatus::Online, 1000);
    let mut reloaded =
        PersistentStatusCache::load(Some(&contents), None).expect("reload should succeed");
    let status = reloaded.get_status("discord:1:*", 2000);
    assert_eq!(status, Some(DiscordStatus::Online));
}

#[test]
fn set_status_overwrites_same_key() {
    let mut cache = PersistentStatusCache::load(None, None).expect("cache load should succeed");
    cache.set_status("discord:1:*", DiscordStatus::Online, 10);
    let contents = cache.set_status("discord:1:*", DiscordStatus::Idle, 20);
    let mut reloaded =
        PersistentStatusCache::load(Some(&contents), None).expect("reload should succeed");
    assert_eq!(reloaded.get_status("discord:1:*", 30), Some(DiscordStatus::Idle));
    assert_eq!(reloaded.entries.len(), 1);
}

#[test]
fn multiple_keys_round_trip() {
    let mut cache = PersistentStatusCache::load(None, None).expect("cache load should succeed");
    cache.set_status("discord:1:2", DiscordStatus::Online, 10);
    cache.set_status("discord:1:*", DiscordStatus::Dnd, 20);
    let contents = cache.set_status("discord:3:4", DiscordStatus::Invisible, 30);
    let mut reloaded =
        PersistentStatusCache::load(Some(&contents), None).expect("reload should succeed");
    assert_eq!(reloaded.get_status("discord:1:2", 40), Some(DiscordStatus::Online));
    assert_eq!(reloaded.get_status("discord:1:*", 40), Some(DiscordStatus::Dnd));
    assert_eq!(reloaded.get_status("discord:3:4", 40), Some(DiscordStatus::Invisible));
    assert_eq!(reloaded.get_status("discord:9:9", 40), None);
}

#[test]
fn keys_with_escapes_round_trip() {
    let mut cache = PersistentStatusCache::load(None, None).expect("cache load should succeed");
    let key = "odd\"key\\with specials";
    let contents = cache.set_status(key, DiscordStatus::Offline, -5);
    let mut reloaded =
        PersistentStatusCache::load(Some(&contents), None).expect("reload should succeed");
    assert_eq!(reloaded.get_status(key, 0), Some(DiscordStatus::Offline));
}

#[test]
fn rendered_document_shape() {
    let entries = vec![StatusEntry {
        key: "discord:1:*".to_string(),
        record: StatusRecord {
            status: DiscordStatus::Online,
            updated_at: 7,
        },
    }];
    let text = render_status_file(&entries);
    assert_eq!(
        text,
        "{\"version\":1,\"records\":{\"discord:1:*\":{\"status\":\"online\",\"updated_at\":7}}}"
    );
    let parsed = parse_status_file(&text).expect("document should parse");
    assert_eq!(parsed.len(), 1);
    assert_eq!(parsed[0].key, "discord:1:*");
    assert_eq!(parsed[0].record.status, DiscordStatus::Online);
    assert_eq!(parsed[0].record.updated_at, 7);
}

#[test]
fn malformed_document_is_rejected() {
    assert!(parse_status_file("garbage").is_none());
    assert!(parse_status_file("{\"version\":1,\"records\":{}").is_none());
    assert!(PersistentStatusCache::load(Some("garbage"), None).is_err());
    let empty = "{\"version\":1,\"records\":{}}";
    let cache = PersistentStatusCache::load(Some(empty), None).expect("empty doc should load");
    assert_eq!(cache.entries.len(), 0);
}

#[test]
fn durable_tier_recovers_status_without_the_file() {
    let settings = CacheSettings {
        backend: CacheBackend::Sqlite,
        sqlite_path: "/tmp/statushub_test_state_mirror.sqlite3".to_string(),
    };
    let service = CacheService::from_settings(&settings).expect("cache init should succeed");
    let mut store = PersistentStatusCache::load(None, Some(service.clone()))
        .expect("cache load should succeed");
    store.set_status("discord:7:*", DiscordStatus::Idle, 100);
    // A fresh store without the file falls back to the durable tier and
    // backfills its snapshot.
    let mut recovered = PersistentStatusCache::load(None, Some(service))
        .expect("cache load should succeed");
    assert_eq!(recovered.get_status("discord:7:*", 200), Some(DiscordStatus::Idle));
    assert_eq!(recovered.entries.len(), 1);
    // A store without any durable tier stays a miss.
    let mut bare = PersistentStatusCache::load(None, None).expect("cache load should succeed");
    assert_eq!(bare.get_status("discord:7:*", 200), None);
}

#[test]
fn duplicate_keys_load_last_wins() {
    let doc = "{\"version\":1,\"records\":{\"k\":{\"status\":\"online\",\"updated_at\":1},\"k\":{\"status\":\"idle\",\"updated_at\":2}}}";
    assert!(parse_status_file(doc).is_some());
    let mut store = PersistentStatusCache::load(Some(doc), None).expect("load should succeed");
    assert_eq!(store.entries.len(), 1);
    assert_eq!(store.get_status("k", 10), Some(DiscordStatus::Idle));
}

#[test]
fn negative_timestamps_round_trip() {
    let entries = vec![StatusEntry {
        key: "k".to_string(),
        record: StatusRecord {
            status: DiscordStatus::Dnd,
            updated_at: -12345,
        },
    }];
    let text = render_status_file(&entries);
    let parsed = parse_status_file(&text).expect("document should parse");
    assert_eq!(parsed[0].record.updated_at, -12345);
}

#[test]
fn status_value_json_round_trip() {
    for status in [
        DiscordStatus::Online,
        DiscordStatus::Idle,
        DiscordStatus::Dnd,
        DiscordStatus::Offline,
        DiscordStatus::Invisible,
        DiscordStatus::Unknown,
    ] {
        let raw = status_to_json(status);
        assert_eq!(status_from_json(&raw), Some(status));
    }
    assert_eq!(status_from_json("\"nonsense\""), None);
    assert_eq!(status_from_json("online"), None);
}
