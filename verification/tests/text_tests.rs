use statushub::event::{
    format_elapsed, DiscordActivityContext, DiscordStatus, DiscordStatusChangedEvent,
    ReminderContext,
};
use statushub::steam::{build_game_details, SteamGameDetails};
use statushub::strutil::{non_empty_trimmed, normalize_optional_text, truncate_chars};
use statushub::wake::{
    build_activity_section, build_text, render_event_json, render_wake_payload,
    steam_section_text, wake_steam_app_id,
};

#[test]
fn truncate_description() {
    assert_eq!(truncate_chars("abcdef", 3), "abc...");
    assert_eq!(truncate_chars("abc", 3), "abc");
}

#[test]
fn truncate_empty_text() {
    assert_eq!(truncate_chars("", 3), "");
    assert_eq!(truncate_chars("ab", 0), "...");
}

#[test]
fn trimming_helpers() {
    assert_eq!(non_empty_trimmed("  hi  "), Some("hi"));
    assert_eq!(non_empty_trimmed(" \t\r\n "), None);
    assert_eq!(
        normalize_optional_text(Some("  hello  ".to_string())),
        Some("hello".to_string())
    );
    assert_eq!(normalize_optional_text(Some("   ".to_string())), None);
    assert_eq!(normalize_optional_text(None), None);
}

#[test]
fn trimming_covers_unicode_whitespace() {
    // The same set std's `str::trim` removes.
    assert_eq!(non_empty_trimmed("\u{000B}"), None);
    assert_eq!(non_empty_trimmed("\u{000C}\u{0085}\u{00A0}"), None);
    assert_eq!(non_empty_trimmed("\u{00A0}x\u{3000}"), Some("x"));
    assert_eq!(non_empty_trimmed("\u{2003}\u{202F}hi\u{2028}"), Some("hi"));
    assert_eq!(normalize_optional_text(Some("\u{000B}\u{2029}".to_string())), None);
    assert_eq!("\u{000B}\u{00A0}abc\u{205F}".trim(), "abc");
    assert_eq!(non_empty_trimmed("\u{000B}\u{00A0}abc\u{205F}"), Some("abc"));
}

#[test]
fn format_elapsed_exact_values() {
    assert_eq!(format_elapsed(3725), "1h 2m 5s");
    assert_eq!(format_elapsed(1800), "30m 0s");
    assert_eq!(format_elapsed(45), "45s");
    assert_eq!(format_elapsed(0), "0s");
}

#[test]
fn openclaw_text_contains_status_transition() {
    let event = DiscordStatusChangedEvent::new(
        42,
        Some(99),
        Some(DiscordStatus::Offline),
        DiscordStatus::Online,
        None,
        None,
        0,
    );
    let text = event.to_base_text();
    assert!(text.contains("from offline to online"));
    assert!(text.contains("guild 99"));
    assert_eq!(
        text,
        "Discord status changed: user 42 in guild 99 from offline to online at 1970-01-01T00:00:00+00:00"
    );
}

#[test]
fn reminder_text_contains_elapsed() {
    let event = DiscordStatusChangedEvent::new(
        42,
        None,
        None,
        DiscordStatus::Online,
        None,
        Some(ReminderContext {
            elapsed_seconds: 1800,
            interval_seconds: 1800,
            sequence: 1,
        }),
        0,
    );
    let text = event.to_base_text();
    assert!(text.contains("status reminder"));
    assert!(text.contains("30m"));
    assert_eq!(
        text,
        "Discord status reminder: user 42 is still online. Elapsed: 30m 0s (reminder #1) at 1970-01-01T00:00:00+00:00"
    );
}

#[test]
fn activity_change_text_for_same_status() {
    let event = DiscordStatusChangedEvent::new(
        42,
        None,
        Some(DiscordStatus::Online),
        DiscordStatus::Online,
        Some(DiscordActivityContext {
            name: "Cyberpunk 2077".to_string(),
            details: None,
            state: None,
            steam_app_id: Some(1091500),
        }),
        None,
        0,
    );
    let text = event.to_base_text();
    assert!(text.contains("activity changed"));
}

#[test]
fn base_text_renders_epoch_timestamp() {
    let event = DiscordStatusChangedEvent::new(
        1,
        None,
        Some(DiscordStatus::Offline),
        DiscordStatus::Online,
        None,
        None,
        0,
    );
    let text = event.to_base_text();
    assert!(text.contains("1970-01-01T00:00:00+00:00"));
}

#[test]
fn build_activity_section_contains_fields() {
    let event = DiscordStatusChangedEvent::new(
        1,
        None,
        Some(DiscordStatus::Online),
        DiscordStatus::Online,
        Some(DiscordActivityContext {
            name: "Visual Studio Code".to_string(),
            details: Some("Editing src/main.rs".to_string()),
            state: Some("Workspace: StatusHub".to_string()),
            steam_app_id: None,
        }),
        None,
        0,
    );
    let section = build_activity_section(&event).expect("section should exist");
    assert!(section.contains("Activity: Visual Studio Code"));
    assert!(section.contains("Details: Editing src/main.rs"));
    assert!(section.contains("State: Workspace: StatusHub"));
}

#[test]
fn steam_section_uses_fallback_on_miss() {
    let line = steam_section_text("Dota 2", 570, None);
    assert_eq!(line, "Steam game: Dota 2 (app_id=570)");
    let details = SteamGameDetails {
        app_id: 570,
        name: "Dota 2".to_string(),
        short_description: Some("A MOBA.".to_string()),
        current_players: Some(300000),
    };
    let hit = steam_section_text("fallback", 570, Some(&details));
    assert!(hit.starts_with("Steam game: Dota 2 (app_id=570)"));
    assert!(hit.contains("A MOBA."));
    assert!(hit.contains("300000"));
}

#[test]
fn wake_text_joins_all_parts() {
    let event = DiscordStatusChangedEvent::new(
        42,
        None,
        Some(DiscordStatus::Offline),
        DiscordStatus::Online,
        Some(DiscordActivityContext {
            name: "Dota 2".to_string(),
            details: None,
            state: None,
            steam_app_id: Some(570),
        }),
        None,
        0,
    );
    assert_eq!(wake_steam_app_id(&event), Some(570));
    let text = build_text(
        &Some("[PRE]".to_string()),
        &event,
        &Some("Steam game: Dota 2 (app_id=570)".to_string()),
        &Some("[SUF]".to_string()),
    );
    assert!(text.starts_with("[PRE]\n"));
    assert!(text.contains("from offline to online"));
    assert!(text.contains("\nActivity: Dota 2"));
    assert!(text.contains("\nSteam game: Dota 2 (app_id=570)"));
    assert!(text.ends_with("\n[SUF]"));
}

#[test]
fn wake_payload_escapes_text() {
    assert_eq!(
        render_wake_payload("hi", "now"),
        "{\"text\":\"hi\",\"mode\":\"now\"}"
    );
    assert_eq!(
        render_wake_payload("a\"b\\c", "now"),
        "{\"text\":\"a\\\"b\\\\c\",\"mode\":\"now\"}"
    );
}

#[test]
fn event_json_exact_rendering() {
    let event = DiscordStatusChangedEvent::new(
        7,
        Some(9),
        Some(DiscordStatus::Offline),
        DiscordStatus::Online,
        None,
        None,
        0,
    );
    let json = render_event_json(&event);
    assert_eq!(
        json,
        "{\"source\":\"discord.status\",\"user_id\":7,\"guild_id\":9,\"previous_status\":\"offline\",\"current_status\":\"online\",\"observed_at\":\"1970-01-01T00:00:00+00:00\"}"
    );
}

#[test]
fn game_details_description_is_trimmed_and_truncated() {
    let d = build_game_details(570, "Dota 2".to_string(), "  A MOBA game.  ", 6, None);
    assert_eq!(d.short_description.as_deref(), Some("A MOBA..."));
    let d2 = build_game_details(570, "Dota 2".to_string(), "   ", 6, Some(5));
    assert!(d2.short_description.is_none());
    assert_eq!(d2.current_players, Some(5));
}
