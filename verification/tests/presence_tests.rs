use statushub::config::ReminderSettings;
use statushub::event::{DiscordActivityContext, DiscordStatus};
use statushub::presence::{
    build_activity_fingerprint, make_status_cache_key, normalize_status, parse_steam_asset_app_id,
    summarize_activities, ActivityInput, ActivityKind, RawStatus,
};
use statushub::tracker::{
    observe, reminder_anchor_key, reminder_tick, should_emit_presence_event, PresencePolicy,
    ReminderAnchor, RuntimePresenceState,
};

fn no_reminders() -> ReminderSettings {
    ReminderSettings {
        enabled: false,
        interval_minutes: 30,
        steam_only: false,
        check_interval_seconds: 30,
    }
}

fn empty_state() -> RuntimePresenceState {
    RuntimePresenceState {
        current_status: None,
        current_guild_id: None,
        current_activity: None,
        current_activity_fingerprint: None,
        reminder_anchor: None,
    }
}

#[test]
fn map_status_values() {
    assert_eq!(normalize_status(RawStatus::Online), DiscordStatus::Online);
    assert_eq!(normalize_status(RawStatus::Idle), DiscordStatus::Idle);
    assert_eq!(normalize_status(RawStatus::DoNotDisturb), DiscordStatus::Dnd);
}

#[test]
fn parse_steam_app_id_from_asset() {
    assert_eq!(parse_steam_asset_app_id("steam:570"), Some(570));
    assert_eq!(parse_steam_asset_app_id("foo"), None);
    assert_eq!(parse_steam_asset_app_id("steam:not-number"), None);
}

#[test]
fn status_cache_key_works() {
    assert_eq!(make_status_cache_key(1, Some(2)), "discord:1:2");
    assert_eq!(make_status_cache_key(1, None), "discord:1:*");
}

#[test]
fn reminder_anchor_key_steam_only() {
    let settings = ReminderSettings {
        enabled: true,
        interval_minutes: 30,
        steam_only: true,
        check_interval_seconds: 30,
    };
    let key = reminder_anchor_key(
        &settings,
        false,
        DiscordStatus::Online,
        Some(&DiscordActivityContext {
            name: "Dota 2".to_string(),
            details: None,
            state: None,
            steam_app_id: Some(570),
        }),
    );
    assert_eq!(key.as_deref(), Some("steam:570:online"));
}

#[test]
fn emit_on_activity_change_when_enabled() {
    assert!(should_emit_presence_event(
        false, true, true, false, true, false, true
    ));
    assert!(!should_emit_presence_event(
        false, true, false, false, true, false, true
    ));
}

#[test]
fn rich_presence_only_blocks_status_only_events() {
    assert!(!should_emit_presence_event(
        true, false, true, true, false, false, true
    ));
    assert!(should_emit_presence_event(
        false, true, true, true, true, false, true
    ));
}

#[test]
fn summarize_activities_empty() {
    assert_eq!(summarize_activities(&vec![]), "[]");
}

#[test]
fn activity_fingerprint_empty_when_no_activities() {
    assert!(build_activity_fingerprint(&vec![]).is_empty());
}

#[test]
fn fingerprint_distinguishes_activity_lists() {
    let playing = ActivityInput {
        kind: ActivityKind::Playing,
        name: "Dota 2".to_string(),
        details: None,
        state: None,
        application_id: Some(7),
        large_image: Some("steam:570".to_string()),
        small_image: None,
    };
    let coding = ActivityInput {
        kind: ActivityKind::Playing,
        name: "Visual Studio Code".to_string(),
        details: Some("Editing".to_string()),
        state: None,
        application_id: None,
        large_image: None,
        small_image: None,
    };
    let one = build_activity_fingerprint(&vec![playing.clone()]);
    let other = build_activity_fingerprint(&vec![coding.clone()]);
    let both = build_activity_fingerprint(&vec![playing, coding]);
    assert_ne!(one, other);
    assert_ne!(one, both);
    assert!(!one.is_empty());
}

#[test]
fn duplicate_observation_is_silent() {
    let policy = PresencePolicy {
        emit_initial_status: true,
        emit_on_activity_change: true,
        rich_presence_only: false,
        reminder: no_reminders(),
    };
    let mut state = empty_state();
    let first = observe(
        &mut state,
        &policy,
        42,
        Some(9),
        RawStatus::Online,
        None,
        "fp-one".to_string(),
        1000,
    );
    assert!(first.event.is_some());
    let second = observe(
        &mut state,
        &policy,
        42,
        Some(9),
        RawStatus::Online,
        None,
        "fp-one".to_string(),
        1030,
    );
    assert!(second.event.is_none());
    assert!(!second.status_changed);
}

#[test]
fn initial_status_recorded_without_emitting() {
    let policy = PresencePolicy {
        emit_initial_status: false,
        emit_on_activity_change: false,
        rich_presence_only: false,
        reminder: no_reminders(),
    };
    let mut state = empty_state();
    let out = observe(
        &mut state,
        &policy,
        42,
        None,
        RawStatus::Online,
        None,
        String::new(),
        500,
    );
    assert!(out.event.is_none());
    assert_eq!(state.current_status, Some(DiscordStatus::Online));
}

#[test]
fn activity_change_emits_with_same_status() {
    let policy = PresencePolicy {
        emit_initial_status: false,
        emit_on_activity_change: true,
        rich_presence_only: false,
        reminder: no_reminders(),
    };
    let mut state = empty_state();
    observe(
        &mut state,
        &policy,
        42,
        None,
        RawStatus::Online,
        None,
        "fp-a".to_string(),
        100,
    );
    let activity = DiscordActivityContext {
        name: "Cyberpunk 2077".to_string(),
        details: None,
        state: None,
        steam_app_id: Some(1091500),
    };
    let out = observe(
        &mut state,
        &policy,
        42,
        None,
        RawStatus::Online,
        Some(activity),
        "fp-b".to_string(),
        130,
    );
    let event = out.event.expect("event should be emitted");
    assert_eq!(event.previous_status, Some(event.current_status));
    assert!(event.activity.is_some());
}

#[test]
fn rich_presence_only_suppresses_status_transition() {
    let policy = PresencePolicy {
        emit_initial_status: true,
        emit_on_activity_change: true,
        rich_presence_only: true,
        reminder: no_reminders(),
    };
    let mut state = empty_state();
    observe(
        &mut state,
        &policy,
        42,
        None,
        RawStatus::Online,
        None,
        String::new(),
        100,
    );
    let out = observe(
        &mut state,
        &policy,
        42,
        None,
        RawStatus::Idle,
        None,
        String::new(),
        160,
    );
    assert!(out.event.is_none());
    assert_eq!(state.current_status, Some(DiscordStatus::Idle));
}

#[test]
fn reminder_fires_once_per_interval() {
    let mut state = RuntimePresenceState {
        current_status: Some(DiscordStatus::Online),
        current_guild_id: None,
        current_activity: None,
        current_activity_fingerprint: None,
        reminder_anchor: Some(ReminderAnchor {
            key: "status:online".to_string(),
            started_at_unix: 0,
            last_sequence: 0,
        }),
    };
    assert!(reminder_tick(&mut state, 42, 1800, 1799).is_none());
    let first = reminder_tick(&mut state, 42, 1800, 1800).expect("first reminder should fire");
    let reminder = first.reminder.expect("reminder metadata should be set");
    assert_eq!(reminder.sequence, 1);
    assert_eq!(reminder.elapsed_seconds, 1800);
    assert_eq!(reminder.interval_seconds, 1800);
    assert!(reminder_tick(&mut state, 42, 1800, 3599).is_none());
    let second = reminder_tick(&mut state, 42, 1800, 3600).expect("second reminder should fire");
    assert_eq!(second.reminder.expect("reminder metadata should be set").sequence, 2);
}

#[test]
fn anchor_key_change_resets_sequence() {
    let reminder = ReminderSettings {
        enabled: true,
        interval_minutes: 30,
        steam_only: false,
        check_interval_seconds: 30,
    };
    let policy = PresencePolicy {
        emit_initial_status: true,
        emit_on_activity_change: false,
        rich_presence_only: false,
        reminder,
    };
    let mut state = empty_state();
    observe(
        &mut state,
        &policy,
        42,
        None,
        RawStatus::Online,
        None,
        String::new(),
        0,
    );
    let fired = reminder_tick(&mut state, 42, 1800, 1800).expect("reminder should fire");
    assert_eq!(fired.reminder.expect("reminder metadata should be set").sequence, 1);
    observe(
        &mut state,
        &policy,
        42,
        None,
        RawStatus::Idle,
        None,
        String::new(),
        1830,
    );
    let anchor = state.reminder_anchor.as_ref().expect("anchor should exist");
    assert_eq!(anchor.key, "status:idle");
    assert_eq!(anchor.last_sequence, 0);
    assert_eq!(anchor.started_at_unix, 1830);
    assert!(reminder_tick(&mut state, 42, 1800, 1860).is_none());
}
