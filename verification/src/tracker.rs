//! The presence state tracker and the reminder scheduler: the authoritative
//! in-memory view of the tracked identity, the emit/suppress decision per
//! observation, and the idempotent sequence-numbered reminder ticks.

use vstd::prelude::*;
use crate::config::ReminderSettings;
use crate::event::{
    ActivityContextV,
    DiscordActivityContext,
    DiscordStatus,
    DiscordStatusChangedEvent,
    EventV,
    ReminderContext,
    status_label_spec,
};
use crate::presence::{RawStatus, normalize_status, normalize_status_spec};
use crate::strutil::{chars_to_string, push_chars};
use crate::textnum::{dec_chars, push_u64};

verus! {

/// The emit/suppress policy of the tracker.
#[derive(Clone, Copy, Debug, PartialEq, Eq, Structural)]
pub struct PresencePolicy {
    pub emit_initial_status: bool,
    pub emit_on_activity_change: bool,
    pub rich_presence_only: bool,
    pub reminder: ReminderSettings,
}

/// The anchor of the reminder scheduler: a derived key, the instant the
/// current reminder-relevant condition began, and the last fired sequence
/// number (zero meaning never fired).
#[derive(Clone, Debug)]
pub struct ReminderAnchor {
    pub key: String,
    pub started_at_unix: i64,
    pub last_sequence: u64,
}

/// The mathematical view of a reminder anchor.
pub ghost struct AnchorV {
    pub key: Seq<char>,
    pub started_at_unix: int,
    pub last_sequence: u64,
}

impl View for ReminderAnchor {
    type V = AnchorV;

    open spec fn view(&self) -> AnchorV {
        AnchorV {
            key: self.key@,
            started_at_unix: self.started_at_unix as int,
            last_sequence: self.last_sequence,
        }
    }
}

/// The authoritative in-memory state of the tracked identity.
#[derive(Clone, Debug)]
pub struct RuntimePresenceState {
    pub current_status: Option<DiscordStatus>,
    pub current_guild_id: Option<u64>,
    pub current_activity: Option<DiscordActivityContext>,
    pub current_activity_fingerprint: Option<String>,
    pub reminder_anchor: Option<ReminderAnchor>,
}

/// The mathematical view of the runtime state.
pub ghost struct StateV {
    pub status: Option<DiscordStatus>,
    pub guild_id: Option<u64>,
    pub activity: Option<ActivityContextV>,
    pub fingerprint: Option<Seq<char>>,
    pub anchor: Option<AnchorV>,
}

impl View for RuntimePresenceState {
    type V = StateV;

    open spec fn view(&self) -> StateV {
        StateV {
            status: self.current_status,
            guild_id: self.current_guild_id,
            activity: self.current_activity.deep_view(),
            fingerprint: self.current_activity_fingerprint.deep_view(),
            anchor: match self.reminder_anchor {
                Option::Some(a) => Some(a@),
                Option::None => None,
            },
        }
    }
}

/// The reminder anchor key derived from the policy, the normalized status
/// and the primary activity: none when reminders are off, none in
/// rich-presence-only mode without an activity, keyed by the
/// external-reference id when reminders are restricted to it, and keyed by
/// the status alone otherwise.
pub open spec fn anchor_key_spec(
    reminder: ReminderSettings,
    rich_presence_only: bool,
    status: DiscordStatus,
    activity: Option<ActivityContextV>,
) -> Option<Seq<char>> {
    if !reminder.enabled {
        None
    } else if rich_presence_only && activity is None {
        None
    } else if reminder.steam_only {
        match activity {
            Option::Some(a) => match a.steam_app_id {
                Option::Some(id) => Some(
                    "steam:"@ + dec_chars(id as nat) + ":"@ + status_label_spec(status),
                ),
                Option::None => None,
            },
            Option::None => None,
        }
    } else {
        Some("status:"@ + status_label_spec(status))
    }
}

/// Derives the reminder anchor key.
pub fn reminder_anchor_key(
    reminder: &ReminderSettings,
    rich_presence_only: bool,
    status: DiscordStatus,
    activity: Option<&DiscordActivityContext>,
) -> (r: Option<String>)
    ensures
        r.deep_view() == anchor_key_spec(*reminder, rich_presence_only, status, activity.deep_view()),
{
    if !reminder.enabled {
        return None;
    }
    if rich_presence_only && activity.is_none() {
        return None;
    }
    if reminder.steam_only {
        let id = match activity {
            Option::Some(a) => match a.steam_app_id {
                Option::Some(id) => id,
                Option::None => {
                    return None;
                },
            },
            Option::None => {
                return None;
            },
        };
        let mut v: Vec<char> = Vec::new();
        push_chars(&mut v, "steam:");
        push_u64(&mut v, id as u64);
        push_chars(&mut v, ":");
        push_chars(&mut v, status.label());
        proof {
            assert(v@ =~= "steam:"@ + dec_chars(id as nat) + ":"@ + status_label_spec(status));
        }
        Some(chars_to_string(&v))
    } else {
        let mut v: Vec<char> = Vec::new();
        push_chars(&mut v, "status:");
        push_chars(&mut v, status.label());
        Some(chars_to_string(&v))
    }
}

/// Whether a status differs from the previously recorded one; an unset
/// previous status always counts as changed.
pub open spec fn status_changed_spec(previous: Option<DiscordStatus>, next: DiscordStatus) -> bool {
    previous != Some(next)
}

/// Whether the activity fingerprint differs from the previously recorded
/// one; an unset previous fingerprint counts as changed only when the new
/// fingerprint is non-empty.
pub open spec fn activity_changed_spec(
    previous: Option<Seq<char>>,
    next: Seq<char>,
) -> bool {
    match previous {
        Option::Some(p) => p != next,
        Option::None => next.len() > 0,
    }
}

/// The emit decision: in rich-presence-only mode, emission needs the
/// activity-change trigger enabled, a changed activity and an activity
/// present; otherwise a status change or an enabled activity change
/// suffices. A first observation emits only when emitting the initial status
/// is enabled.
pub open spec fn should_emit_spec(
    status_changed: bool,
    activity_changed: bool,
    emit_on_activity_change: bool,
    rich_presence_only: bool,
    has_activity: bool,
    emit_initial_status: bool,
    has_previous_status: bool,
) -> bool {
    let trigger_change = if rich_presence_only {
        emit_on_activity_change && activity_changed && has_activity
    } else {
        status_changed || (emit_on_activity_change && activity_changed)
    };
    trigger_change && (emit_initial_status || has_previous_status)
}

/// Decides whether an observation is emitted.
pub fn should_emit_presence_event(
    status_changed: bool,
    activity_changed: bool,
    emit_on_activity_change: bool,
    rich_presence_only: bool,
    has_activity: bool,
    emit_initial_status: bool,
    has_previous_status: bool,
) -> (r: bool)
    ensures
        r == should_emit_spec(
            status_changed,
            activity_changed,
            emit_on_activity_change,
            rich_presence_only,
            has_activity,
            emit_initial_status,
            has_previous_status,
        ),
{
    let trigger_change = if rich_presence_only {
        emit_on_activity_change && activity_changed && has_activity
    } else {
        status_changed || (emit_on_activity_change && activity_changed)
    };
    trigger_change && (emit_initial_status || has_previous_status)
}

/// The anchor key currently stored, if any anchor is active.
pub open spec fn current_anchor_key(s: StateV) -> Option<Seq<char>> {
    match s.anchor {
        Option::Some(a) => Some(a.key),
        Option::None => None,
    }
}

/// The anchor after an observation: replaced by a fresh anchor (started
/// now, sequence zero) when the derived key changes, kept untouched
/// otherwise.
pub open spec fn next_anchor_spec(
    s: StateV,
    policy: PresencePolicy,
    status: DiscordStatus,
    activity: Option<ActivityContextV>,
    now: int,
) -> Option<AnchorV> {
    let next_key = anchor_key_spec(policy.reminder, policy.rich_presence_only, status, activity);
    if current_anchor_key(s) != next_key {
        match next_key {
            Option::Some(k) => Some(AnchorV { key: k, started_at_unix: now, last_sequence: 0 }),
            Option::None => None,
        }
    } else {
        s.anchor
    }
}

/// The runtime state after an observation: the observed status, scope,
/// activity and fingerprint are recorded, and the anchor follows
/// [`next_anchor_spec`].
pub open spec fn observe_state_spec(
    s: StateV,
    policy: PresencePolicy,
    guild_id: Option<u64>,
    status: DiscordStatus,
    activity: Option<ActivityContextV>,
    fingerprint: Seq<char>,
    now: int,
) -> StateV {
    StateV {
        status: Some(status),
        guild_id: guild_id,
        activity: activity,
        fingerprint: Some(fingerprint),
        anchor: next_anchor_spec(s, policy, status, activity, now),
    }
}

/// Whether an observation is emitted, given the state before it.
pub open spec fn observe_emits_spec(
    s: StateV,
    policy: PresencePolicy,
    status: DiscordStatus,
    fingerprint: Seq<char>,
) -> bool {
    should_emit_spec(
        status_changed_spec(s.status, status),
        activity_changed_spec(s.fingerprint, fingerprint),
        policy.emit_on_activity_change,
        policy.rich_presence_only,
        fingerprint.len() > 0,
        policy.emit_initial_status,
        s.status is Some,
    )
}

/// The event an emitted observation carries.
pub open spec fn observe_event_spec(
    s: StateV,
    user_id: u64,
    guild_id: Option<u64>,
    status: DiscordStatus,
    activity: Option<ActivityContextV>,
    now: int,
) -> EventV {
    EventV {
        source: "discord.status"@,
        user_id: user_id,
        guild_id: guild_id,
        previous_status: s.status,
        current_status: status,
        activity: activity,
        reminder: None,
        observed_at: now,
    }
}

/// The outcome of one observation.
pub struct ObserveOutcome {
    pub previous: Option<DiscordStatus>,
    pub status_changed: bool,
    pub event: Option<DiscordStatusChangedEvent>,
}

fn clone_ctx(c: &DiscordActivityContext) -> (r: DiscordActivityContext)
    ensures
        r@ == c@,
{
    DiscordActivityContext {
        name: c.name.clone(),
        details: match &c.details {
            Option::Some(s) => Some(s.clone()),
            Option::None => None,
        },
        state: match &c.state {
            Option::Some(s) => Some(s.clone()),
            Option::None => None,
        },
        steam_app_id: c.steam_app_id,
    }
}

fn clone_opt_ctx(c: &Option<DiscordActivityContext>) -> (r: Option<DiscordActivityContext>)
    ensures
        r.deep_view() == c.deep_view(),
{
    match c {
        Option::Some(a) => Some(clone_ctx(a)),
        Option::None => None,
    }
}

/// Applies one upstream observation to the runtime state, under the
/// identity's serialization point: records status, scope, activity and
/// fingerprint, re-anchors the reminder scheduler when the derived key
/// changes, and decides emission.
pub fn observe(
    state: &mut RuntimePresenceState,
    policy: &PresencePolicy,
    user_id: u64,
    guild_id: Option<u64>,
    raw_status: RawStatus,
    activity: Option<DiscordActivityContext>,
    activity_fingerprint: String,
    now: i64,
) -> (r: ObserveOutcome)
    ensures
        final(state)@ == observe_state_spec(
            old(state)@,
            *policy,
            guild_id,
            normalize_status_spec(raw_status),
            activity.deep_view(),
            activity_fingerprint@,
            now as int,
        ),
        r.previous == old(state)@.status,
        r.status_changed == status_changed_spec(
            old(state)@.status,
            normalize_status_spec(raw_status),
        ),
        observe_emits_spec(
            old(state)@,
            *policy,
            normalize_status_spec(raw_status),
            activity_fingerprint@,
        ) ==> (r.event matches Some(e) && e@ == observe_event_spec(
            old(state)@,
            user_id,
            guild_id,
            normalize_status_spec(raw_status),
            activity.deep_view(),
            now as int,
        )),
        !observe_emits_spec(
            old(state)@,
            *policy,
            normalize_status_spec(raw_status),
            activity_fingerprint@,
        ) ==> r.event is None,
{
    let next_status = normalize_status(raw_status);
    let has_activity = !activity_fingerprint.as_str().is_empty();
    let previous = state.current_status;
    let status_changed = match previous {
        Option::Some(p) => p != next_status,
        Option::None => true,
    };
    let activity_changed = match &state.current_activity_fingerprint {
        Option::Some(p) => !p.eq(&activity_fingerprint),
        Option::None => has_activity,
    };

    let next_anchor_key = reminder_anchor_key(
        &policy.reminder,
        policy.rich_presence_only,
        next_status,
        activity.as_ref(),
    );
    let keys_equal: bool = match (&state.reminder_anchor, &next_anchor_key) {
        (Option::Some(a), Option::Some(k)) => a.key.eq(k),
        (Option::None, Option::None) => true,
        _ => false,
    };
    if !keys_equal {
        state.reminder_anchor = match next_anchor_key {
            Option::Some(key) => Some(
                ReminderAnchor { key, started_at_unix: now, last_sequence: 0 },
            ),
            Option::None => None,
        };
    }

    state.current_status = Some(next_status);
    state.current_guild_id = guild_id;
    state.current_activity = clone_opt_ctx(&activity);
    state.current_activity_fingerprint = Some(activity_fingerprint);

    let emit = should_emit_presence_event(
        status_changed,
        activity_changed,
        policy.emit_on_activity_change,
        policy.rich_presence_only,
        has_activity,
        policy.emit_initial_status,
        previous.is_some(),
    );
    let event = if emit {
        Some(
            DiscordStatusChangedEvent::new(
                user_id,
                guild_id,
                previous,
                next_status,
                activity,
                None,
                now,
            ),
        )
    } else {
        None
    };
    ObserveOutcome { previous, status_changed, event }
}

/// Builds the runtime state at process start, possibly seeded with a
/// recovered status; a status-keyed anchor starts immediately when the
/// policy allows one without an activity.
pub fn build_initial_runtime_state(
    initial_status: Option<DiscordStatus>,
    rich_presence_only: bool,
    reminder: &ReminderSettings,
    now: i64,
) -> (r: RuntimePresenceState)
    ensures
        r@.status == initial_status,
        r@.guild_id is None,
        r@.activity is None,
        r@.fingerprint is None,
        r@.anchor == if reminder.enabled && !reminder.steam_only && !rich_presence_only {
            match initial_status {
                Option::Some(s) => Some(
                    AnchorV {
                        key: "status:"@ + status_label_spec(s),
                        started_at_unix: now as int,
                        last_sequence: 0,
                    },
                ),
                Option::None => None,
            }
        } else {
            None
        },
{
    let reminder_anchor = if reminder.enabled && !reminder.steam_only && !rich_presence_only {
        match initial_status {
            Option::Some(status) => {
                let mut v: Vec<char> = Vec::new();
                push_chars(&mut v, "status:");
                push_chars(&mut v, status.label());
                Some(
                    ReminderAnchor {
                        key: chars_to_string(&v),
                        started_at_unix: now,
                        last_sequence: 0,
                    },
                )
            },
            Option::None => None,
        }
    } else {
        None
    };
    RuntimePresenceState {
        current_status: initial_status,
        current_guild_id: None,
        current_activity: None,
        current_activity_fingerprint: None,
        reminder_anchor: reminder_anchor,
    }
}

/// The elapsed whole seconds since the anchor started, clamped to zero and
/// to the integer limit.
pub open spec fn tick_elapsed_spec(a: AnchorV, now: int) -> u64 {
    if now <= a.started_at_unix {
        0u64
    } else if now - a.started_at_unix > u64::MAX {
        u64::MAX
    } else {
        (now - a.started_at_unix) as u64
    }
}

/// The reminder sequence number a tick derives: elapsed time in whole
/// intervals.
pub open spec fn tick_sequence_spec(a: AnchorV, interval_seconds: u64, now: int) -> u64
    recommends
        interval_seconds > 0,
{
    (tick_elapsed_spec(a, now) / interval_seconds) as u64
}

/// Whether a tick fires a reminder: a status is known, an anchor is active,
/// at least one full interval has elapsed, and the derived sequence number
/// was not fired before.
pub open spec fn tick_fires_spec(s: StateV, interval_seconds: u64, now: int) -> bool {
    &&& s.status is Some
    &&& s.anchor matches Some(a) && tick_sequence_spec(a, interval_seconds, now) != 0
        && tick_sequence_spec(a, interval_seconds, now) > a.last_sequence
}

/// The state after a tick: the anchor's last fired sequence advances to the
/// derived sequence when the tick fires, and nothing changes otherwise.
pub open spec fn tick_state_spec(s: StateV, interval_seconds: u64, now: int) -> StateV {
    if tick_fires_spec(s, interval_seconds, now) {
        let a = s.anchor->Some_0;
        StateV {
            anchor: Some(
                AnchorV {
                    key: a.key,
                    started_at_unix: a.started_at_unix,
                    last_sequence: tick_sequence_spec(a, interval_seconds, now),
                },
            ),
            ..s
        }
    } else {
        s
    }
}

/// The elapsed seconds a fired reminder reports: its sequence times the
/// interval, saturating at the integer limit.
pub open spec fn reminder_elapsed_spec(sequence: u64, interval_seconds: u64) -> u64 {
    if sequence as nat * interval_seconds as nat <= u64::MAX as nat {
        (sequence as nat * interval_seconds as nat) as u64
    } else {
        u64::MAX
    }
}

/// The event a fired tick carries.
pub open spec fn tick_event_spec(s: StateV, user_id: u64, interval_seconds: u64, now: int) -> EventV
    recommends
        s.anchor is Some,
        interval_seconds > 0,
{
    let a = s.anchor->Some_0;
    let sequence = tick_sequence_spec(a, interval_seconds, now);
    EventV {
        source: "discord.status"@,
        user_id: user_id,
        guild_id: s.guild_id,
        previous_status: None,
        current_status: match s.status {
            Option::Some(st) => st,
            Option::None => DiscordStatus::Unknown,
        },
        activity: s.activity,
        reminder: Some(
            ReminderContext {
                elapsed_seconds: reminder_elapsed_spec(sequence, interval_seconds),
                interval_seconds: interval_seconds,
                sequence: sequence,
            },
        ),
        observed_at: now,
    }
}

/// Runs one reminder tick: skips when no status or no anchor is known, and
/// otherwise fires exactly when a new whole interval has elapsed, advancing
/// the anchor's last fired sequence so the same sequence never fires twice.
pub fn reminder_tick(
    state: &mut RuntimePresenceState,
    user_id: u64,
    interval_seconds: u64,
    now: i64,
) -> (r: Option<DiscordStatusChangedEvent>)
    requires
        interval_seconds > 0,
    ensures
        final(state)@ == tick_state_spec(old(state)@, interval_seconds, now as int),
        tick_fires_spec(old(state)@, interval_seconds, now as int) ==> (r matches Some(e) && e@
            == tick_event_spec(old(state)@, user_id, interval_seconds, now as int)),
        !tick_fires_spec(old(state)@, interval_seconds, now as int) ==> r is None,
{
    if state.current_status.is_none() || state.reminder_anchor.is_none() {
        return None;
    }
    let current_status = match state.current_status {
        Option::Some(s) => s,
        Option::None => DiscordStatus::Unknown,
    };
    let guild_id = state.current_guild_id;
    let activity = clone_opt_ctx(&state.current_activity);
    let anchor = match &state.reminder_anchor {
        Option::Some(a) => a,
        Option::None => {
            return None;
        },
    };
    let delta: i128 = now as i128 - anchor.started_at_unix as i128;
    let elapsed: u64 = if delta <= 0 {
        0
    } else if delta > u64::MAX as i128 {
        u64::MAX
    } else {
        delta as u64
    };
    let sequence = elapsed / interval_seconds;
    if sequence == 0 || sequence <= anchor.last_sequence {
        return None;
    }
    let new_anchor = ReminderAnchor {
        key: anchor.key.clone(),
        started_at_unix: anchor.started_at_unix,
        last_sequence: sequence,
    };
    state.reminder_anchor = Some(new_anchor);
    let elapsed_seconds = match sequence.checked_mul(interval_seconds) {
        Option::Some(v) => v,
        Option::None => u64::MAX,
    };
    Some(
        DiscordStatusChangedEvent::new(
            user_id,
            guild_id,
            None,
            current_status,
            activity,
            Some(
                ReminderContext {
                    elapsed_seconds: elapsed_seconds,
                    interval_seconds: interval_seconds,
                    sequence: sequence,
                },
            ),
            now,
        ),
    )
}

/// Law: after any observation, a consecutive observation carrying the same
/// normalized status and the same activity fingerprint is never emitted; and
/// when it also derives the same primary activity, it leaves the reminder
/// anchor untouched.
pub proof fn lemma_duplicate_observation_silent(
    s: StateV,
    policy: PresencePolicy,
    guild_id1: Option<u64>,
    guild_id2: Option<u64>,
    status: DiscordStatus,
    activity1: Option<ActivityContextV>,
    activity2: Option<ActivityContextV>,
    fingerprint: Seq<char>,
    now1: int,
    now2: int,
)
    ensures
        !observe_emits_spec(
            observe_state_spec(s, policy, guild_id1, status, activity1, fingerprint, now1),
            policy,
            status,
            fingerprint,
        ),
        activity2 == activity1 ==> observe_state_spec(
            observe_state_spec(s, policy, guild_id1, status, activity1, fingerprint, now1),
            policy,
            guild_id2,
            status,
            activity2,
            fingerprint,
            now2,
        ).anchor == observe_state_spec(
            s,
            policy,
            guild_id1,
            status,
            activity1,
            fingerprint,
            now1,
        ).anchor,
{
    let s2 = observe_state_spec(s, policy, guild_id1, status, activity1, fingerprint, now1);
    assert(!status_changed_spec(s2.status, status));
    assert(!activity_changed_spec(s2.fingerprint, fingerprint));
    if activity2 == activity1 {
        let key = anchor_key_spec(policy.reminder, policy.rich_presence_only, status, activity1);
        assert(current_anchor_key(s2) == key);
    }
}

/// Law: when emitting the initial status is disabled, the first observation
/// for the identity (no previous status known) never emits, but the observed
/// status is always recorded.
pub proof fn lemma_initial_observation_records_silently(
    s: StateV,
    policy: PresencePolicy,
    guild_id: Option<u64>,
    status: DiscordStatus,
    activity: Option<ActivityContextV>,
    fingerprint: Seq<char>,
    now: int,
)
    requires
        s.status is None,
        !policy.emit_initial_status,
    ensures
        !observe_emits_spec(s, policy, status, fingerprint),
        observe_state_spec(s, policy, guild_id, status, activity, fingerprint, now).status
            == Some(status),
{
}

/// Law: a fired tick strictly increases the anchor's last fired sequence
/// number, and fires only sequence numbers above every previously fired one.
pub proof fn lemma_reminder_sequence_strictly_increases(s: StateV, interval_seconds: u64, now: int)
    requires
        interval_seconds > 0,
        tick_fires_spec(s, interval_seconds, now),
    ensures
        s.anchor matches Some(a1) && tick_state_spec(s, interval_seconds, now).anchor matches Some(
            a2,
        ) && a2.last_sequence > a1.last_sequence && a2.key == a1.key && a2.started_at_unix
            == a1.started_at_unix,
{
}

/// Law: a sequence number never fires twice for the same anchor. After a
/// tick fires, any later tick that derives the same sequence number does not
/// fire again.
pub proof fn lemma_reminder_never_fires_twice(
    s: StateV,
    interval_seconds: u64,
    now1: int,
    now2: int,
)
    requires
        interval_seconds > 0,
        tick_fires_spec(s, interval_seconds, now1),
        tick_sequence_spec(
            tick_state_spec(s, interval_seconds, now1).anchor->Some_0,
            interval_seconds,
            now2,
        ) <= tick_sequence_spec(s.anchor->Some_0, interval_seconds, now1),
    ensures
        !tick_fires_spec(tick_state_spec(s, interval_seconds, now1), interval_seconds, now2),
{
}

/// Law: an observation whose derived anchor key differs from the stored one
/// replaces the anchor with a fresh one: start time now, sequence zero. When
/// the new key is none, no anchor remains.
pub proof fn lemma_anchor_key_change_resets(
    s: StateV,
    policy: PresencePolicy,
    guild_id: Option<u64>,
    status: DiscordStatus,
    activity: Option<ActivityContextV>,
    fingerprint: Seq<char>,
    now: int,
)
    requires
        current_anchor_key(s) != anchor_key_spec(
            policy.reminder,
            policy.rich_presence_only,
            status,
            activity,
        ),
    ensures
        match observe_state_spec(s, policy, guild_id, status, activity, fingerprint, now).anchor {
            Option::Some(a) => {
                &&& Some(a.key) == anchor_key_spec(
                    policy.reminder,
                    policy.rich_presence_only,
                    status,
                    activity,
                )
                &&& a.last_sequence == 0
                &&& a.started_at_unix == now
            },
            Option::None => anchor_key_spec(
                policy.reminder,
                policy.rich_presence_only,
                status,
                activity,
            ) is None,
        },
{
}

} // verus!
