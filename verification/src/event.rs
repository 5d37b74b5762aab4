//! The notification event model: statuses, activity context, reminder
//! metadata, and the human-readable base text of an event.

use vstd::prelude::*;
use crate::strutil::{chars_to_string, push_chars};
use crate::textnum::{dec_chars, push_u64};

verus! {

/// A normalized presence status.
#[derive(Clone, Copy, Debug, PartialEq, Eq, Structural)]
pub enum DiscordStatus {
    Online,
    Idle,
    Dnd,
    Offline,
    Invisible,
    Unknown,
}

/// The label of a status, as it appears in rendered text and in the
/// persisted status file.
pub open spec fn status_label_spec(s: DiscordStatus) -> Seq<char> {
    match s {
        DiscordStatus::Online => "online"@,
        DiscordStatus::Idle => "idle"@,
        DiscordStatus::Dnd => "dnd"@,
        DiscordStatus::Offline => "offline"@,
        DiscordStatus::Invisible => "invisible"@,
        DiscordStatus::Unknown => "unknown"@,
    }
}

impl DiscordStatus {
    /// The status label as text.
    pub fn label(self) -> (r: &'static str)
        ensures
            r@ == status_label_spec(self),
    {
        match self {
            DiscordStatus::Online => "online",
            DiscordStatus::Idle => "idle",
            DiscordStatus::Dnd => "dnd",
            DiscordStatus::Offline => "offline",
            DiscordStatus::Invisible => "invisible",
            DiscordStatus::Unknown => "unknown",
        }
    }
}

/// The context of the primary activity attached to an observation.
#[derive(Clone, Debug, PartialEq, Eq)]
pub struct DiscordActivityContext {
    pub name: String,
    pub details: Option<String>,
    pub state: Option<String>,
    pub steam_app_id: Option<u32>,
}

/// The mathematical view of an activity context.
pub ghost struct ActivityContextV {
    pub name: Seq<char>,
    pub details: Option<Seq<char>>,
    pub state: Option<Seq<char>>,
    pub steam_app_id: Option<u32>,
}

impl View for DiscordActivityContext {
    type V = ActivityContextV;

    open spec fn view(&self) -> ActivityContextV {
        ActivityContextV {
            name: self.name@,
            details: self.details.deep_view(),
            state: self.state.deep_view(),
            steam_app_id: self.steam_app_id,
        }
    }
}

impl DeepView for DiscordActivityContext {
    type V = ActivityContextV;

    open spec fn deep_view(&self) -> ActivityContextV {
        self.view()
    }
}

/// Reminder metadata attached to a reminder event.
#[derive(Clone, Copy, Debug, PartialEq, Eq, Structural)]
pub struct ReminderContext {
    pub elapsed_seconds: u64,
    pub interval_seconds: u64,
    pub sequence: u64,
}

/// A notification event, immutable once constructed.
#[derive(Clone, Debug)]
pub struct DiscordStatusChangedEvent {
    pub source: &'static str,
    pub user_id: u64,
    pub guild_id: Option<u64>,
    pub previous_status: Option<DiscordStatus>,
    pub current_status: DiscordStatus,
    pub activity: Option<DiscordActivityContext>,
    pub reminder: Option<ReminderContext>,
    pub observed_at: i64,
}

/// The mathematical view of a notification event.
pub ghost struct EventV {
    pub source: Seq<char>,
    pub user_id: u64,
    pub guild_id: Option<u64>,
    pub previous_status: Option<DiscordStatus>,
    pub current_status: DiscordStatus,
    pub activity: Option<ActivityContextV>,
    pub reminder: Option<ReminderContext>,
    pub observed_at: int,
}

impl View for DiscordStatusChangedEvent {
    type V = EventV;

    open spec fn view(&self) -> EventV {
        EventV {
            source: self.source@,
            user_id: self.user_id,
            guild_id: self.guild_id,
            previous_status: self.previous_status,
            current_status: self.current_status,
            activity: self.activity.deep_view(),
            reminder: self.reminder,
            observed_at: self.observed_at as int,
        }
    }
}

/// Timestamps the library renders: non-negative and before the year 10000,
/// so that the calendar rendering is defined.
pub open spec fn valid_timestamp(t: i64) -> bool {
    0 <= t <= 253402300799
}

impl DiscordStatusChangedEvent {
    /// Builds an event observed at the given Unix timestamp.
    pub fn new(
        user_id: u64,
        guild_id: Option<u64>,
        previous_status: Option<DiscordStatus>,
        current_status: DiscordStatus,
        activity: Option<DiscordActivityContext>,
        reminder: Option<ReminderContext>,
        observed_at: i64,
    ) -> (r: Self)
        ensures
            r.source@ == "discord.status"@,
            r.user_id == user_id,
            r.guild_id == guild_id,
            r.previous_status == previous_status,
            r.current_status == current_status,
            r.activity == activity,
            r.reminder == reminder,
            r.observed_at == observed_at,
    {
        DiscordStatusChangedEvent {
            source: "discord.status",
            user_id,
            guild_id,
            previous_status,
            current_status,
            activity,
            reminder,
            observed_at,
        }
    }
}

/// The RFC 3339 rendering of a Unix timestamp. Its value is fixed by the
/// chrono library; the library states nothing about it beyond determinism.
pub uninterp spec fn rfc3339_chars(epoch_seconds: i64) -> Seq<char>;

/// Relies on chrono's `DateTime::from_timestamp` (defined for the accepted
/// timestamp range) and `DateTime::<Utc>::to_rfc3339`: the rendering depends
/// on the timestamp alone.
#[verifier::external_body]
pub(crate) fn format_rfc3339(epoch_seconds: i64) -> (r: String)
    requires
        valid_timestamp(epoch_seconds),
    ensures
        r@ == rfc3339_chars(epoch_seconds),
{
    match chrono::DateTime::from_timestamp(epoch_seconds, 0) {
        Some(dt) => dt.to_rfc3339(),
        None => String::new(),
    }
}

/// The rendering of an elapsed duration: hours, minutes and seconds, with
/// leading zero components omitted.
pub open spec fn elapsed_chars(seconds: nat) -> Seq<char> {
    let hours = seconds / 3600;
    let minutes = (seconds % 3600) / 60;
    let secs = seconds % 60;
    if hours > 0 {
        dec_chars(hours) + "h "@ + dec_chars(minutes) + "m "@ + dec_chars(secs) + "s"@
    } else if minutes > 0 {
        dec_chars(minutes) + "m "@ + dec_chars(secs) + "s"@
    } else {
        dec_chars(secs) + "s"@
    }
}

/// Renders an elapsed duration as text.
pub fn format_elapsed(seconds: u64) -> (r: String)
    ensures
        r@ == elapsed_chars(seconds as nat),
{
    let hours = seconds / 3600;
    let minutes = (seconds % 3600) / 60;
    let secs = seconds % 60;
    let mut v: Vec<char> = Vec::new();
    if hours > 0 {
        push_u64(&mut v, hours);
        push_chars(&mut v, "h ");
        push_u64(&mut v, minutes);
        push_chars(&mut v, "m ");
        push_u64(&mut v, secs);
        push_chars(&mut v, "s");
    } else if minutes > 0 {
        push_u64(&mut v, minutes);
        push_chars(&mut v, "m ");
        push_u64(&mut v, secs);
        push_chars(&mut v, "s");
    } else {
        push_u64(&mut v, secs);
        push_chars(&mut v, "s");
    }
    chars_to_string(&v)
}

/// The base text of a reminder event.
pub open spec fn reminder_text_spec(e: DiscordStatusChangedEvent, r: ReminderContext) -> Seq<
    char,
> {
    "Discord status reminder: user "@ + dec_chars(e.user_id as nat) + guild_part_spec(e.guild_id)
        + " is still "@ + status_label_spec(e.current_status) + ". Elapsed: "@ + elapsed_chars(
        r.elapsed_seconds as nat,
    ) + " (reminder #"@ + dec_chars(r.sequence as nat) + ") at "@ + rfc3339_chars(e.observed_at)
}

/// The guild infix of an event's text: the guild id when one is set.
pub open spec fn guild_part_spec(g: Option<u64>) -> Seq<char> {
    match g {
        Option::Some(g) => " in guild "@ + dec_chars(g as nat),
        Option::None => Seq::<char>::empty(),
    }
}

/// The base text of an activity-change event (status repeated, activity
/// present).
pub open spec fn activity_text_spec(e: DiscordStatusChangedEvent) -> Seq<char> {
    "Discord activity changed: user "@ + dec_chars(e.user_id as nat) + guild_part_spec(e.guild_id)
        + " (status "@ + status_label_spec(e.current_status) + ") at "@ + rfc3339_chars(
        e.observed_at,
    )
}

/// The label of the previous status; "unknown" when none was recorded.
pub open spec fn previous_label_spec(p: Option<DiscordStatus>) -> Seq<char> {
    match p {
        Option::Some(s) => status_label_spec(s),
        Option::None => "unknown"@,
    }
}

/// The base text of a status-transition event.
pub open spec fn transition_text_spec(e: DiscordStatusChangedEvent) -> Seq<char> {
    "Discord status changed: user "@ + dec_chars(e.user_id as nat) + guild_part_spec(e.guild_id)
        + " from "@ + previous_label_spec(e.previous_status) + " to "@ + status_label_spec(
        e.current_status,
    ) + " at "@ + rfc3339_chars(e.observed_at)
}

/// The base text of any event: reminder text for reminder events, the
/// activity-change form when the status repeats with an activity attached,
/// and the status-transition form otherwise.
pub open spec fn base_text_spec(e: DiscordStatusChangedEvent) -> Seq<char> {
    match e.reminder {
        Option::Some(r) => reminder_text_spec(e, r),
        Option::None => {
            if e.previous_status == Option::Some(e.current_status) && e.activity is Some {
                activity_text_spec(e)
            } else {
                transition_text_spec(e)
            }
        },
    }
}

impl DiscordStatusChangedEvent {
    /// Renders the event's base text.
    pub fn to_base_text(&self) -> (r: String)
        requires
            valid_timestamp(self.observed_at),
        ensures
            r@ == base_text_spec(*self),
    {
        let mut v: Vec<char> = Vec::new();
        let stamp = format_rfc3339(self.observed_at);
        if let Option::Some(rem) = &self.reminder {
            push_chars(&mut v, "Discord status reminder: user ");
            push_u64(&mut v, self.user_id);
            if let Option::Some(g) = self.guild_id {
                push_chars(&mut v, " in guild ");
                push_u64(&mut v, g);
            }
            push_chars(&mut v, " is still ");
            push_chars(&mut v, self.current_status.label());
            push_chars(&mut v, ". Elapsed: ");
            let elapsed = format_elapsed(rem.elapsed_seconds);
            push_chars(&mut v, elapsed.as_str());
            push_chars(&mut v, " (reminder #");
            push_u64(&mut v, rem.sequence);
            push_chars(&mut v, ") at ");
            push_chars(&mut v, stamp.as_str());
            proof {
                assert(v@ =~= reminder_text_spec(*self, *rem));
            }
            return chars_to_string(&v);
        }
        let same_status = match self.previous_status {
            Option::Some(p) => p == self.current_status,
            Option::None => false,
        };
        if same_status && self.activity.is_some() {
            push_chars(&mut v, "Discord activity changed: user ");
            push_u64(&mut v, self.user_id);
            if let Option::Some(g) = self.guild_id {
                push_chars(&mut v, " in guild ");
                push_u64(&mut v, g);
            }
            push_chars(&mut v, " (status ");
            push_chars(&mut v, self.current_status.label());
            push_chars(&mut v, ") at ");
            push_chars(&mut v, stamp.as_str());
            proof {
                assert(v@ =~= activity_text_spec(*self));
            }
            return chars_to_string(&v);
        }
        push_chars(&mut v, "Discord status changed: user ");
        push_u64(&mut v, self.user_id);
        if let Option::Some(g) = self.guild_id {
            push_chars(&mut v, " in guild ");
            push_u64(&mut v, g);
        }
        push_chars(&mut v, " from ");
        let old_label = match self.previous_status {
            Option::Some(p) => p.label(),
            Option::None => "unknown",
        };
        push_chars(&mut v, old_label);
        push_chars(&mut v, " to ");
        push_chars(&mut v, self.current_status.label());
        push_chars(&mut v, " at ");
        push_chars(&mut v, stamp.as_str());
        proof {
            assert(v@ =~= transition_text_spec(*self));
        }
        chars_to_string(&v)
    }
}

} // verus!
