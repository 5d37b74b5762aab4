//! Rendering of outbound payloads: the wake sink's text body and JSON
//! payload, and the generic JSON serialization of a notification event.

use vstd::prelude::*;
use crate::event::{
    DiscordStatusChangedEvent,
    base_text_spec,
    format_rfc3339,
    rfc3339_chars,
    status_label_spec,
    valid_timestamp,
};
use crate::jsontext::{escape_str, push_escaped};
use crate::strutil::{chars_to_string, push_chars, trim_spec, trimmed};
use crate::textnum::{dec_chars, push_u64};
use vstd::string::StrSliceExecFns;

verus! {

/// The activity section of a message: the activity name, and its detail and
/// state lines when they hold non-blank text.
pub open spec fn activity_section_spec(a: crate::event::ActivityContextV) -> Seq<char> {
    let details_part = match a.details {
        Option::Some(d) => if trim_spec(d).len() > 0 {
            "\nDetails: "@ + d
        } else {
            Seq::<char>::empty()
        },
        Option::None => Seq::<char>::empty(),
    };
    let state_part = match a.state {
        Option::Some(s) => if trim_spec(s).len() > 0 {
            "\nState: "@ + s
        } else {
            Seq::<char>::empty()
        },
        Option::None => Seq::<char>::empty(),
    };
    "Activity: "@ + a.name + details_part + state_part
}

/// Renders the activity section of an event, when it carries an activity.
pub fn build_activity_section(event: &DiscordStatusChangedEvent) -> (r: Option<String>)
    ensures
        match event.activity.deep_view() {
            Option::Some(a) => (r matches Some(t) && t@ == activity_section_spec(a)),
            Option::None => r is None,
        },
{
    let activity = match &event.activity {
        Option::Some(a) => a,
        Option::None => {
            return None;
        },
    };
    let mut v: Vec<char> = Vec::new();
    push_chars(&mut v, "Activity: ");
    push_chars(&mut v, activity.name.as_str());
    if let Option::Some(details) = &activity.details {
        if trimmed(details.as_str()).unicode_len() > 0 {
            push_chars(&mut v, "\nDetails: ");
            push_chars(&mut v, details.as_str());
        }
    }
    if let Option::Some(state) = &activity.state {
        if trimmed(state.as_str()).unicode_len() > 0 {
            push_chars(&mut v, "\nState: ");
            push_chars(&mut v, state.as_str());
        }
    }
    proof {
        assert(v@ =~= activity_section_spec(event.activity.deep_view()->Some_0));
    }
    Some(chars_to_string(&v))
}

/// The game section of a message: the looked-up name, description and
/// player count when the lookup succeeded, and the activity's own name
/// otherwise.
pub open spec fn steam_section_spec(
    fallback_name: Seq<char>,
    app_id: u32,
    outcome: Option<crate::steam::SteamGameDetailsV>,
) -> Seq<char> {
    match outcome {
        Option::Some(game) => {
            let desc_part = match game.short_description {
                Option::Some(d) => "\n\u{7b80}\u{4ecb}: "@ + d,
                Option::None => Seq::<char>::empty(),
            };
            let players_part = match game.current_players {
                Option::Some(n) => "\n\u{5f53}\u{524d}\u{5728}\u{7ebf}\u{4eba}\u{6570}: "@
                    + dec_chars(n as nat),
                Option::None => Seq::<char>::empty(),
            };
            "Steam game: "@ + game.name + " (app_id="@ + dec_chars(game.app_id as nat) + ")"@
                + desc_part + players_part
        },
        Option::None => "Steam game: "@ + fallback_name + " (app_id="@ + dec_chars(app_id as nat)
            + ")"@,
    }
}

/// Renders the game section from the activity's name, its
/// external-reference id, and the outcome of the lookup.
pub fn steam_section_text(
    fallback_name: &str,
    app_id: u32,
    outcome: Option<&crate::steam::SteamGameDetails>,
) -> (r: String)
    ensures
        r@ == steam_section_spec(fallback_name@, app_id, outcome.deep_view()),
{
    let mut v: Vec<char> = Vec::new();
    match outcome {
        Option::Some(game) => {
            push_chars(&mut v, "Steam game: ");
            push_chars(&mut v, game.name.as_str());
            push_chars(&mut v, " (app_id=");
            push_u64(&mut v, game.app_id as u64);
            push_chars(&mut v, ")");
            if let Option::Some(desc) = &game.short_description {
                push_chars(&mut v, "\n\u{7b80}\u{4ecb}: ");
                push_chars(&mut v, desc.as_str());
            }
            if let Option::Some(n) = game.current_players {
                push_chars(&mut v, "\n\u{5f53}\u{524d}\u{5728}\u{7ebf}\u{4eba}\u{6570}: ");
                push_u64(&mut v, n as u64);
            }
        },
        Option::None => {
            push_chars(&mut v, "Steam game: ");
            push_chars(&mut v, fallback_name);
            push_chars(&mut v, " (app_id=");
            push_u64(&mut v, app_id as u64);
            push_chars(&mut v, ")");
        },
    }
    proof {
        assert(v@ =~= steam_section_spec(fallback_name@, app_id, outcome.deep_view()));
    }
    chars_to_string(&v)
}

/// The external-reference id an event's activity carries, if any: the id a
/// game lookup would be made for.
pub fn wake_steam_app_id(event: &DiscordStatusChangedEvent) -> (r: Option<u32>)
    ensures
        r == match event.activity.deep_view() {
            Option::Some(a) => a.steam_app_id,
            Option::None => None::<u32>,
        },
{
    match &event.activity {
        Option::Some(a) => a.steam_app_id,
        Option::None => None,
    }
}

/// An optional leading line followed by a break, or nothing.
pub open spec fn opt_line_spec(o: Option<Seq<char>>) -> Seq<char> {
    match o {
        Option::Some(t) => t + "\n"@,
        Option::None => Seq::<char>::empty(),
    }
}

/// The wake sink's text body: the configured prefix, the event's base text,
/// the activity and game sections when present, and the configured suffix,
/// joined by line breaks.
pub open spec fn wake_text_spec(
    prefix: Option<Seq<char>>,
    event: DiscordStatusChangedEvent,
    steam_line: Option<Seq<char>>,
    suffix: Option<Seq<char>>,
) -> Seq<char> {
    let activity_part = match event.activity.deep_view() {
        Option::Some(a) => Some(activity_section_spec(a)),
        Option::None => None::<Seq<char>>,
    };
    opt_line_spec(prefix) + base_text_spec(event) + (match activity_part {
        Option::Some(t) => "\n"@ + t,
        Option::None => Seq::<char>::empty(),
    }) + (match steam_line {
        Option::Some(t) => "\n"@ + t,
        Option::None => Seq::<char>::empty(),
    }) + (match suffix {
        Option::Some(t) => "\n"@ + t,
        Option::None => Seq::<char>::empty(),
    })
}

/// Assembles the wake sink's text body. The game section, whose lookup only
/// the caller can perform, is handed in ready-made.
pub fn build_text(
    prefix: &Option<String>,
    event: &DiscordStatusChangedEvent,
    steam_line: &Option<String>,
    suffix: &Option<String>,
) -> (r: String)
    requires
        valid_timestamp(event.observed_at),
    ensures
        r@ == wake_text_spec(
            prefix.deep_view(),
            *event,
            steam_line.deep_view(),
            suffix.deep_view(),
        ),
{
    let mut v: Vec<char> = Vec::new();
    if let Option::Some(p) = prefix {
        push_chars(&mut v, p.as_str());
        push_chars(&mut v, "\n");
    }
    let base = event.to_base_text();
    push_chars(&mut v, base.as_str());
    if let Option::Some(section) = build_activity_section(event) {
        push_chars(&mut v, "\n");
        push_chars(&mut v, section.as_str());
    }
    if let Option::Some(line) = steam_line {
        push_chars(&mut v, "\n");
        push_chars(&mut v, line.as_str());
    }
    if let Option::Some(s) = suffix {
        push_chars(&mut v, "\n");
        push_chars(&mut v, s.as_str());
    }
    proof {
        assert(v@ =~= wake_text_spec(
            prefix.deep_view(),
            *event,
            steam_line.deep_view(),
            suffix.deep_view(),
        ));
    }
    chars_to_string(&v)
}

/// The wake sink's JSON payload: the text body and the wake mode.
pub open spec fn wake_payload_spec(text: Seq<char>, mode: Seq<char>) -> Seq<char> {
    "{\"text\":\""@ + escape_str(text) + "\",\"mode\":\""@ + escape_str(mode) + "\"}"@
}

/// Renders the wake sink's JSON payload.
pub fn render_wake_payload(text: &str, mode: &str) -> (r: String)
    ensures
        r@ == wake_payload_spec(text@, mode@),
{
    let mut v: Vec<char> = Vec::new();
    push_chars(&mut v, "{\"text\":\"");
    push_escaped(&mut v, text);
    push_chars(&mut v, "\",\"mode\":\"");
    push_escaped(&mut v, mode);
    push_chars(&mut v, "\"}");
    proof {
        assert(v@ =~= wake_payload_spec(text@, mode@));
    }
    chars_to_string(&v)
}

/// The generic JSON serialization of an activity context; absent fields are
/// omitted.
pub open spec fn activity_json_spec(a: crate::event::ActivityContextV) -> Seq<char> {
    "{\"name\":\""@ + escape_str(a.name) + "\""@ + (match a.details {
        Option::Some(d) => ",\"details\":\""@ + escape_str(d) + "\""@,
        Option::None => Seq::<char>::empty(),
    }) + (match a.state {
        Option::Some(s) => ",\"state\":\""@ + escape_str(s) + "\""@,
        Option::None => Seq::<char>::empty(),
    }) + (match a.steam_app_id {
        Option::Some(n) => ",\"steam_app_id\":"@ + dec_chars(n as nat),
        Option::None => Seq::<char>::empty(),
    }) + "}"@
}

/// The generic JSON serialization of a notification event; absent fields
/// are omitted, and the observation instant is rendered as a calendar
/// timestamp.
pub open spec fn event_json_spec(e: DiscordStatusChangedEvent) -> Seq<char> {
    "{\"source\":\""@ + escape_str(e.source@) + "\",\"user_id\":"@ + dec_chars(e.user_id as nat)
        + (match e.guild_id {
        Option::Some(g) => ",\"guild_id\":"@ + dec_chars(g as nat),
        Option::None => Seq::<char>::empty(),
    }) + (match e.previous_status {
        Option::Some(p) => ",\"previous_status\":\""@ + status_label_spec(p) + "\""@,
        Option::None => Seq::<char>::empty(),
    }) + ",\"current_status\":\""@ + status_label_spec(e.current_status) + "\""@ + (
    match e.activity.deep_view() {
        Option::Some(a) => ",\"activity\":"@ + activity_json_spec(a),
        Option::None => Seq::<char>::empty(),
    }) + (match e.reminder {
        Option::Some(rc) => ",\"reminder\":{\"elapsed_seconds\":"@ + dec_chars(
            rc.elapsed_seconds as nat,
        ) + ",\"interval_seconds\":"@ + dec_chars(rc.interval_seconds as nat) + ",\"sequence\":"@
            + dec_chars(rc.sequence as nat) + "}"@,
        Option::None => Seq::<char>::empty(),
    }) + ",\"observed_at\":\""@ + escape_str(rfc3339_chars(e.observed_at)) + "\"}"@
}

/// Renders the generic JSON payload of an event.
#[verifier::rlimit(100)]
fn push_activity_json(v: &mut Vec<char>, a: &crate::event::DiscordActivityContext)
    ensures
        final(v)@ == old(v)@ + activity_json_spec(a@),
{
    push_chars(v, "{\"name\":\"");
    push_escaped(v, a.name.as_str());
    push_chars(v, "\"");
    if let Option::Some(d) = &a.details {
        push_chars(v, ",\"details\":\"");
        push_escaped(v, d.as_str());
        push_chars(v, "\"");
    }
    if let Option::Some(st) = &a.state {
        push_chars(v, ",\"state\":\"");
        push_escaped(v, st.as_str());
        push_chars(v, "\"");
    }
    if let Option::Some(n) = a.steam_app_id {
        push_chars(v, ",\"steam_app_id\":");
        push_u64(v, n as u64);
    }
    push_chars(v, "}");
    proof {
        assert(v@ =~= old(v)@ + activity_json_spec(a@));
    }
}

#[verifier::rlimit(100)]
pub fn render_event_json(event: &DiscordStatusChangedEvent) -> (r: String)
    requires
        valid_timestamp(event.observed_at),
    ensures
        r@ == event_json_spec(*event),
{
    let ghost e = *event;
    let ghost s1 = "{\"source\":\""@ + escape_str(e.source@) + "\",\"user_id\":"@ + dec_chars(
        e.user_id as nat,
    );
    let ghost s2 = s1 + (match e.guild_id {
        Option::Some(g) => ",\"guild_id\":"@ + dec_chars(g as nat),
        Option::None => Seq::<char>::empty(),
    });
    let ghost s3 = s2 + (match e.previous_status {
        Option::Some(p) => ",\"previous_status\":\""@ + status_label_spec(p) + "\""@,
        Option::None => Seq::<char>::empty(),
    });
    let ghost s4 = s3 + ",\"current_status\":\""@ + status_label_spec(e.current_status) + "\""@;
    let ghost s5 = s4 + (match e.activity.deep_view() {
        Option::Some(a) => ",\"activity\":"@ + activity_json_spec(a),
        Option::None => Seq::<char>::empty(),
    });
    let ghost s6 = s5 + (match e.reminder {
        Option::Some(rc) => ",\"reminder\":{\"elapsed_seconds\":"@ + dec_chars(
            rc.elapsed_seconds as nat,
        ) + ",\"interval_seconds\":"@ + dec_chars(rc.interval_seconds as nat) + ",\"sequence\":"@
            + dec_chars(rc.sequence as nat) + "}"@,
        Option::None => Seq::<char>::empty(),
    });
    let mut v: Vec<char> = Vec::new();
    push_chars(&mut v, "{\"source\":\"");
    push_escaped(&mut v, event.source);
    push_chars(&mut v, "\",\"user_id\":");
    push_u64(&mut v, event.user_id);
    proof {
        assert(v@ =~= s1);
    }
    if let Option::Some(g) = event.guild_id {
        push_chars(&mut v, ",\"guild_id\":");
        push_u64(&mut v, g);
    }
    proof {
        assert(v@ =~= s2);
    }
    if let Option::Some(p) = event.previous_status {
        push_chars(&mut v, ",\"previous_status\":\"");
        push_chars(&mut v, p.label());
        push_chars(&mut v, "\"");
    }
    proof {
        assert(v@ =~= s3);
    }
    push_chars(&mut v, ",\"current_status\":\"");
    push_chars(&mut v, event.current_status.label());
    push_chars(&mut v, "\"");
    proof {
        assert(v@ =~= s4);
    }
    if let Option::Some(a) = &event.activity {
        push_chars(&mut v, ",\"activity\":");
        push_activity_json(&mut v, a);
    }
    proof {
        assert(v@ =~= s5);
    }
    if let Option::Some(rc) = &event.reminder {
        push_chars(&mut v, ",\"reminder\":{\"elapsed_seconds\":");
        push_u64(&mut v, rc.elapsed_seconds);
        push_chars(&mut v, ",\"interval_seconds\":");
        push_u64(&mut v, rc.interval_seconds);
        push_chars(&mut v, ",\"sequence\":");
        push_u64(&mut v, rc.sequence);
        push_chars(&mut v, "}");
    }
    proof {
        assert(v@ =~= s6);
    }
    push_chars(&mut v, ",\"observed_at\":\"");
    let stamp = format_rfc3339(event.observed_at);
    push_escaped(&mut v, stamp.as_str());
    push_chars(&mut v, "\"}");
    proof {
        assert(v@ =~= s6 + ",\"observed_at\":\""@ + escape_str(rfc3339_chars(e.observed_at))
            + "\"}"@);
        assert(event_json_spec(e) =~= s6 + ",\"observed_at\":\""@ + escape_str(
            rfc3339_chars(e.observed_at),
        ) + "\"}"@);
    }
    chars_to_string(&v)
}

} // verus!
