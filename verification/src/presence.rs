//! The plain-value model of an upstream presence observation: raw statuses,
//! activity descriptors, primary-activity selection, the activity
//! fingerprint, and the derived keys.

use vstd::prelude::*;
use vstd::string::StrSliceExecFns;
use crate::event::{DiscordActivityContext, DiscordStatus, status_label_spec};
use crate::strutil::{chars_to_string, push_chars, str_chars};
use crate::textnum::{dec_chars, digits_end, parse_u64_at, parsed_nat, push_u64};

verus! {

/// A raw upstream status, as the feed reports it.
#[derive(Clone, Copy, Debug, PartialEq, Eq, Structural)]
pub enum RawStatus {
    Online,
    Idle,
    DoNotDisturb,
    Offline,
    Invisible,
    Other,
}

/// The normalized status of a raw one; unrecognized values map to unknown.
pub open spec fn normalize_status_spec(s: RawStatus) -> DiscordStatus {
    match s {
        RawStatus::Online => DiscordStatus::Online,
        RawStatus::Idle => DiscordStatus::Idle,
        RawStatus::DoNotDisturb => DiscordStatus::Dnd,
        RawStatus::Offline => DiscordStatus::Offline,
        RawStatus::Invisible => DiscordStatus::Invisible,
        RawStatus::Other => DiscordStatus::Unknown,
    }
}

/// Normalizes a raw upstream status.
pub fn normalize_status(status: RawStatus) -> (r: DiscordStatus)
    ensures
        r == normalize_status_spec(status),
{
    match status {
        RawStatus::Online => DiscordStatus::Online,
        RawStatus::Idle => DiscordStatus::Idle,
        RawStatus::DoNotDisturb => DiscordStatus::Dnd,
        RawStatus::Offline => DiscordStatus::Offline,
        RawStatus::Invisible => DiscordStatus::Invisible,
        RawStatus::Other => DiscordStatus::Unknown,
    }
}

/// The kind of an upstream activity.
#[derive(Clone, Copy, Debug, PartialEq, Eq, Structural)]
pub enum ActivityKind {
    Playing,
    Streaming,
    Listening,
    Watching,
    Custom,
    Competing,
    Other,
}

/// A plain-value view of one upstream activity descriptor.
#[derive(Clone, Debug)]
pub struct ActivityInput {
    pub kind: ActivityKind,
    pub name: String,
    pub details: Option<String>,
    pub state: Option<String>,
    pub application_id: Option<u64>,
    pub large_image: Option<String>,
    pub small_image: Option<String>,
}

/// Whether an activity is of the preferred primary kind.
pub open spec fn is_playing(a: ActivityInput) -> bool {
    a.kind == ActivityKind::Playing
}

/// Whether an activity is of one of the secondary preferred kinds.
pub open spec fn is_secondary(a: ActivityInput) -> bool {
    a.kind == ActivityKind::Streaming || a.kind == ActivityKind::Listening || a.kind
        == ActivityKind::Watching || a.kind == ActivityKind::Competing
}

/// The first index at or after `i` holding a playing activity, or the length.
pub open spec fn first_playing_from(s: Seq<ActivityInput>, i: int) -> int
    decreases s.len() - i,
{
    if i < 0 || i >= s.len() {
        s.len() as int
    } else if is_playing(s[i]) {
        i
    } else {
        first_playing_from(s, i + 1)
    }
}

/// The first index at or after `i` holding a secondary-kind activity, or the
/// length.
pub open spec fn first_secondary_from(s: Seq<ActivityInput>, i: int) -> int
    decreases s.len() - i,
{
    if i < 0 || i >= s.len() {
        s.len() as int
    } else if is_secondary(s[i]) {
        i
    } else {
        first_secondary_from(s, i + 1)
    }
}

/// The index of the primary activity: the first playing activity, else the
/// first of a secondary kind, else the first activity, else the length when
/// the list is empty.
pub open spec fn primary_index_spec(s: Seq<ActivityInput>) -> int {
    if first_playing_from(s, 0) < s.len() {
        first_playing_from(s, 0)
    } else if first_secondary_from(s, 0) < s.len() {
        first_secondary_from(s, 0)
    } else {
        0
    }
}

proof fn lemma_first_playing_run(s: Seq<ActivityInput>, lo: int, i: int)
    requires
        0 <= lo <= i <= s.len(),
        forall|j: int| lo <= j < i ==> !is_playing(s[j]),
        i == s.len() || is_playing(s[i]),
    ensures
        first_playing_from(s, lo) == i,
    decreases i - lo,
{
    if lo < i {
        lemma_first_playing_run(s, lo + 1, i);
    }
}

proof fn lemma_first_secondary_run(s: Seq<ActivityInput>, lo: int, i: int)
    requires
        0 <= lo <= i <= s.len(),
        forall|j: int| lo <= j < i ==> !is_secondary(s[j]),
        i == s.len() || is_secondary(s[i]),
    ensures
        first_secondary_from(s, lo) == i,
    decreases i - lo,
{
    if lo < i {
        lemma_first_secondary_run(s, lo + 1, i);
    }
}

/// Picks the index of the primary activity, if any activity is present.
pub fn pick_primary_activity(activities: &Vec<ActivityInput>) -> (r: Option<usize>)
    ensures
        activities@.len() == 0 ==> r is None,
        activities@.len() > 0 ==> (r matches Some(i) && i == primary_index_spec(activities@)
            && i < activities@.len()),
{
    let n = activities.len();
    if n == 0 {
        return None;
    }
    let mut i: usize = 0;
    while i < n
        invariant
            i <= n,
            n == activities@.len(),
            forall|j: int| 0 <= j < i ==> !is_playing(activities@[j]),
        decreases n - i,
    {
        if matches!(activities[i].kind, ActivityKind::Playing) {
            proof {
                lemma_first_playing_run(activities@, 0, i as int);
            }
            return Some(i);
        }
        i += 1;
    }
    proof {
        lemma_first_playing_run(activities@, 0, n as int);
    }
    let mut k: usize = 0;
    while k < n
        invariant
            k <= n,
            n == activities@.len(),
            forall|j: int| 0 <= j < k ==> !is_secondary(activities@[j]),
            first_playing_from(activities@, 0) == n,
        decreases n - k,
    {
        let sec = match activities[k].kind {
            ActivityKind::Streaming => true,
            ActivityKind::Listening => true,
            ActivityKind::Watching => true,
            ActivityKind::Competing => true,
            _ => false,
        };
        if sec {
            proof {
                lemma_first_secondary_run(activities@, 0, k as int);
            }
            return Some(k);
        }
        k += 1;
    }
    proof {
        lemma_first_secondary_run(activities@, 0, n as int);
    }
    Some(0)
}

/// The external-reference id parsed from an asset string of the form
/// `steam:<digits>`, when the digits fit the id type; anything else is
/// ignored.
pub open spec fn parse_steam_asset_spec(s: Seq<char>) -> Option<u32> {
    if s.len() > 6 && s.subrange(0, 6) == "steam:"@ && digits_end(s, 6) == s.len() && parsed_nat(
        s,
        6,
    ) <= u32::MAX {
        Some(parsed_nat(s, 6) as u32)
    } else {
        None
    }
}

/// Parses a `steam:<integer>` asset reference.
pub fn parse_steam_asset_app_id(raw: &str) -> (r: Option<u32>)
    ensures
        r == parse_steam_asset_spec(raw@),
{
    let v = str_chars(raw);
    proof {
        reveal_strlit("steam:");
    }
    if v.len() <= 6 {
        return None;
    }
    if !(v[0] == 's' && v[1] == 't' && v[2] == 'e' && v[3] == 'a' && v[4] == 'm' && v[5] == ':') {
        proof {
            let pre = raw@.subrange(0, 6);
            let lit = "steam:"@;
            assert(pre.len() == lit.len());
            assert(pre != lit) by {
                if pre == lit {
                    assert(pre[0] == 's' && pre[1] == 't' && pre[2] == 'e' && pre[3] == 'a'
                        && pre[4] == 'm' && pre[5] == ':');
                    assert(raw@[0] == pre[0] && raw@[1] == pre[1] && raw@[2] == pre[2] && raw@[3]
                        == pre[3] && raw@[4] == pre[4] && raw@[5] == pre[5]);
                }
            }
        }
        return None;
    }
    proof {
        assert(raw@.subrange(0, 6) =~= "steam:"@);
    }
    match parse_u64_at(&v, 6) {
        Option::Some((value, end)) => {
            if end == v.len() && value <= 0xFFFF_FFFF {
                Some(value as u32)
            } else {
                None
            }
        },
        Option::None => None,
    }
}

/// The external-reference id of an activity: parsed from its large image
/// asset, else from its small one.
pub open spec fn extract_steam_app_id_spec(a: ActivityInput) -> Option<u32> {
    let from_large = match a.large_image.deep_view() {
        Option::Some(s) => parse_steam_asset_spec(s),
        Option::None => None,
    };
    if from_large is Some {
        from_large
    } else {
        match a.small_image.deep_view() {
            Option::Some(s) => parse_steam_asset_spec(s),
            Option::None => None,
        }
    }
}

/// Extracts the external-reference id of an activity from its asset strings.
pub fn extract_steam_app_id(activity: &ActivityInput) -> (r: Option<u32>)
    ensures
        r == extract_steam_app_id_spec(*activity),
{
    if let Option::Some(large) = &activity.large_image {
        if let Option::Some(id) = parse_steam_asset_app_id(large.as_str()) {
            return Some(id);
        }
    }
    match &activity.small_image {
        Option::Some(small) => parse_steam_asset_app_id(small.as_str()),
        Option::None => None,
    }
}

/// The activity context derived from the primary activity of a list.
pub open spec fn extract_context_spec(s: Seq<ActivityInput>) -> Option<
    crate::event::ActivityContextV,
> {
    if s.len() == 0 {
        None
    } else {
        let a = s[primary_index_spec(s)];
        Some(
            crate::event::ActivityContextV {
                name: a.name@,
                details: a.details.deep_view(),
                state: a.state.deep_view(),
                steam_app_id: extract_steam_app_id_spec(a),
            },
        )
    }
}

fn clone_opt_string(o: &Option<String>) -> (r: Option<String>)
    ensures
        r.deep_view() == o.deep_view(),
{
    match o {
        Option::Some(s) => Some(s.clone()),
        Option::None => None,
    }
}

/// Builds the display context of the primary activity, if one is present.
pub fn extract_activity_context(activities: &Vec<ActivityInput>) -> (r: Option<
    DiscordActivityContext,
>)
    ensures
        r.deep_view() == extract_context_spec(activities@),
{
    let idx = match pick_primary_activity(activities) {
        Option::Some(i) => i,
        Option::None => {
            return None;
        },
    };
    let a = &activities[idx];
    Some(
        DiscordActivityContext {
            name: a.name.clone(),
            details: clone_opt_string(&a.details),
            state: clone_opt_string(&a.state),
            steam_app_id: extract_steam_app_id(a),
        },
    )
}

/// The key under which a tracked identity's status is persisted: the
/// identity id and the group scope, with a wildcard marker when the scope is
/// unconstrained.
pub open spec fn status_cache_key_spec(user_id: u64, guild_id: Option<u64>) -> Seq<char> {
    match guild_id {
        Option::Some(g) => "discord:"@ + dec_chars(user_id as nat) + ":"@ + dec_chars(g as nat),
        Option::None => "discord:"@ + dec_chars(user_id as nat) + ":"@ + "*"@,
    }
}

/// Renders the persistence key of a tracked identity.
pub fn make_status_cache_key(user_id: u64, guild_id: Option<u64>) -> (r: String)
    ensures
        r@ == status_cache_key_spec(user_id, guild_id),
{
    let mut v: Vec<char> = Vec::new();
    push_chars(&mut v, "discord:");
    push_u64(&mut v, user_id);
    push_chars(&mut v, ":");
    match guild_id {
        Option::Some(g) => push_u64(&mut v, g),
        Option::None => push_chars(&mut v, "*"),
    }
    proof {
        assert(v@ =~= status_cache_key_spec(user_id, guild_id));
    }
    chars_to_string(&v)
}

/// Whether an observation belongs to the tracked identity and scope.
pub fn is_target_presence(
    observed_user_id: u64,
    observed_guild_id: Option<u64>,
    target_user_id: u64,
    target_guild_id: Option<u64>,
) -> (r: bool)
    ensures
        r == (observed_user_id == target_user_id && (target_guild_id matches Some(g) ==>
        observed_guild_id == Some(g))),
{
    if observed_user_id != target_user_id {
        return false;
    }
    match target_guild_id {
        Option::Some(g) => observed_guild_id == Some(g),
        Option::None => true,
    }
}

/// The label of an activity kind, as it appears in fingerprints and
/// summaries.
pub open spec fn kind_label_spec(k: ActivityKind) -> Seq<char> {
    match k {
        ActivityKind::Playing => "Playing"@,
        ActivityKind::Streaming => "Streaming"@,
        ActivityKind::Listening => "Listening"@,
        ActivityKind::Watching => "Watching"@,
        ActivityKind::Custom => "Custom"@,
        ActivityKind::Competing => "Competing"@,
        ActivityKind::Other => "Other"@,
    }
}

/// The kind label as text.
pub fn kind_label(k: ActivityKind) -> (r: &'static str)
    ensures
        r@ == kind_label_spec(k),
{
    match k {
        ActivityKind::Playing => "Playing",
        ActivityKind::Streaming => "Streaming",
        ActivityKind::Listening => "Listening",
        ActivityKind::Watching => "Watching",
        ActivityKind::Custom => "Custom",
        ActivityKind::Competing => "Competing",
        ActivityKind::Other => "Other",
    }
}

/// The rendering of an optional text field inside a fingerprint or summary.
pub open spec fn opt_text_spec(o: Option<Seq<char>>) -> Seq<char> {
    match o {
        Option::Some(t) => "Some("@ + t + ")"@,
        Option::None => "None"@,
    }
}

fn push_opt_text(v: &mut Vec<char>, o: &Option<String>)
    ensures
        final(v)@ == old(v)@ + opt_text_spec(o.deep_view()),
{
    match o {
        Option::Some(t) => {
            push_chars(v, "Some(");
            push_chars(v, t.as_str());
            push_chars(v, ")");
        },
        Option::None => push_chars(v, "None"),
    }
    proof {
        assert(v@ =~= old(v)@ + opt_text_spec(o.deep_view()));
    }
}

/// The rendering of an optional numeric field inside a fingerprint or
/// summary.
pub open spec fn opt_num_spec(o: Option<u64>) -> Seq<char> {
    match o {
        Option::Some(n) => "Some("@ + dec_chars(n as nat) + ")"@,
        Option::None => "None"@,
    }
}

fn push_opt_num(v: &mut Vec<char>, o: Option<u64>)
    ensures
        final(v)@ == old(v)@ + opt_num_spec(o),
{
    match o {
        Option::Some(n) => {
            push_chars(v, "Some(");
            push_u64(v, n);
            push_chars(v, ")");
        },
        Option::None => push_chars(v, "None"),
    }
    proof {
        assert(v@ =~= old(v)@ + opt_num_spec(o));
    }
}

/// The rendering of an optional image asset: the asset string, or a dash.
pub open spec fn image_or_dash_spec(o: Option<Seq<char>>) -> Seq<char> {
    match o {
        Option::Some(t) => t,
        Option::None => "-"@,
    }
}

fn push_image_or_dash(v: &mut Vec<char>, o: &Option<String>)
    ensures
        final(v)@ == old(v)@ + image_or_dash_spec(o.deep_view()),
{
    match o {
        Option::Some(t) => push_chars(v, t.as_str()),
        Option::None => push_chars(v, "-"),
    }
}

/// The fingerprint part of a single activity: every observable field,
/// separated by bars.
pub open spec fn fingerprint_part_spec(a: ActivityInput) -> Seq<char> {
    kind_label_spec(a.kind) + "|"@ + a.name@ + "|"@ + opt_text_spec(a.details.deep_view()) + "|"@
        + opt_text_spec(a.state.deep_view()) + "|"@ + opt_num_spec(a.application_id) + "|"@
        + image_or_dash_spec(a.large_image.deep_view()) + "|"@ + image_or_dash_spec(
        a.small_image.deep_view(),
    )
}

fn push_fingerprint_part(v: &mut Vec<char>, a: &ActivityInput)
    ensures
        final(v)@ == old(v)@ + fingerprint_part_spec(*a),
{
    push_chars(v, kind_label(a.kind));
    push_chars(v, "|");
    push_chars(v, a.name.as_str());
    push_chars(v, "|");
    push_opt_text(v, &a.details);
    push_chars(v, "|");
    push_opt_text(v, &a.state);
    push_chars(v, "|");
    push_opt_num(v, a.application_id);
    push_chars(v, "|");
    push_image_or_dash(v, &a.large_image);
    push_chars(v, "|");
    push_image_or_dash(v, &a.small_image);
    proof {
        assert(v@ =~= old(v)@ + fingerprint_part_spec(*a));
    }
}

/// The deterministic fingerprint of a full activity list: the parts of all
/// activities joined by a double bar; empty exactly when the list is empty.
pub open spec fn fingerprint_spec(s: Seq<ActivityInput>) -> Seq<char>
    decreases s.len(),
{
    if s.len() == 0 {
        Seq::<char>::empty()
    } else if s.len() == 1 {
        fingerprint_part_spec(s[0])
    } else {
        fingerprint_spec(s.drop_last()) + "||"@ + fingerprint_part_spec(s.last())
    }
}

/// Renders the activity fingerprint of a full activity list.
pub fn build_activity_fingerprint(activities: &Vec<ActivityInput>) -> (r: String)
    ensures
        r@ == fingerprint_spec(activities@),
{
    let n = activities.len();
    let mut v: Vec<char> = Vec::new();
    let mut i: usize = 0;
    while i < n
        invariant
            i <= n,
            n == activities@.len(),
            v@ == fingerprint_spec(activities@.subrange(0, i as int)),
        decreases n - i,
    {
        if i > 0 {
            push_chars(&mut v, "||");
        }
        push_fingerprint_part(&mut v, &activities[i]);
        i += 1;
        proof {
            let pre = activities@.subrange(0, i as int);
            assert(pre.drop_last() =~= activities@.subrange(0, i - 1));
            assert(pre.last() == activities@[i - 1]);
            assert(v@ =~= fingerprint_spec(pre));
        }
    }
    proof {
        assert(activities@.subrange(0, n as int) =~= activities@);
    }
    chars_to_string(&v)
}

/// The summary item of a single activity, for diagnostics.
pub open spec fn summary_item_spec(a: ActivityInput) -> Seq<char> {
    "{kind="@ + kind_label_spec(a.kind) + ",name="@ + a.name@ + ",details="@ + opt_text_spec(
        a.details.deep_view(),
    ) + ",state="@ + opt_text_spec(a.state.deep_view()) + ",app_id="@ + opt_num_spec(
        a.application_id,
    ) + ",large_image="@ + image_or_dash_spec(a.large_image.deep_view()) + ",small_image="@
        + image_or_dash_spec(a.small_image.deep_view()) + "}"@
}

#[verifier::rlimit(60)]
fn push_summary_item(v: &mut Vec<char>, a: &ActivityInput)
    ensures
        final(v)@ == old(v)@ + summary_item_spec(*a),
{
    push_chars(v, "{kind=");
    push_chars(v, kind_label(a.kind));
    push_chars(v, ",name=");
    push_chars(v, a.name.as_str());
    push_chars(v, ",details=");
    push_opt_text(v, &a.details);
    push_chars(v, ",state=");
    push_opt_text(v, &a.state);
    push_chars(v, ",app_id=");
    push_opt_num(v, a.application_id);
    push_chars(v, ",large_image=");
    push_image_or_dash(v, &a.large_image);
    push_chars(v, ",small_image=");
    push_image_or_dash(v, &a.small_image);
    push_chars(v, "}");
    proof {
        assert(v@ =~= old(v)@ + summary_item_spec(*a));
    }
}

/// The first `n` summary items joined by commas; `n` is at least one.
pub open spec fn summary_join_spec(s: Seq<ActivityInput>, n: int) -> Seq<char>
    decreases n,
{
    if n <= 1 {
        summary_item_spec(s[0])
    } else {
        summary_join_spec(s, n - 1) + ", "@ + summary_item_spec(s[n - 1])
    }
}

/// The diagnostic summary of an activity list: at most five items in
/// brackets, with a count of what was left out.
pub open spec fn summarize_spec(s: Seq<ActivityInput>) -> Seq<char> {
    if s.len() == 0 {
        "[]"@
    } else if s.len() > 5 {
        "["@ + summary_join_spec(s, 5) + " ... +"@ + dec_chars((s.len() - 5) as nat) + " more]"@
    } else {
        "["@ + summary_join_spec(s, s.len() as int) + "]"@
    }
}

/// Renders the diagnostic summary of an activity list.
pub fn summarize_activities(activities: &Vec<ActivityInput>) -> (r: String)
    ensures
        r@ == summarize_spec(activities@),
{
    let n = activities.len();
    if n == 0 {
        let s: &str = "[]";
        return s.to_owned();
    }
    let shown: usize = if n > 5 {
        5
    } else {
        n
    };
    let mut v: Vec<char> = Vec::new();
    push_chars(&mut v, "[");
    let mut i: usize = 0;
    while i < shown
        invariant
            i <= shown,
            1 <= shown <= n,
            n == activities@.len(),
            shown == if n > 5 {
                5int
            } else {
                n as int
            },
            i == 0 ==> v@ == "["@,
            i > 0 ==> v@ == "["@ + summary_join_spec(activities@, i as int),
        decreases shown - i,
    {
        if i > 0 {
            push_chars(&mut v, ", ");
        }
        push_summary_item(&mut v, &activities[i]);
        i += 1;
        proof {
            assert(v@ =~= "["@ + summary_join_spec(activities@, i as int));
        }
    }
    if n > 5 {
        push_chars(&mut v, " ... +");
        push_u64(&mut v, (n - 5) as u64);
        push_chars(&mut v, " more]");
        proof {
            assert(v@ =~= summarize_spec(activities@));
        }
    } else {
        push_chars(&mut v, "]");
        proof {
            assert(v@ =~= summarize_spec(activities@));
        }
    }
    chars_to_string(&v)
}

} // verus!
