//! The external-lookup memoizer: game details cached across a bounded
//! in-memory TTL tier and the optional durable tier. The transport that
//! performs the actual lookup lives outside; this module decides hits,
//! expiry, eviction and backfill.

use vstd::prelude::*;
use crate::cache::CacheService;
use crate::jsontext::{escape_str, expect_lit, lit_at, parse_string_at, push_escaped, unescape_parse};
use crate::strutil::{chars_to_string, non_empty_trimmed, push_chars, str_chars, trim_spec, truncate_chars, ellipsis};
use crate::textnum::{dec_chars, digits_end, is_dec_digit, parse_u64_at, parsed_nat, push_u64};

verus! {

/// Details of one externally looked-up game.
#[derive(Clone, Debug)]
pub struct SteamGameDetails {
    pub app_id: u32,
    pub name: String,
    pub short_description: Option<String>,
    pub current_players: Option<u32>,
}

/// The mathematical view of game details.
pub ghost struct SteamGameDetailsV {
    pub app_id: u32,
    pub name: Seq<char>,
    pub short_description: Option<Seq<char>>,
    pub current_players: Option<u32>,
}

impl View for SteamGameDetails {
    type V = SteamGameDetailsV;

    open spec fn view(&self) -> SteamGameDetailsV {
        SteamGameDetailsV {
            app_id: self.app_id,
            name: self.name@,
            short_description: self.short_description.deep_view(),
            current_players: self.current_players,
        }
    }
}

impl DeepView for SteamGameDetails {
    type V = SteamGameDetailsV;

    open spec fn deep_view(&self) -> SteamGameDetailsV {
        self.view()
    }
}

fn clone_details(d: &SteamGameDetails) -> (r: SteamGameDetails)
    ensures
        r@ == d@,
{
    SteamGameDetails {
        app_id: d.app_id,
        name: d.name.clone(),
        short_description: match &d.short_description {
            Option::Some(s) => Some(s.clone()),
            Option::None => None,
        },
        current_players: d.current_players,
    }
}

/// The description stored for a game: nothing when trimming leaves nothing,
/// and otherwise the trimmed text cut to the configured length with an
/// ellipsis marker when it was longer.
pub open spec fn description_spec(raw: Seq<char>, max_chars: int) -> Option<Seq<char>> {
    let t = trim_spec(raw);
    if t.len() == 0 {
        None
    } else if t.len() <= max_chars {
        Some(t)
    } else {
        Some(t.subrange(0, max_chars) + ellipsis())
    }
}

/// Assembles game details from the plain values an external lookup
/// returned.
pub fn build_game_details(
    app_id: u32,
    name: String,
    short_description: &str,
    max_chars: usize,
    current_players: Option<u32>,
) -> (r: SteamGameDetails)
    ensures
        r.app_id == app_id,
        r.name@ == name@,
        r@.short_description == description_spec(short_description@, max_chars as int),
        r.current_players == current_players,
{
    let short = match non_empty_trimmed(short_description) {
        Option::Some(t) => Some(truncate_chars(t, max_chars)),
        Option::None => None,
    };
    SteamGameDetails { app_id, name, short_description: short, current_players }
}

/// One memory-tier entry: a value and its absolute expiry instant.
#[derive(Clone, Debug)]
pub struct MemoryCacheEntry {
    pub value: SteamGameDetails,
    pub expires_at: i64,
}

/// The bounded in-memory cache tier, keyed by game id.
#[derive(Clone, Debug)]
pub struct SteamMemoryCache {
    pub entries: Vec<(u32, MemoryCacheEntry)>,
    pub capacity: usize,
    pub ttl_seconds: u64,
}

/// The first index holding the given key, or the length when it is absent.
pub open spec fn mem_find_spec(m: Seq<(u32, MemoryCacheEntry)>, key: u32) -> int
    decreases m.len(),
{
    if m.len() == 0 {
        0
    } else if m[0].0 == key {
        0
    } else {
        1 + mem_find_spec(m.skip(1), key)
    }
}

pub proof fn lemma_mem_find_bounds(m: Seq<(u32, MemoryCacheEntry)>, key: u32)
    ensures
        0 <= mem_find_spec(m, key) <= m.len(),
        mem_find_spec(m, key) < m.len() ==> m[mem_find_spec(m, key)].0 == key,
        forall|j: int| 0 <= j < mem_find_spec(m, key) ==> (#[trigger] m[j]).0 != key,
    decreases m.len(),
{
    if m.len() > 0 && m[0].0 != key {
        lemma_mem_find_bounds(m.skip(1), key);
        assert forall|j: int| 0 <= j < mem_find_spec(m, key) implies (#[trigger] m[j]).0 != key by {
            if j > 0 {
                assert(m[j] == m.skip(1)[j - 1]);
            }
        }
    }
}

proof fn lemma_mem_find_at(m: Seq<(u32, MemoryCacheEntry)>, key: u32, i: int)
    requires
        0 <= i <= m.len(),
        forall|j: int| 0 <= j < i ==> (#[trigger] m[j]).0 != key,
        i == m.len() || m[i].0 == key,
    ensures
        mem_find_spec(m, key) == i,
    decreases i,
{
    if m.len() > 0 && i > 0 {
        lemma_mem_find_at(m.skip(1), key, i - 1);
    }
}

/// Whether the memory tier is well formed: no key occurs twice, the entry
/// count never exceeds the capacity, and the capacity is positive.
pub open spec fn mem_wf(m: SteamMemoryCache) -> bool {
    &&& forall|i: int, j: int|
        0 <= i < j < m.entries@.len() ==> (#[trigger] m.entries@[i]).0 != (
        #[trigger] m.entries@[j]).0
    &&& m.entries@.len() <= m.capacity
    &&& m.capacity > 0
    &&& m.ttl_seconds > 0
}

/// The number of live (non-expired) entries.
pub open spec fn live_count(m: Seq<(u32, MemoryCacheEntry)>, now: i64) -> nat
    decreases m.len(),
{
    if m.len() == 0 {
        0
    } else {
        live_count(m.drop_last(), now) + if m.last().1.expires_at > now {
            1nat
        } else {
            0nat
        }
    }
}

proof fn lemma_live_count_le_len(m: Seq<(u32, MemoryCacheEntry)>, now: i64)
    ensures
        live_count(m, now) <= m.len(),
    decreases m.len(),
{
    if m.len() > 0 {
        lemma_live_count_le_len(m.drop_last(), now);
    }
}

/// What a memory-tier read returns: the stored value when the key is
/// present and not expired; an expired entry counts as absent.
pub open spec fn mem_lookup_spec(m: Seq<(u32, MemoryCacheEntry)>, key: u32, now: i64) -> Option<
    SteamGameDetailsV,
> {
    let i = mem_find_spec(m, key);
    if i < m.len() && m[i].1.expires_at > now {
        Some(m[i].1.value@)
    } else {
        None
    }
}

/// Whether the cache holds an entry with exactly this key, value and
/// expiry.
pub open spec fn mem_entry_in(
    m: Seq<(u32, MemoryCacheEntry)>,
    key: u32,
    value: SteamGameDetailsV,
    expires_at: i64,
) -> bool {
    exists|a: int|
        0 <= a < m.len() && (#[trigger] m[a]).0 == key && m[a].1.value@ == value
            && m[a].1.expires_at == expires_at
}

/// The absolute expiry of a fresh memory-tier entry: now plus the
/// configured lifetime, saturating at the integer limit.
pub open spec fn mem_expiry_spec(now: i64, ttl_seconds: u64) -> i64 {
    if now + ttl_seconds <= i64::MAX {
        (now + ttl_seconds) as i64
    } else {
        i64::MAX
    }
}

fn mem_expiry(now: i64, ttl_seconds: u64) -> (r: i64)
    ensures
        r == mem_expiry_spec(now, ttl_seconds),
{
    let sum: i128 = now as i128 + ttl_seconds as i128;
    if sum > i64::MAX as i128 {
        i64::MAX
    } else {
        sum as i64
    }
}

impl SteamMemoryCache {
    /// An empty memory tier with the given capacity and entry lifetime.
    pub fn new(capacity: usize, ttl_seconds: u64) -> (r: Self)
        requires
            capacity > 0,
            ttl_seconds > 0,
        ensures
            mem_wf(r),
            r.entries@.len() == 0,
            r.capacity == capacity,
            r.ttl_seconds == ttl_seconds,
    {
        SteamMemoryCache { entries: Vec::new(), capacity, ttl_seconds }
    }

    fn find(&self, key: u32) -> (r: usize)
        ensures
            r == mem_find_spec(self.entries@, key),
            r <= self.entries@.len(),
    {
        let n = self.entries.len();
        let mut i: usize = 0;
        while i < n
            invariant
                i <= n,
                n == self.entries@.len(),
                forall|j: int| 0 <= j < i ==> (#[trigger] self.entries@[j]).0 != key,
            decreases n - i,
        {
            if self.entries[i].0 == key {
                proof {
                    lemma_mem_find_at(self.entries@, key, i as int);
                }
                return i;
            }
            i += 1;
        }
        proof {
            lemma_mem_find_at(self.entries@, key, n as int);
        }
        n
    }

    /// Reads a key: returns the stored value when it is present and live;
    /// lazily evicts the entry (and misses) when it has expired.
    pub fn get(&mut self, key: u32, now: i64) -> (r: Option<SteamGameDetails>)
        requires
            mem_wf(*old(self)),
        ensures
            mem_wf(*final(self)),
            final(self).capacity == old(self).capacity,
            final(self).ttl_seconds == old(self).ttl_seconds,
            r.deep_view() == mem_lookup_spec(old(self).entries@, key, now),
            final(self).entries@.len() <= old(self).entries@.len(),
            mem_lookup_spec(old(self).entries@, key, now) is Some ==> final(self).entries
                == old(self).entries,
    {
        let idx = self.find(key);
        proof {
            lemma_mem_find_bounds(self.entries@, key);
        }
        if idx >= self.entries.len() {
            return None;
        }
        if self.entries[idx].1.expires_at <= now {
            self.entries.remove(idx);
            proof {
                assert forall|i: int, j: int|
                    0 <= i < j < self.entries@.len() implies (#[trigger] self.entries@[i]).0 != (
                #[trigger] self.entries@[j]).0 by {
                    let oi = if i < idx {
                        i
                    } else {
                        i + 1
                    };
                    let oj = if j < idx {
                        j
                    } else {
                        j + 1
                    };
                    assert(self.entries@[i] == old(self).entries@[oi]);
                    assert(self.entries@[j] == old(self).entries@[oj]);
                }
            }
            return None;
        }
        Some(clone_details(&self.entries[idx].1.value))
    }

    /// Writes a key: sweeps every expired entry, evicts one arbitrary entry
    /// only when a new key meets a full cache, and inserts the value with a
    /// fresh expiry. Never leaves more live entries than the capacity; every
    /// surviving entry other than the written key stood in the old cache,
    /// live, with the same value and expiry; and nothing is evicted when the
    /// key was already present live or the live entries fit the capacity.
    pub fn put(&mut self, key: u32, value: SteamGameDetails, now: i64)
        requires
            mem_wf(*old(self)),
        ensures
            mem_wf(*final(self)),
            final(self).capacity == old(self).capacity,
            final(self).ttl_seconds == old(self).ttl_seconds,
            final(self).entries@.len() <= old(self).capacity,
            final(self).entries@.len() >= live_count(old(self).entries@, now),
            mem_find_spec(final(self).entries@, key) < final(self).entries@.len(),
            final(self).entries@[mem_find_spec(final(self).entries@, key)].1.value@ == value@,
            final(self).entries@[mem_find_spec(final(self).entries@, key)].1.expires_at
                == mem_expiry_spec(now, old(self).ttl_seconds),
            forall|a: int|
                0 <= a < final(self).entries@.len() && (#[trigger] final(self).entries@[a]).0
                    != key ==> final(self).entries@[a].1.expires_at > now && mem_entry_in(
                    old(self).entries@,
                    final(self).entries@[a].0,
                    final(self).entries@[a].1.value@,
                    final(self).entries@[a].1.expires_at,
                ),
            (mem_lookup_spec(old(self).entries@, key, now) is Some || live_count(
                old(self).entries@,
                now,
            ) < old(self).capacity) ==> forall|j: int|
                0 <= j < old(self).entries@.len() && (#[trigger] old(self).entries@[j]).1.expires_at
                    > now && old(self).entries@[j].0 != key ==> mem_entry_in(
                    final(self).entries@,
                    old(self).entries@[j].0,
                    old(self).entries@[j].1.value@,
                    old(self).entries@[j].1.expires_at,
                ),
    {
        let n = self.entries.len();
        let mut kept: Vec<(u32, MemoryCacheEntry)> = Vec::new();
        let mut i: usize = 0;
        while i < n
            invariant
                i <= n,
                n == self.entries@.len(),
                mem_wf(*self),
                kept@.len() == live_count(self.entries@.subrange(0, i as int), now),
                kept@.len() <= i,
                forall|a: int|
                    0 <= a < kept@.len() ==> (#[trigger] kept@[a]).1.expires_at > now
                        && exists|j: int|
                        0 <= j < i && kept@[a].0 == (#[trigger] self.entries@[j]).0
                            && kept@[a].1.value@ == self.entries@[j].1.value@
                            && kept@[a].1.expires_at == self.entries@[j].1.expires_at,
                forall|j: int|
                    0 <= j < i && (#[trigger] self.entries@[j]).1.expires_at > now
                        ==> mem_entry_in(
                        kept@,
                        self.entries@[j].0,
                        self.entries@[j].1.value@,
                        self.entries@[j].1.expires_at,
                    ),
                forall|a: int, b: int|
                    0 <= a < b < kept@.len() ==> (#[trigger] kept@[a]).0 != (#[trigger] kept@[b]).0,
            decreases n - i,
        {
            if self.entries[i].1.expires_at > now {
                let pair = (self.entries[i].0, clone_entry(&self.entries[i].1));
                proof {
                    assert forall|a: int| 0 <= a < kept@.len() implies (#[trigger] kept@[a]).0
                        != pair.0 by {
                        let j = choose|j: int|
                            0 <= j < i && kept@[a].0 == (#[trigger] self.entries@[j]).0
                                && kept@[a].1.value@ == self.entries@[j].1.value@
                                && kept@[a].1.expires_at == self.entries@[j].1.expires_at;
                        assert(self.entries@[j].0 != self.entries@[i as int].0);
                    }
                }
                let ghost kept0 = kept@;
                kept.push(pair);
                proof {
                    let last = kept@.len() - 1;
                    assert(kept@[last] == pair);
                    assert(kept@.drop_last() =~= kept0);
                    assert forall|a: int| 0 <= a < kept@.len() implies (
                    #[trigger] kept@[a]).1.expires_at > now && exists|j: int|
                        0 <= j < i + 1 && kept@[a].0 == (#[trigger] self.entries@[j]).0
                            && kept@[a].1.value@ == self.entries@[j].1.value@
                            && kept@[a].1.expires_at == self.entries@[j].1.expires_at by {
                        if a < last {
                            assert(kept@[a] == kept@.drop_last()[a]);
                            let j = choose|j: int|
                                0 <= j < i && kept@.drop_last()[a].0 == (
                                #[trigger] self.entries@[j]).0 && kept@.drop_last()[a].1.value@
                                    == self.entries@[j].1.value@
                                    && kept@.drop_last()[a].1.expires_at
                                    == self.entries@[j].1.expires_at;
                            assert(kept@[a].0 == self.entries@[j].0 && kept@[a].1.value@
                                == self.entries@[j].1.value@ && kept@[a].1.expires_at
                                == self.entries@[j].1.expires_at);
                        } else {
                            assert(kept@[a].0 == self.entries@[i as int].0 && kept@[a].1.value@
                                == self.entries@[i as int].1.value@ && kept@[a].1.expires_at
                                == self.entries@[i as int].1.expires_at);
                        }
                    }
                    assert forall|j: int|
                        0 <= j < i + 1 && (#[trigger] self.entries@[j]).1.expires_at
                            > now implies mem_entry_in(
                        kept@,
                        self.entries@[j].0,
                        self.entries@[j].1.value@,
                        self.entries@[j].1.expires_at,
                    ) by {
                        if j < i {
                            assert(mem_entry_in(
                                kept@.drop_last(),
                                self.entries@[j].0,
                                self.entries@[j].1.value@,
                                self.entries@[j].1.expires_at,
                            ));
                            let a = choose|a: int|
                                0 <= a < kept@.drop_last().len() && (
                                #[trigger] kept@.drop_last()[a]).0 == self.entries@[j].0
                                    && kept@.drop_last()[a].1.value@ == self.entries@[j].1.value@
                                    && kept@.drop_last()[a].1.expires_at
                                    == self.entries@[j].1.expires_at;
                            assert(kept@[a] == kept@.drop_last()[a]);
                        } else {
                            assert(kept@[last].0 == self.entries@[j].0 && kept@[last].1.value@
                                == self.entries@[j].1.value@ && kept@[last].1.expires_at
                                == self.entries@[j].1.expires_at);
                        }
                    }
                }
            }
            i += 1;
            proof {
                let pre = self.entries@.subrange(0, i as int);
                assert(pre.drop_last() =~= self.entries@.subrange(0, i - 1));
                assert(pre.last() == self.entries@[i - 1]);
            }
        }
        proof {
            assert(self.entries@.subrange(0, n as int) =~= self.entries@);
            lemma_live_count_le_len(self.entries@, now);
        }
        let ghost swept = kept@;
        let idx = mem_find_vec(&kept, key);
        proof {
            lemma_mem_find_bounds(kept@, key);
        }
        let entry = MemoryCacheEntry { value, expires_at: mem_expiry(now, self.ttl_seconds) };
        if idx < kept.len() {
            kept.set(idx, (key, entry));
            proof {
                lemma_mem_find_at(kept@, key, idx as int);
                assert forall|j: int|
                    0 <= j < self.entries@.len() && (#[trigger] self.entries@[j]).1.expires_at
                        > now && self.entries@[j].0 != key implies mem_entry_in(
                    kept@,
                    self.entries@[j].0,
                    self.entries@[j].1.value@,
                    self.entries@[j].1.expires_at,
                ) by {
                    let a = choose|a: int|
                        0 <= a < swept.len() && (#[trigger] swept[a]).0 == self.entries@[j].0
                            && swept[a].1.value@ == self.entries@[j].1.value@
                            && swept[a].1.expires_at == self.entries@[j].1.expires_at;
                    assert(swept[idx as int].0 == key);
                    assert(a != idx);
                    assert(kept@[a] == swept[a]);
                }
            }
        } else if kept.len() >= self.capacity {
            proof {
                // The written key is new here: were it present live in the
                // old cache, the sweep would have kept it.
                if mem_lookup_spec(self.entries@, key, now) is Some {
                    let fi = mem_find_spec(self.entries@, key);
                    lemma_mem_find_bounds(self.entries@, key);
                    assert(mem_entry_in(
                        swept,
                        key,
                        self.entries@[fi].1.value@,
                        self.entries@[fi].1.expires_at,
                    ));
                    let a = choose|a: int|
                        0 <= a < swept.len() && (#[trigger] swept[a]).0 == key
                            && swept[a].1.value@ == self.entries@[fi].1.value@
                            && swept[a].1.expires_at == self.entries@[fi].1.expires_at;
                    assert(false);
                }
                assert(!(mem_lookup_spec(self.entries@, key, now) is Some || live_count(
                    self.entries@,
                    now,
                ) < self.capacity));
            }
            kept.remove(0);
            proof {
                assert(forall|a: int| 0 <= a < kept@.len() ==> #[trigger] kept@[a] == swept[a + 1]);
            }
            kept.push((key, entry));
            proof {
                lemma_mem_find_at(kept@, key, kept@.len() - 1);
                assert forall|a: int|
                    0 <= a < kept@.len() && (#[trigger] kept@[a]).0 != key implies kept@[a] == swept[
                    a + 1] by {}
            }
        } else {
            kept.push((key, entry));
            proof {
                lemma_mem_find_at(kept@, key, kept@.len() - 1);
                assert forall|j: int|
                    0 <= j < self.entries@.len() && (#[trigger] self.entries@[j]).1.expires_at
                        > now && self.entries@[j].0 != key implies mem_entry_in(
                    kept@,
                    self.entries@[j].0,
                    self.entries@[j].1.value@,
                    self.entries@[j].1.expires_at,
                ) by {
                    let a = choose|a: int|
                        0 <= a < swept.len() && (#[trigger] swept[a]).0 == self.entries@[j].0
                            && swept[a].1.value@ == self.entries@[j].1.value@
                            && swept[a].1.expires_at == self.entries@[j].1.expires_at;
                    assert(kept@[a] == swept[a]);
                }
            }
        }
        self.entries = kept;
    }
}

/// The durable-tier rendering of an optional text: a quoted escaped string,
/// or a null marker.
pub open spec fn opt_str_json_spec(o: Option<Seq<char>>) -> Seq<char> {
    match o {
        Option::Some(t) => seq!['"'] + escape_str(t) + seq!['"'],
        Option::None => "null"@,
    }
}

/// The durable-tier rendering of an optional count: digits, or a null
/// marker.
pub open spec fn opt_num_json_spec(o: Option<u32>) -> Seq<char> {
    match o {
        Option::Some(n) => dec_chars(n as nat),
        Option::None => "null"@,
    }
}

/// The durable-tier rendering of game details.
pub open spec fn render_details_spec(d: SteamGameDetailsV) -> Seq<char> {
    "{\"app_id\":"@ + dec_chars(d.app_id as nat) + ",\"name\":\""@ + escape_str(d.name)
        + seq!['"'] + ",\"short_description\":"@ + opt_str_json_spec(d.short_description)
        + ",\"current_players\":"@ + opt_num_json_spec(d.current_players) + seq!['}']
}

/// Renders game details for the durable tier.
pub fn render_game_details(d: &SteamGameDetails) -> (r: String)
    ensures
        r@ == render_details_spec(d@),
{
    let mut v: Vec<char> = Vec::new();
    push_chars(&mut v, "{\"app_id\":");
    push_u64(&mut v, d.app_id as u64);
    push_chars(&mut v, ",\"name\":\"");
    push_escaped(&mut v, d.name.as_str());
    v.push('"');
    push_chars(&mut v, ",\"short_description\":");
    match &d.short_description {
        Option::Some(t) => {
            v.push('"');
            push_escaped(&mut v, t.as_str());
            v.push('"');
        },
        Option::None => push_chars(&mut v, "null"),
    }
    push_chars(&mut v, ",\"current_players\":");
    match d.current_players {
        Option::Some(n) => push_u64(&mut v, n as u64),
        Option::None => push_chars(&mut v, "null"),
    }
    v.push('}');
    proof {
        assert(v@ =~= render_details_spec(d@));
    }
    chars_to_string(&v)
}

/// The details a durable-tier value denotes, when it is a complete
/// rendering.
pub open spec fn parse_details_spec(s: Seq<char>) -> Option<SteamGameDetailsV> {
    if !lit_at(s, 0, "{\"app_id\":"@) {
        None
    } else {
        let e0 = "{\"app_id\":"@.len() as int;
        let e1 = digits_end(s, e0);
        if e1 <= e0 || e1 > s.len() || parsed_nat(s, e0) > u32::MAX || !lit_at(
            s,
            e1,
            ",\"name\":\""@,
        ) {
            None
        } else {
            let e2 = e1 + ",\"name\":\""@.len();
            match unescape_parse(s, e2) {
                Option::None => None,
                Option::Some((name, e3)) => {
                    if e3 <= e2 || e3 > s.len() || !lit_at(s, e3, ",\"short_description\":"@) {
                        None
                    } else {
                        let e4 = e3 + ",\"short_description\":"@.len();
                        let desc_parse = parse_opt_str_spec(s, e4);
                        match desc_parse {
                            Option::None => None,
                            Option::Some((desc, e5)) => {
                                if e5 <= e4 || e5 > s.len() || !lit_at(
                                    s,
                                    e5,
                                    ",\"current_players\":"@,
                                ) {
                                    None
                                } else {
                                    let e6 = e5 + ",\"current_players\":"@.len();
                                    match parse_opt_num_spec(s, e6) {
                                        Option::None => None,
                                        Option::Some((players, e7)) => {
                                            if e6 < e7 && e7 < s.len() && s[e7] == '}' && e7 + 1
                                                == s.len() {
                                                Some(
                                                    SteamGameDetailsV {
                                                        app_id: parsed_nat(s, e0) as u32,
                                                        name: name,
                                                        short_description: desc,
                                                        current_players: players,
                                                    },
                                                )
                                            } else {
                                                None
                                            }
                                        },
                                    }
                                }
                            },
                        }
                    }
                },
            }
        }
    }
}

/// Parses an optional quoted string or a null marker.
pub open spec fn parse_opt_str_spec(s: Seq<char>, i: int) -> Option<(Option<Seq<char>>, int)> {
    if 0 <= i < s.len() && s[i] == '"' {
        match unescape_parse(s, i + 1) {
            Option::Some((t, e)) => Some((Some(t), e)),
            Option::None => None,
        }
    } else if lit_at(s, i, "null"@) {
        Some((None, i + "null"@.len()))
    } else {
        None
    }
}

/// Parses an optional count or a null marker.
pub open spec fn parse_opt_num_spec(s: Seq<char>, i: int) -> Option<(Option<u32>, int)> {
    if lit_at(s, i, "null"@) {
        Some((None, i + "null"@.len()))
    } else {
        let e = digits_end(s, i);
        if e <= i || e > s.len() || parsed_nat(s, i) > u32::MAX {
            None
        } else {
            Some((Some(parsed_nat(s, i) as u32), e))
        }
    }
}

/// Reads game details back from their durable-tier serialization.
pub fn parse_game_details(raw: &str) -> (r: Option<SteamGameDetails>)
    ensures
        match r {
            Option::Some(d) => parse_details_spec(raw@) == Some(d@),
            Option::None => parse_details_spec(raw@) is None,
        },
{
    let v = str_chars(raw);
    proof {
        reveal_strlit("null");
    }
    let e0 = match expect_lit(&v, 0, "{\"app_id\":") {
        Option::Some(e) => e,
        Option::None => {
            return None;
        },
    };
    let (app_val, e1) = match parse_u64_at(&v, e0) {
        Option::Some(p) => p,
        Option::None => {
            proof {
                crate::textnum::lemma_digits_end_bounds(v@, e0 as int);
            }
            return None;
        },
    };
    if app_val > 0xFFFF_FFFF {
        return None;
    }
    let e2 = match expect_lit(&v, e1, ",\"name\":\"") {
        Option::Some(e) => e,
        Option::None => {
            return None;
        },
    };
    let (name_chars, e3) = match parse_string_at(&v, e2) {
        Option::Some(p) => p,
        Option::None => {
            return None;
        },
    };
    let e4 = match expect_lit(&v, e3, ",\"short_description\":") {
        Option::Some(e) => e,
        Option::None => {
            return None;
        },
    };
    let (desc, e5): (Option<String>, usize) = if e4 < v.len() && v[e4] == '"' {
        match parse_string_at(&v, e4 + 1) {
            Option::Some((t, e)) => (Some(chars_to_string(&t)), e),
            Option::None => {
                return None;
            },
        }
    } else {
        match expect_lit(&v, e4, "null") {
            Option::Some(e) => (None, e),
            Option::None => {
                proof {
                    reveal_strlit("null");
                }
                return None;
            },
        }
    };
    let e6 = match expect_lit(&v, e5, ",\"current_players\":") {
        Option::Some(e) => e,
        Option::None => {
            return None;
        },
    };
    let (players, e7): (Option<u32>, usize) = match expect_lit(&v, e6, "null") {
        Option::Some(e) => (None, e),
        Option::None => {
            match parse_u64_at(&v, e6) {
                Option::Some((n, e)) => {
                    if n > 0xFFFF_FFFF {
                        return None;
                    } else {
                        (Some(n as u32), e)
                    }
                },
                Option::None => {
                    proof {
                        crate::textnum::lemma_digits_end_bounds(v@, e6 as int);
                    }
                    return None;
                },
            }
        },
    };
    if e7 >= v.len() || v[e7] != '}' || e7 + 1 != v.len() {
        return None;
    }
    proof {
        reveal_strlit("null");
    }
    Some(
        SteamGameDetails {
            app_id: app_val as u32,
            name: chars_to_string(&name_chars),
            short_description: desc,
            current_players: players,
        },
    )
}

fn clone_entry(e: &MemoryCacheEntry) -> (r: MemoryCacheEntry)
    ensures
        r.value@ == e.value@,
        r.expires_at == e.expires_at,
{
    MemoryCacheEntry { value: clone_details(&e.value), expires_at: e.expires_at }
}

fn mem_find_vec(v: &Vec<(u32, MemoryCacheEntry)>, key: u32) -> (r: usize)
    ensures
        r == mem_find_spec(v@, key),
        r <= v@.len(),
{
    let n = v.len();
    let mut i: usize = 0;
    while i < n
        invariant
            i <= n,
            n == v@.len(),
            forall|j: int| 0 <= j < i ==> (#[trigger] v@[j]).0 != key,
        decreases n - i,
    {
        if v[i].0 == key {
            proof {
                lemma_mem_find_at(v@, key, i as int);
            }
            return i;
        }
        i += 1;
    }
    proof {
        lemma_mem_find_at(v@, key, n as int);
    }
    n
}

/// Round trip of the details serialization: parsing the rendering of any
/// game details yields those details.
#[verifier::rlimit(60)]
pub proof fn lemma_parse_render_details(d: SteamGameDetailsV)
    ensures
        parse_details_spec(render_details_spec(d)) == Some(d),
{
    reveal_strlit("{\"app_id\":");
    reveal_strlit(",\"name\":\"");
    reveal_strlit(",\"short_description\":");
    reveal_strlit(",\"current_players\":");
    reveal_strlit("null");
    let s = render_details_spec(d);
    let l0 = "{\"app_id\":"@;
    let dg = dec_chars(d.app_id as nat);
    let l1 = ",\"name\":\""@;
    let en = escape_str(d.name);
    let l2 = ",\"short_description\":"@;
    let sd = opt_str_json_spec(d.short_description);
    let l3 = ",\"current_players\":"@;
    let cp = opt_num_json_spec(d.current_players);
    let c1 = l0 + dg;
    let c2 = c1 + l1;
    let c3 = c2 + en;
    let c4 = c3 + seq!['"'];
    let c5 = c4 + l2;
    let c6 = c5 + sd;
    let c7 = c6 + l3;
    let c8 = c7 + cp;
    let c9 = c8 + seq!['}'];
    assert(s == c9);
    crate::textnum::lemma_dec_chars_digits(d.app_id as nat);
    crate::textnum::lemma_dec_chars_val(d.app_id as nat);
    // Walk the concatenation down to each part.
    assert(forall|k: int| 0 <= k < c8.len() ==> s[k] == #[trigger] c8[k]);
    assert(s[c8.len() as int] == '}');
    assert(forall|k: int| 0 <= k < c7.len() ==> c8[k] == #[trigger] c7[k]);
    assert(forall|k: int| 0 <= k < cp.len() ==> c8[c7.len() + k] == #[trigger] cp[k]);
    assert(forall|k: int| 0 <= k < c6.len() ==> c7[k] == #[trigger] c6[k]);
    assert(forall|k: int| 0 <= k < l3.len() ==> c7[c6.len() + k] == #[trigger] l3[k]);
    assert(forall|k: int| 0 <= k < c5.len() ==> c6[k] == #[trigger] c5[k]);
    assert(forall|k: int| 0 <= k < sd.len() ==> c6[c5.len() + k] == #[trigger] sd[k]);
    assert(forall|k: int| 0 <= k < c4.len() ==> c5[k] == #[trigger] c4[k]);
    assert(forall|k: int| 0 <= k < l2.len() ==> c5[c4.len() + k] == #[trigger] l2[k]);
    assert(forall|k: int| 0 <= k < c3.len() ==> c4[k] == #[trigger] c3[k]);
    assert(c4[c3.len() as int] == '"');
    assert(forall|k: int| 0 <= k < c2.len() ==> c3[k] == #[trigger] c2[k]);
    assert(forall|k: int| 0 <= k < en.len() ==> c3[c2.len() + k] == #[trigger] en[k]);
    assert(forall|k: int| 0 <= k < c1.len() ==> c2[k] == #[trigger] c2[k] && c2[k] == c1[k]);
    assert(forall|k: int| 0 <= k < l1.len() ==> c2[c1.len() + k] == #[trigger] l1[k]);
    assert(forall|k: int| 0 <= k < l0.len() ==> c1[k] == #[trigger] l0[k]);
    assert(forall|k: int| 0 <= k < dg.len() ==> c1[l0.len() + k] == #[trigger] dg[k]);
    // Opening literal and the id digits.
    assert forall|k: int| 0 <= k < l0.len() implies s[0 + k] == l0[k] by {
        assert(s[k] == c8[k]);
        assert(c8[k] == c7[k] && c7[k] == c6[k] && c6[k] == c5[k] && c5[k] == c4[k] && c4[k]
            == c3[k] && c3[k] == c2[k] && c2[k] == c1[k]);
    }
    crate::jsontext::lemma_seq_segment(s, 0, l0);
    assert(lit_at(s, 0, l0));
    let p1 = l0.len() as int;
    assert forall|k: int| 0 <= k < dg.len() implies s[p1 + k] == dg[k] && is_dec_digit(
        s[p1 + k],
    ) by {
        assert(p1 + k < c1.len());
        assert(s[p1 + k] == c8[p1 + k]);
        assert(c8[p1 + k] == c7[p1 + k] && c7[p1 + k] == c6[p1 + k] && c6[p1 + k] == c5[p1 + k]
            && c5[p1 + k] == c4[p1 + k] && c4[p1 + k] == c3[p1 + k] && c3[p1 + k] == c2[p1 + k]
            && c2[p1 + k] == c1[p1 + k]);
        assert(is_dec_digit(dg[k]));
    }
    let p2 = p1 + dg.len() as int;
    // The name literal stops the digit run.
    assert forall|k: int| 0 <= k < l1.len() implies s[p2 + k] == l1[k] by {
        assert(p2 + k < c2.len());
        assert(s[p2 + k] == c8[p2 + k]);
        assert(c8[p2 + k] == c7[p2 + k] && c7[p2 + k] == c6[p2 + k] && c6[p2 + k] == c5[p2 + k]
            && c5[p2 + k] == c4[p2 + k] && c4[p2 + k] == c3[p2 + k] && c3[p2 + k] == c2[p2 + k]);
    }
    assert(s[p2] == ',' && !is_dec_digit(','));
    crate::textnum::lemma_digits_end_of_run(s, p1, p2);
    crate::jsontext::lemma_seq_segment(s, p1, dg);
    assert(parsed_nat(s, p1) == d.app_id as nat);
    crate::jsontext::lemma_seq_segment(s, p2, l1);
    assert(lit_at(s, p2, l1));
    // The escaped name and its closing quote.
    let p3 = p2 + l1.len() as int;
    assert forall|k: int| 0 <= k < en.len() implies s[p3 + k] == en[k] by {
        assert(p3 + k < c3.len());
        assert(s[p3 + k] == c8[p3 + k]);
        assert(c8[p3 + k] == c7[p3 + k] && c7[p3 + k] == c6[p3 + k] && c6[p3 + k] == c5[p3 + k]
            && c5[p3 + k] == c4[p3 + k] && c4[p3 + k] == c3[p3 + k]);
    }
    crate::jsontext::lemma_seq_segment(s, p3, en);
    let p4 = p3 + en.len() as int;
    assert(s[p4] == '"') by {
        assert(s[p4] == c8[p4]);
        assert(c8[p4] == c7[p4] && c7[p4] == c6[p4] && c6[p4] == c5[p4] && c5[p4] == c4[p4]);
    }
    crate::jsontext::lemma_unescape_escape(s, p3, d.name);
    // The description literal and value.
    let p5 = p4 + 1;
    assert forall|k: int| 0 <= k < l2.len() implies s[p5 + k] == l2[k] by {
        assert(p5 + k < c5.len());
        assert(s[p5 + k] == c8[p5 + k]);
        assert(c8[p5 + k] == c7[p5 + k] && c7[p5 + k] == c6[p5 + k] && c6[p5 + k] == c5[p5 + k]);
    }
    crate::jsontext::lemma_seq_segment(s, p5, l2);
    assert(lit_at(s, p5, l2));
    let p6 = p5 + l2.len() as int;
    assert forall|k: int| 0 <= k < sd.len() implies s[p6 + k] == sd[k] by {
        assert(p6 + k < c6.len());
        assert(s[p6 + k] == c8[p6 + k]);
        assert(c8[p6 + k] == c7[p6 + k] && c7[p6 + k] == c6[p6 + k]);
    }
    crate::jsontext::lemma_seq_segment(s, p6, sd);
    let p7 = p6 + sd.len() as int;
    match d.short_description {
        Option::Some(t) => {
            let et = escape_str(t);
            assert(sd == seq!['"'] + et + seq!['"']);
            assert(s[p6] == '"') by {
                assert(sd[0] == '"');
            }
            assert forall|k: int| 0 <= k < et.len() implies s[p6 + 1 + k] == et[k] by {
                assert(sd[1 + k] == et[k]);
                assert(s[p6 + (1 + k)] == sd[1 + k]);
            }
            crate::jsontext::lemma_seq_segment(s, p6 + 1, et);
            assert(s[p6 + 1 + et.len()] == '"') by {
                assert(sd[sd.len() - 1] == '"');
                assert(s[p6 + (sd.len() - 1)] == sd[sd.len() - 1]);
            }
            crate::jsontext::lemma_unescape_escape(s, p6 + 1, t);
            assert(parse_opt_str_spec(s, p6) == Some((Some(t), p7)));
        },
        Option::None => {
            assert(sd == "null"@);
            assert(s[p6] == 'n') by {
                assert(sd[0] == 'n');
            }
            crate::jsontext::lemma_seq_segment(s, p6, "null"@);
            assert(lit_at(s, p6, "null"@));
            assert(parse_opt_str_spec(s, p6) == Some((None::<Seq<char>>, p7)));
        },
    }
    // The players literal and value.
    assert forall|k: int| 0 <= k < l3.len() implies s[p7 + k] == l3[k] by {
        assert(p7 + k < c7.len());
        assert(s[p7 + k] == c8[p7 + k]);
        assert(c8[p7 + k] == c7[p7 + k]);
    }
    crate::jsontext::lemma_seq_segment(s, p7, l3);
    assert(lit_at(s, p7, l3));
    let p8 = p7 + l3.len() as int;
    assert forall|k: int| 0 <= k < cp.len() implies s[p8 + k] == cp[k] by {
        assert(p8 + k < c8.len());
        assert(s[p8 + k] == c8[p8 + k]);
    }
    crate::jsontext::lemma_seq_segment(s, p8, cp);
    let p9 = p8 + cp.len() as int;
    assert(s[p9] == '}');
    match d.current_players {
        Option::Some(n) => {
            let dn = dec_chars(n as nat);
            crate::textnum::lemma_dec_chars_digits(n as nat);
            crate::textnum::lemma_dec_chars_val(n as nat);
            assert(cp == dn);
            assert(!lit_at(s, p8, "null"@)) by {
                if lit_at(s, p8, "null"@) {
                    assert(s.subrange(p8, p8 + 4)[0] == 'n');
                    assert(s[p8] == dn[0]);
                    assert(is_dec_digit(dn[0]));
                }
            }
            assert forall|k: int| p8 <= k < p9 implies is_dec_digit(s[k]) by {
                assert(s[k] == dn[k - p8]);
                assert(is_dec_digit(dn[k - p8]));
            }
            assert(!is_dec_digit('}'));
            crate::textnum::lemma_digits_end_of_run(s, p8, p9);
            assert(parsed_nat(s, p8) == n as nat);
            assert(parse_opt_num_spec(s, p8) == Some((Some(n), p9)));
        },
        Option::None => {
            assert(cp == "null"@);
            assert(lit_at(s, p8, "null"@));
            assert(parse_opt_num_spec(s, p8) == Some((None::<u32>, p9)));
        },
    }
    assert(p9 + 1 == s.len());
}

/// The two-tier lookup memoizer: a bounded memory tier backed by the
/// optional durable tier. The transport that fetches fresh details lives
/// outside and hands results to [`SteamLookupCache::store`].
#[derive(Clone, Debug)]
pub struct SteamLookupCache {
    pub memory: SteamMemoryCache,
    pub cache_service: Option<CacheService>,
    pub db_cache_ttl_seconds: u64,
}

impl SteamLookupCache {
    /// Whether the memoizer is well formed.
    pub open spec fn wf(&self) -> bool {
        mem_wf(self.memory)
    }

    /// A fresh memoizer.
    pub fn new(
        memory_cache_capacity: usize,
        memory_cache_ttl_seconds: u64,
        db_cache_ttl_seconds: u64,
        cache_service: Option<CacheService>,
    ) -> (r: Self)
        requires
            memory_cache_capacity > 0,
            memory_cache_ttl_seconds > 0,
        ensures
            r.wf(),
            r.memory.entries@.len() == 0,
            r.db_cache_ttl_seconds == db_cache_ttl_seconds,
    {
        SteamLookupCache {
            memory: SteamMemoryCache::new(memory_cache_capacity, memory_cache_ttl_seconds),
            cache_service,
            db_cache_ttl_seconds,
        }
    }

    /// Looks a game up in the cache tiers: the memory tier first, then the
    /// durable tier, backfilling the memory tier on a durable hit. Returns
    /// nothing on a miss of both tiers; the caller then consults the source
    /// of truth and hands the result to [`SteamLookupCache::store`].
    pub fn cached_lookup(&mut self, app_id: u32, now: i64) -> (r: Option<SteamGameDetails>)
        requires
            old(self).wf(),
        ensures
            final(self).wf(),
            mem_lookup_spec(old(self).memory.entries@, app_id, now) matches Some(d) ==> (
            r matches Some(v) && v@ == d),
            r matches Some(v) ==> (mem_find_spec(final(self).memory.entries@, app_id)
                < final(self).memory.entries@.len()
                && final(self).memory.entries@[mem_find_spec(final(self).memory.entries@, app_id)].1.value@
                == v@),
    {
        let from_memory = self.memory.get(app_id, now);
        if let Option::Some(d) = from_memory {
            return Some(d);
        }
        let service = match &self.cache_service {
            Option::Some(s) => s,
            Option::None => {
                return None;
            },
        };
        let key = crate::textnum::u64_to_string(app_id as u64);
        let raw = match service.get_json("steam.game_details", key.as_str(), now) {
            Ok(Option::Some(raw)) => raw,
            Ok(Option::None) => {
                return None;
            },
            Err(_) => {
                return None;
            },
        };
        let details = match parse_game_details(raw.as_str()) {
            Option::Some(d) => d,
            Option::None => {
                return None;
            },
        };
        self.memory.put(app_id, clone_details(&details), now);
        proof {
            lemma_mem_find_bounds(self.memory.entries@, app_id);
        }
        Some(details)
    }

    /// Stores freshly fetched details in both tiers: the memory tier with
    /// its own lifetime, and the durable tier (best effort) with the
    /// configured durable lifetime.
    pub fn store(&mut self, app_id: u32, details: &SteamGameDetails, now: i64)
        requires
            old(self).wf(),
        ensures
            final(self).wf(),
            mem_find_spec(final(self).memory.entries@, app_id) < final(self).memory.entries@.len(),
            final(self).memory.entries@[mem_find_spec(final(self).memory.entries@, app_id)].1.value@
                == details@,
    {
        self.memory.put(app_id, clone_details(details), now);
        if let Option::Some(service) = &self.cache_service {
            let key = crate::textnum::u64_to_string(app_id as u64);
            let value = render_game_details(details);
            let _ = service.set_json(
                "steam.game_details",
                key.as_str(),
                value.as_str(),
                Some(self.db_cache_ttl_seconds),
                now,
            );
        }
    }
}

} // verus!
