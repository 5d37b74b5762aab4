//! The persistent status store: the last known status per tracked identity,
//! rendered to and recovered from a single JSON-like document. Parsing the
//! rendering of any record list yields that list back, so a status written
//! before a restart is read back unchanged.

use vstd::prelude::*;
use vstd::string::StrSliceExecFns;
use crate::cache::CacheService;
use crate::event::{DiscordStatus, status_label_spec};
use crate::jsontext::{
    escape_str,
    lemma_parse_render_i64,
    lemma_unescape_escape,
    lit_at,
    expect_lit,
    parse_i64_at,
    parse_i64_spec,
    parse_string_at,
    push_escaped,
    skip_digits,
    unescape_parse,
};
use crate::strutil::{chars_to_string, push_chars, str_chars};
use crate::textnum::{dec_chars, dec_chars_signed, digits_end, is_dec_digit, lemma_dec_chars_digits, lemma_digits_end_of_run, push_i64, push_u64};

verus! {

/// A persisted status record: the status and the instant it was written.
#[derive(Clone, Copy, Debug, PartialEq, Eq, Structural)]
pub struct StatusRecord {
    pub status: DiscordStatus,
    pub updated_at: i64,
}

/// One entry of the status document: a composite key and its record.
#[derive(Clone, Debug)]
pub struct StatusEntry {
    pub key: String,
    pub record: StatusRecord,
}

/// The mathematical view of a status entry.
pub ghost struct StatusEntryV {
    pub key: Seq<char>,
    pub status: DiscordStatus,
    pub updated_at: int,
}

impl View for StatusEntry {
    type V = StatusEntryV;

    open spec fn view(&self) -> StatusEntryV {
        StatusEntryV {
            key: self.key@,
            status: self.record.status,
            updated_at: self.record.updated_at as int,
        }
    }
}

impl DeepView for StatusEntry {
    type V = StatusEntryV;

    open spec fn deep_view(&self) -> StatusEntryV {
        self.view()
    }
}

/// The literal between a rendered key and its status value.
pub open spec fn status_lit() -> Seq<char> {
    ":{\"status\":\""@
}

/// The literal between a rendered status value and its timestamp.
pub open spec fn updated_lit() -> Seq<char> {
    ",\"updated_at\":"@
}

/// The literal opening the document.
pub open spec fn version_lit() -> Seq<char> {
    "{\"version\":"@
}

/// The literal between the version number and the records object.
pub open spec fn records_lit() -> Seq<char> {
    ",\"records\":{"@
}

/// The rendering of one entry: the escaped key and an object holding the
/// status label and the update timestamp.
pub open spec fn render_entry_spec(e: StatusEntryV) -> Seq<char> {
    seq!['"'] + escape_str(e.key) + seq!['"'] + status_lit() + escape_str(
        status_label_spec(e.status),
    ) + seq!['"'] + updated_lit() + dec_chars_signed(e.updated_at) + seq!['}']
}

/// The rendering of a record list: its entries separated by commas.
pub open spec fn render_entries_spec(m: Seq<StatusEntryV>) -> Seq<char>
    decreases m.len(),
{
    if m.len() == 0 {
        Seq::<char>::empty()
    } else if m.len() == 1 {
        render_entry_spec(m[0])
    } else {
        render_entry_spec(m[0]) + seq![','] + render_entries_spec(m.skip(1))
    }
}

/// The rendering of the whole document: a fixed version, then the records.
pub open spec fn render_doc_spec(m: Seq<StatusEntryV>) -> Seq<char> {
    version_lit() + dec_chars(1) + records_lit() + render_entries_spec(m) + seq!['}'] + seq!['}']
}

/// The status whose label is the given text, if any.
pub open spec fn status_of_label_spec(t: Seq<char>) -> Option<DiscordStatus> {
    if t == status_label_spec(DiscordStatus::Online) {
        Some(DiscordStatus::Online)
    } else if t == status_label_spec(DiscordStatus::Idle) {
        Some(DiscordStatus::Idle)
    } else if t == status_label_spec(DiscordStatus::Dnd) {
        Some(DiscordStatus::Dnd)
    } else if t == status_label_spec(DiscordStatus::Offline) {
        Some(DiscordStatus::Offline)
    } else if t == status_label_spec(DiscordStatus::Invisible) {
        Some(DiscordStatus::Invisible)
    } else if t == status_label_spec(DiscordStatus::Unknown) {
        Some(DiscordStatus::Unknown)
    } else {
        None
    }
}

/// Reading a label back yields the status it labels.
pub proof fn lemma_status_of_label(s: DiscordStatus)
    ensures
        status_of_label_spec(status_label_spec(s)) == Some(s),
{
    reveal_strlit("online");
    reveal_strlit("idle");
    reveal_strlit("dnd");
    reveal_strlit("offline");
    reveal_strlit("invisible");
    reveal_strlit("unknown");
    assert("online"@.len() == 6 && "idle"@.len() == 4 && "dnd"@.len() == 3 && "offline"@.len() == 7
        && "invisible"@.len() == 9 && "unknown"@.len() == 7);
    assert("offline"@[0] == 'o' && "unknown"@[0] == 'u');
    match s {
        DiscordStatus::Online => {
            assert(status_label_spec(s) == "online"@);
        },
        DiscordStatus::Idle => {
            assert(status_label_spec(s) == "idle"@);
        },
        DiscordStatus::Dnd => {
            assert(status_label_spec(s) == "dnd"@);
        },
        DiscordStatus::Offline => {
            assert(status_label_spec(s) == "offline"@);
            assert("offline"@ != "online"@);
        },
        DiscordStatus::Invisible => {
            assert(status_label_spec(s) == "invisible"@);
        },
        DiscordStatus::Unknown => {
            assert(status_label_spec(s) == "unknown"@);
            assert("unknown"@ != "offline"@);
        },
    }
}

/// Whether a character vector holds exactly the given text.
fn chars_eq_str(v: &Vec<char>, s: &str) -> (r: bool)
    ensures
        r == (v@ == s@),
{
    let n = s.unicode_len();
    if v.len() != n {
        proof {
            assert(v@.len() != s@.len());
        }
        return false;
    }
    let mut i: usize = 0;
    while i < n
        invariant
            i <= n,
            n == s@.len(),
            v@.len() == n,
            forall|j: int| 0 <= j < i ==> v@[j] == s@[j],
        decreases n - i,
    {
        if v[i] != s.get_char(i) {
            proof {
                assert(v@ != s@) by {
                    if v@ == s@ {
                        assert(v@[i as int] == s@[i as int]);
                    }
                }
            }
            return false;
        }
        i += 1;
    }
    proof {
        assert(v@ =~= s@);
    }
    true
}

/// Reads a status from its label text.
fn status_from_label_chars(t: &Vec<char>) -> (r: Option<DiscordStatus>)
    ensures
        r == status_of_label_spec(t@),
{
    if chars_eq_str(t, "online") {
        Some(DiscordStatus::Online)
    } else if chars_eq_str(t, "idle") {
        Some(DiscordStatus::Idle)
    } else if chars_eq_str(t, "dnd") {
        Some(DiscordStatus::Dnd)
    } else if chars_eq_str(t, "offline") {
        Some(DiscordStatus::Offline)
    } else if chars_eq_str(t, "invisible") {
        Some(DiscordStatus::Invisible)
    } else if chars_eq_str(t, "unknown") {
        Some(DiscordStatus::Unknown)
    } else {
        None
    }
}

fn push_entry(out: &mut Vec<char>, e: &StatusEntry)
    ensures
        final(out)@ == old(out)@ + render_entry_spec(e@),
{
    out.push('"');
    push_escaped(out, e.key.as_str());
    out.push('"');
    push_chars(out, ":{\"status\":\"");
    push_escaped(out, e.record.status.label());
    out.push('"');
    push_chars(out, ",\"updated_at\":");
    push_i64(out, e.record.updated_at);
    out.push('}');
    proof {
        assert(out@ =~= old(out)@ + render_entry_spec(e@));
    }
}

/// Renders the whole status document.
pub fn render_status_file(entries: &Vec<StatusEntry>) -> (r: String)
    ensures
        r@ == render_doc_spec(entries.deep_view()),
{
    let n = entries.len();
    let mut v: Vec<char> = Vec::new();
    push_chars(&mut v, "{\"version\":");
    push_u64(&mut v, 1);
    push_chars(&mut v, ",\"records\":{");
    let ghost prefix = v@;
    let mut i: usize = 0;
    while i < n
        invariant
            i <= n,
            n == entries@.len(),
            v@ == prefix + render_entries_spec(entries.deep_view().subrange(0, i as int)),
        decreases n - i,
    {
        if i > 0 {
            v.push(',');
        }
        push_entry(&mut v, &entries[i]);
        i += 1;
        proof {
            let m = entries.deep_view();
            let pre = m.subrange(0, i as int);
            lemma_render_entries_snoc(m, i as int);
            assert(pre.subrange(0, i - 1) =~= m.subrange(0, i - 1));
            assert(v@ =~= prefix + render_entries_spec(pre));
        }
    }
    v.push('}');
    v.push('}');
    proof {
        assert(entries.deep_view().subrange(0, n as int) =~= entries.deep_view());
        assert(v@ =~= render_doc_spec(entries.deep_view()));
    }
    chars_to_string(&v)
}

proof fn lemma_render_entries_snoc(m: Seq<StatusEntryV>, i: int)
    requires
        0 < i <= m.len(),
    ensures
        render_entries_spec(m.subrange(0, i)) == if i == 1 {
            render_entry_spec(m[0])
        } else {
            render_entries_spec(m.subrange(0, i - 1)) + seq![','] + render_entry_spec(m[i - 1])
        },
    decreases i,
{
    let pre = m.subrange(0, i);
    if i == 1 {
        assert(pre.len() == 1);
        assert(pre[0] == m[0]);
    } else {
        lemma_render_entries_tail(pre);
        let t = pre.skip(1);
        lemma_render_entries_snoc(m.skip(1), i - 1);
        assert(t =~= m.skip(1).subrange(0, i - 1));
        assert(m.skip(1).subrange(0, i - 2) =~= m.subrange(0, i - 1).skip(1));
        assert(m.skip(1)[i - 2] == m[i - 1]);
        if i == 2 {
            assert(render_entries_spec(t) == render_entry_spec(m[1]));
            assert(pre.subrange(0, 1) =~= m.subrange(0, 1));
            assert(m.subrange(0, 1).len() == 1 && m.subrange(0, 1)[0] == m[0]);
            assert(render_entries_spec(pre) =~= render_entries_spec(m.subrange(0, 1)) + seq![',']
                + render_entry_spec(m[1]));
        } else {
            lemma_render_entries_tail(m.subrange(0, i - 1));
            assert(render_entries_spec(pre) == render_entry_spec(pre[0]) + seq![',']
                + render_entries_spec(t));
            assert(render_entries_spec(m.subrange(0, i - 1)) == render_entry_spec(
                m.subrange(0, i - 1)[0],
            ) + seq![','] + render_entries_spec(m.subrange(0, i - 1).skip(1)));
            assert(pre[0] == m[0] && m.subrange(0, i - 1)[0] == m[0]);
            assert(render_entries_spec(pre) =~= render_entries_spec(m.subrange(0, i - 1))
                + seq![','] + render_entry_spec(m[i - 1]));
        }
    }
}

proof fn lemma_render_entries_tail(m: Seq<StatusEntryV>)
    requires
        m.len() >= 2,
    ensures
        render_entries_spec(m) == render_entry_spec(m[0]) + seq![','] + render_entries_spec(
            m.skip(1),
        ),
{
}

/// Parses one entry of the records object at position `i`: its key, status
/// and timestamp, and the position right after the entry's closing brace.
pub open spec fn parse_entry_spec(s: Seq<char>, i: int) -> Option<(StatusEntryV, int)> {
    if !(0 <= i < s.len() && s[i] == '"') {
        None
    } else {
        match unescape_parse(s, i + 1) {
            Option::None => None,
            Option::Some((key, e1)) => {
                if e1 <= i + 1 || e1 > s.len() || !lit_at(s, e1, status_lit()) {
                    None
                } else {
                    let e2 = e1 + status_lit().len();
                    match unescape_parse(s, e2) {
                        Option::None => None,
                        Option::Some((label, e3)) => {
                            if e3 <= e2 || e3 > s.len() {
                                None
                            } else {
                                match status_of_label_spec(label) {
                                    Option::None => None,
                                    Option::Some(st) => {
                                        if !lit_at(s, e3, updated_lit()) {
                                            None
                                        } else {
                                            let e4 = e3 + updated_lit().len();
                                            match parse_i64_spec(s, e4) {
                                                Option::None => None,
                                                Option::Some((ts, e5)) => {
                                                    if e5 <= e4 || e5 >= s.len() || s[e5] != '}'
                                                        || ts < i64::MIN || ts > i64::MAX {
                                                        None
                                                    } else {
                                                        Some(
                                                            (
                                                                StatusEntryV {
                                                                    key: key,
                                                                    status: st,
                                                                    updated_at: ts,
                                                                },
                                                                e5 + 1,
                                                            ),
                                                        )
                                                    }
                                                },
                                            }
                                        }
                                    },
                                }
                            }
                        },
                    }
                }
            },
        }
    }
}

/// Parses the contents of the records object at position `i`: the entries,
/// separated by commas, up to and including the closing brace.
pub open spec fn parse_entries_spec(s: Seq<char>, i: int) -> Option<(Seq<StatusEntryV>, int)>
    decreases s.len() - i,
{
    if !(0 <= i < s.len()) {
        None
    } else if s[i] == '}' {
        Some((Seq::<StatusEntryV>::empty(), i + 1))
    } else {
        match parse_entry_spec(s, i) {
            Option::None => None,
            Option::Some((entry, e6)) => {
                if e6 <= i || e6 >= s.len() {
                    None
                } else if s[e6] == ',' {
                    match parse_entries_spec(s, e6 + 1) {
                        Option::None => None,
                        Option::Some((rest, e7)) => Some((seq![entry] + rest, e7)),
                    }
                } else if s[e6] == '}' {
                    Some((seq![entry], e6 + 1))
                } else {
                    None
                }
            },
        }
    }
}

/// Parses a whole status document: its record list, when the text is a
/// well-formed rendering consumed completely.
pub open spec fn parse_doc_spec(s: Seq<char>) -> Option<Seq<StatusEntryV>> {
    if !lit_at(s, 0, version_lit()) {
        None
    } else {
        let e0 = version_lit().len() as int;
        let e1 = digits_end(s, e0);
        if e1 <= e0 || e1 > s.len() || !lit_at(s, e1, records_lit()) {
            None
        } else {
            match parse_entries_spec(s, e1 + records_lit().len()) {
                Option::None => None,
                Option::Some((entries, e2)) => {
                    if e2 < s.len() && s[e2] == '}' && e2 + 1 == s.len() {
                        Some(entries)
                    } else {
                        None
                    }
                },
            }
        }
    }
}

/// Round trip of one entry: where a buffer holds the rendering of an entry
/// followed by a separator or a closing brace, parsing yields that entry.
proof fn lemma_parse_render_entry(buf: Seq<char>, i: int, e: StatusEntryV, next: char)
    requires
        i64::MIN <= e.updated_at <= i64::MAX,
        0 <= i,
        i + render_entry_spec(e).len() < buf.len(),
        buf.subrange(i, i + render_entry_spec(e).len()) == render_entry_spec(e),
        buf[i + render_entry_spec(e).len()] == next,
        next == ',' || next == '}',
    ensures
        parse_entry_spec(buf, i) == Some((e, i + render_entry_spec(e).len())),
        buf[i] == '"',
{
    reveal_strlit(":{\"status\":\"");
    reveal_strlit(",\"updated_at\":");
    let ek = escape_str(e.key);
    let lab = status_label_spec(e.status);
    let el = escape_str(lab);
    let dg = dec_chars_signed(e.updated_at);
    let a1 = seq!['"'] + ek;
    let a2 = a1 + seq!['"'];
    let a3 = a2 + status_lit();
    let a4 = a3 + el;
    let a5 = a4 + seq!['"'];
    let a6 = a5 + updated_lit();
    let a7 = a6 + dg;
    let a8 = a7 + seq!['}'];
    let rr = render_entry_spec(e);
    assert(rr == a8);
    let sr = buf.subrange(i, i + rr.len());
    assert(forall|k: int| 0 <= k < rr.len() ==> buf[i + k] == #[trigger] sr[k]);
    assert(forall|k: int| 0 <= k < rr.len() ==> buf[i + k] == a8[k]);
    // Walk the concatenation down to each part.
    assert(forall|k: int| 0 <= k < a7.len() ==> a8[k] == #[trigger] a7[k]);
    assert(a8[a7.len() as int] == '}');
    assert(forall|k: int| 0 <= k < a6.len() ==> a7[k] == #[trigger] a6[k]);
    assert(forall|k: int| 0 <= k < dg.len() ==> a7[a6.len() + k] == #[trigger] dg[k]);
    assert(forall|k: int| 0 <= k < a5.len() ==> a6[k] == #[trigger] a5[k]);
    assert(forall|k: int| 0 <= k < updated_lit().len() ==> a6[a5.len() + k]
        == #[trigger] updated_lit()[k]);
    assert(forall|k: int| 0 <= k < a4.len() ==> a5[k] == #[trigger] a4[k]);
    assert(a5[a4.len() as int] == '"');
    assert(forall|k: int| 0 <= k < a3.len() ==> a4[k] == #[trigger] a3[k]);
    assert(forall|k: int| 0 <= k < el.len() ==> a4[a3.len() + k] == #[trigger] el[k]);
    assert(forall|k: int| 0 <= k < a2.len() ==> a3[k] == #[trigger] a2[k]);
    assert(forall|k: int| 0 <= k < status_lit().len() ==> a3[a2.len() + k]
        == #[trigger] status_lit()[k]);
    assert(forall|k: int| 0 <= k < a1.len() ==> a2[k] == #[trigger] a1[k]);
    assert(a2[a1.len() as int] == '"');
    assert(a1[0] == '"');
    assert(forall|k: int| 0 <= k < ek.len() ==> a1[1 + k] == #[trigger] ek[k]);
    // Key positions of the parts inside the buffer.
    let p1 = i + 1;
    let p2 = p1 + ek.len() as int;
    let p3 = p2 + 1;
    let p4 = p3 + status_lit().len() as int;
    let p5 = p4 + el.len() as int;
    let p6 = p5 + 1;
    let p7 = p6 + updated_lit().len() as int;
    let p8 = p7 + dg.len() as int;
    assert(buf[i] == '"');
    // Key string and its closing quote.
    assert forall|k: int| 0 <= k < ek.len() implies buf[p1 + k] == ek[k] by {
        assert(buf[i + (1 + k)] == a8[1 + k]);
        assert(a8[1 + k] == a1[1 + k]);
    }
    crate::jsontext::lemma_seq_segment(buf, p1, ek);
    assert(buf[p2] == '"') by {
        assert(buf[i + a1.len()] == a8[a1.len() as int]);
        assert(a8[a1.len() as int] == a2[a1.len() as int]);
    }
    lemma_unescape_escape(buf, p1, e.key);
    assert(unescape_parse(buf, i + 1) == Some((e.key, p3)));
    // The status literal.
    assert forall|k: int| 0 <= k < status_lit().len() implies buf[p3 + k] == status_lit()[k] by {
        assert(buf[i + (a2.len() + k)] == a8[a2.len() + k]);
        assert(a8[a2.len() + k] == a3[a2.len() + k]);
    }
    crate::jsontext::lemma_seq_segment(buf, p3, status_lit());
    assert(lit_at(buf, p3, status_lit()));
    // The label and its closing quote.
    assert forall|k: int| 0 <= k < el.len() implies buf[p4 + k] == el[k] by {
        assert(buf[i + (a3.len() + k)] == a8[a3.len() + k]);
        assert(a8[a3.len() + k] == a4[a3.len() + k]);
    }
    crate::jsontext::lemma_seq_segment(buf, p4, el);
    assert(buf[p5] == '"') by {
        assert(buf[i + a4.len()] == a8[a4.len() as int]);
        assert(a8[a4.len() as int] == a5[a4.len() as int]);
    }
    lemma_unescape_escape(buf, p4, lab);
    assert(unescape_parse(buf, p4) == Some((lab, p6)));
    lemma_status_of_label(e.status);
    // The timestamp literal.
    assert forall|k: int| 0 <= k < updated_lit().len() implies buf[p6 + k] == updated_lit()[k] by {
        assert(buf[i + (a5.len() + k)] == a8[a5.len() + k]);
        assert(a8[a5.len() + k] == a6[a5.len() + k]);
    }
    crate::jsontext::lemma_seq_segment(buf, p6, updated_lit());
    assert(lit_at(buf, p6, updated_lit()));
    // The digits and the closing brace.
    assert forall|k: int| 0 <= k < dg.len() implies buf[p7 + k] == dg[k] by {
        assert(buf[i + (a6.len() + k)] == a8[a6.len() + k]);
        assert(a8[a6.len() + k] == a7[a6.len() + k]);
    }
    crate::jsontext::lemma_seq_segment(buf, p7, dg);
    assert(buf[p8] == '}') by {
        assert(buf[i + a7.len()] == a8[a7.len() as int]);
    }
    assert(!is_dec_digit('}') && '}' != '-');
    lemma_parse_render_i64(buf, p7, e.updated_at);
    assert(parse_i64_spec(buf, p7) == Some((e.updated_at, p8)));
    assert(parse_entry_spec(buf, i) == Some((e, p8 + 1)));
}

/// Round trip of the records object: where a buffer holds the rendering of
/// a record list followed by the closing brace, parsing yields that list.
proof fn lemma_parse_render_entries(buf: Seq<char>, i: int, m: Seq<StatusEntryV>)
    requires
        forall|j: int| 0 <= j < m.len() ==> i64::MIN <= (#[trigger] m[j]).updated_at <= i64::MAX,
        0 <= i,
        i + render_entries_spec(m).len() < buf.len(),
        buf.subrange(i, i + render_entries_spec(m).len()) == render_entries_spec(m),
        buf[i + render_entries_spec(m).len()] == '}',
    ensures
        parse_entries_spec(buf, i) == Some((m, i + render_entries_spec(m).len() + 1)),
    decreases m.len(),
{
    let rr = render_entries_spec(m);
    let sr = buf.subrange(i, i + rr.len());
    assert(forall|k: int| 0 <= k < rr.len() ==> buf[i + k] == #[trigger] sr[k]);
    if m.len() == 0 {
        assert(buf[i] == '}');
        assert(Seq::<StatusEntryV>::empty() =~= m);
    } else if m.len() == 1 {
        assert(rr == render_entry_spec(m[0]));
        lemma_parse_render_entry(buf, i, m[0], '}');
        assert(buf[i] == '"');
        let e6 = i + rr.len();
        assert(render_entry_spec(m[0]).len() > 0) by {
            assert(render_entry_spec(m[0]).len() == (seq!['"'] + escape_str(m[0].key) + seq!['"']
                + status_lit() + escape_str(status_label_spec(m[0].status)) + seq!['"']
                + updated_lit() + dec_chars_signed(m[0].updated_at) + seq!['}']).len());
        }
        assert(seq![m[0]] =~= m);
    } else {
        lemma_render_entries_tail(m);
        let r0 = render_entry_spec(m[0]);
        let rest = render_entries_spec(m.skip(1));
        assert(rr == r0 + seq![','] + rest);
        let b1 = r0 + seq![','];
        assert(rr == b1 + rest);
        assert(forall|k: int| 0 <= k < b1.len() ==> rr[k] == #[trigger] b1[k]);
        assert(forall|k: int| 0 <= k < r0.len() ==> b1[k] == #[trigger] r0[k]);
        assert(b1[r0.len() as int] == ',');
        assert(forall|k: int| 0 <= k < rest.len() ==> rr[b1.len() + k] == #[trigger] rest[k]);
        // The first entry, followed by a comma.
        assert forall|k: int| 0 <= k < r0.len() implies buf[i + k] == r0[k] by {
            assert(buf[i + k] == sr[k]);
            assert(rr[k] == b1[k]);
        }
        crate::jsontext::lemma_seq_segment(buf, i, r0);
        assert(buf[i + r0.len()] == ',') by {
            assert(buf[i + r0.len()] == sr[r0.len() as int]);
            assert(rr[r0.len() as int] == b1[r0.len() as int]);
        }
        lemma_parse_render_entry(buf, i, m[0], ',');
        // The remaining entries, with the same trailing brace.
        let i2 = i + b1.len() as int;
        assert forall|k: int| 0 <= k < rest.len() implies buf[i2 + k] == rest[k] by {
            assert(buf[i + (b1.len() + k)] == sr[b1.len() + k]);
        }
        crate::jsontext::lemma_seq_segment(buf, i2, rest);
        assert(buf[i2 + rest.len()] == '}');
        assert(forall|j: int|
            0 <= j < m.skip(1).len() ==> i64::MIN <= (#[trigger] m.skip(1)[j]).updated_at
                <= i64::MAX);
        lemma_parse_render_entries(buf, i2, m.skip(1));
        let e6 = i + r0.len() as int;
        assert(buf[e6] == ',');
        assert(parse_entries_spec(buf, i2) == Some((m.skip(1), i2 + rest.len() + 1)));
        assert(seq![m[0]] + m.skip(1) =~= m);
    }
}

/// Round trip of the whole document: parsing the rendering of any record
/// list yields that list.
pub proof fn lemma_parse_render_doc(m: Seq<StatusEntryV>)
    requires
        forall|j: int| 0 <= j < m.len() ==> i64::MIN <= (#[trigger] m[j]).updated_at <= i64::MAX,
    ensures
        parse_doc_spec(render_doc_spec(m)) == Some(m),
{
    reveal_strlit("{\"version\":");
    reveal_strlit(",\"records\":{");
    let s = render_doc_spec(m);
    let vl = version_lit();
    let d1 = dec_chars(1);
    let rl = records_lit();
    let en = render_entries_spec(m);
    let c1 = vl + d1;
    let c2 = c1 + rl;
    let c3 = c2 + en;
    let c4 = c3 + seq!['}'];
    let c5 = c4 + seq!['}'];
    assert(s == c5);
    assert(d1 =~= seq![crate::textnum::dec_digit(1)]);
    assert(forall|k: int| 0 <= k < c4.len() ==> c5[k] == #[trigger] c4[k]);
    assert(c5[c4.len() as int] == '}');
    assert(forall|k: int| 0 <= k < c3.len() ==> c4[k] == #[trigger] c3[k]);
    assert(c4[c3.len() as int] == '}');
    assert(forall|k: int| 0 <= k < c2.len() ==> c3[k] == #[trigger] c2[k]);
    assert(forall|k: int| 0 <= k < en.len() ==> c3[c2.len() + k] == #[trigger] en[k]);
    assert(forall|k: int| 0 <= k < c1.len() ==> c2[k] == #[trigger] c1[k]);
    assert(forall|k: int| 0 <= k < rl.len() ==> c2[c1.len() + k] == #[trigger] rl[k]);
    assert(forall|k: int| 0 <= k < vl.len() ==> c1[k] == #[trigger] vl[k]);
    assert(c1[vl.len() as int] == '1');
    // The version literal opens the document.
    assert forall|k: int| 0 <= k < vl.len() implies s[0 + k] == vl[k] by {
        assert(s[k] == c4[k]);
        assert(c4[k] == c3[k]);
        assert(c3[k] == c2[k]);
        assert(c2[k] == c1[k]);
    }
    crate::jsontext::lemma_seq_segment(s, 0, vl);
    assert(lit_at(s, 0, vl));
    let e0 = vl.len() as int;
    // One version digit, then the records literal.
    assert(s[e0] == '1') by {
        assert(s[e0] == c4[e0]);
        assert(c4[e0] == c3[e0]);
        assert(c3[e0] == c2[e0]);
    }
    let e1 = e0 + 1;
    assert forall|k: int| 0 <= k < rl.len() implies s[e1 + k] == rl[k] by {
        assert(e1 + k < c3.len());
        assert(s[c1.len() + k] == c4[c1.len() + k]);
        assert(c4[c1.len() + k] == c3[c1.len() + k]);
        assert(c3[c1.len() + k] == c2[c1.len() + k]);
    }
    crate::jsontext::lemma_seq_segment(s, e1, rl);
    assert(lit_at(s, e1, rl));
    assert(s[e1] == ',');
    assert(is_dec_digit(s[e0]) && !is_dec_digit(s[e1]));
    lemma_digits_end_of_run(s, e0, e1);
    assert(digits_end(s, e0) == e1);
    // The records object.
    let er = e1 + rl.len() as int;
    assert forall|k: int| 0 <= k < en.len() implies s[er + k] == en[k] by {
        assert(er + k < c3.len());
        assert(s[c2.len() + k] == c4[c2.len() + k]);
        assert(c4[c2.len() + k] == c3[c2.len() + k]);
    }
    crate::jsontext::lemma_seq_segment(s, er, en);
    assert(s[er + en.len()] == '}') by {
        assert(s[c3.len() as int] == c4[c3.len() as int]);
    }
    lemma_parse_render_entries(s, er, m);
    let e2 = er + en.len() + 1;
    assert(parse_entries_spec(s, er) == Some((m, e2)));
    assert(s[e2] == '}');
    assert(e2 + 1 == s.len());
}

fn parse_entry_at(v: &Vec<char>, from: usize) -> (r: Option<(StatusEntry, usize)>)
    requires
        from <= v@.len(),
    ensures
        match r {
            Option::Some(p) => parse_entry_spec(v@, from as int) == Some((p.0@, p.1 as int))
                && from < p.1 <= v@.len(),
            Option::None => parse_entry_spec(v@, from as int) is None,
        },
{
    if from >= v.len() || v[from] != '"' {
        return None;
    }
    let (key_chars, e1) = match parse_string_at(v, from + 1) {
        Option::Some(p) => p,
        Option::None => {
            return None;
        },
    };
    let e2 = match expect_lit(v, e1, ":{\"status\":\"") {
        Option::Some(e) => e,
        Option::None => {
            return None;
        },
    };
    let (label_chars, e3) = match parse_string_at(v, e2) {
        Option::Some(p) => p,
        Option::None => {
            return None;
        },
    };
    let status = match status_from_label_chars(&label_chars) {
        Option::Some(s) => s,
        Option::None => {
            return None;
        },
    };
    let e4 = match expect_lit(v, e3, ",\"updated_at\":") {
        Option::Some(e) => e,
        Option::None => {
            return None;
        },
    };
    let (updated_at, e5) = match parse_i64_at(v, e4) {
        Option::Some(p) => p,
        Option::None => {
            return None;
        },
    };
    if e5 >= v.len() || v[e5] != '}' {
        return None;
    }
    let key = chars_to_string(&key_chars);
    Some((StatusEntry { key, record: StatusRecord { status, updated_at } }, e5 + 1))
}

spec fn entries_prepend(p: Seq<StatusEntryV>, o: Option<(Seq<StatusEntryV>, int)>) -> Option<
    (Seq<StatusEntryV>, int),
> {
    match o {
        Option::Some(q) => Some((p + q.0, q.1)),
        Option::None => None,
    }
}

proof fn lemma_entries_prepend_assoc(
    p: Seq<StatusEntryV>,
    x: StatusEntryV,
    o: Option<(Seq<StatusEntryV>, int)>,
)
    ensures
        entries_prepend(p, entries_prepend(seq![x], o)) == entries_prepend(p.push(x), o),
{
    match o {
        Option::Some(q) => {
            assert(p + (seq![x] + q.0) =~= p.push(x) + q.0);
        },
        Option::None => {},
    }
}

/// Parses a whole status document from text.
pub fn parse_status_file(text: &str) -> (r: Option<Vec<StatusEntry>>)
    ensures
        match r {
            Option::Some(entries) => parse_doc_spec(text@) == Some(entries.deep_view()),
            Option::None => parse_doc_spec(text@) is None,
        },
{
    let v = str_chars(text);
    let e0 = match expect_lit(&v, 0, "{\"version\":") {
        Option::Some(e) => e,
        Option::None => {
            return None;
        },
    };
    let e1 = skip_digits(&v, e0);
    if e1 <= e0 {
        return None;
    }
    let er = match expect_lit(&v, e1, ",\"records\":{") {
        Option::Some(e) => e,
        Option::None => {
            return None;
        },
    };
    let mut out: Vec<StatusEntry> = Vec::new();
    let mut i: usize = er;
    let mut done: bool = false;
    while !done
        invariant
            v@ == text@,
            lit_at(v@, 0, version_lit()),
            e1 == digits_end(v@, version_lit().len() as int),
            version_lit().len() < e1 <= v@.len(),
            lit_at(v@, e1 as int, records_lit()),
            er == e1 + records_lit().len(),
            er <= i <= v@.len(),
            !done ==> entries_prepend(out.deep_view(), parse_entries_spec(v@, i as int))
                == parse_entries_spec(v@, er as int),
            done ==> parse_entries_spec(v@, er as int) == Some((out.deep_view(), i as int)),
        decreases (v@.len() - i) * 2 + (if done { 0int } else { 1int }),
    {
        if i >= v.len() {
            return None;
        }
        if v[i] == '}' {
            proof {
                assert(out.deep_view() + Seq::<StatusEntryV>::empty() =~= out.deep_view());
            }
            i += 1;
            done = true;
        } else {
            let (entry, e6) = match parse_entry_at(&v, i) {
                Option::Some(p) => p,
                Option::None => {
                    return None;
                },
            };
            if e6 >= v.len() {
                return None;
            }
            if v[e6] == ',' {
                proof {
                    lemma_entries_prepend_assoc(
                        out.deep_view(),
                        entry@,
                        parse_entries_spec(v@, e6 + 1),
                    );
                    assert(out.deep_view().push(entry@) =~= out.deep_view() + seq![entry@]);
                }
                out.push(entry);
                proof {
                    assert(out.deep_view() =~= out.deep_view().drop_last().push(entry@));
                }
                i = e6 + 1;
            } else if v[e6] == '}' {
                proof {
                    assert(out.deep_view() + seq![entry@] =~= out.deep_view().push(entry@));
                }
                out.push(entry);
                proof {
                    assert(out.deep_view() =~= out.deep_view().drop_last().push(entry@));
                }
                i = e6 + 1;
                done = true;
            } else {
                return None;
            }
        }
    }
    if i < v.len() && v[i] == '}' && i + 1 == v.len() {
        Some(out)
    } else {
        None
    }
}

/// The first index holding the given key, or the length when it is absent.
pub open spec fn find_index_spec(m: Seq<StatusEntryV>, key: Seq<char>) -> int
    decreases m.len(),
{
    if m.len() == 0 {
        0
    } else if m[0].key == key {
        0
    } else {
        1 + find_index_spec(m.skip(1), key)
    }
}

pub proof fn lemma_find_index_bounds(m: Seq<StatusEntryV>, key: Seq<char>)
    ensures
        0 <= find_index_spec(m, key) <= m.len(),
        find_index_spec(m, key) < m.len() ==> m[find_index_spec(m, key)].key == key,
        forall|j: int| 0 <= j < find_index_spec(m, key) ==> (#[trigger] m[j]).key != key,
    decreases m.len(),
{
    if m.len() > 0 && m[0].key != key {
        lemma_find_index_bounds(m.skip(1), key);
        assert forall|j: int| 0 <= j < find_index_spec(m, key) implies (#[trigger] m[j]).key
            != key by {
            if j > 0 {
                assert(m[j] == m.skip(1)[j - 1]);
            }
        }
    }
}

proof fn lemma_find_index_at(m: Seq<StatusEntryV>, key: Seq<char>, i: int)
    requires
        0 <= i <= m.len(),
        forall|j: int| 0 <= j < i ==> (#[trigger] m[j]).key != key,
        i == m.len() || m[i].key == key,
    ensures
        find_index_spec(m, key) == i,
    decreases i,
{
    if m.len() > 0 {
        if i == 0 {
        } else {
            lemma_find_index_at(m.skip(1), key, i - 1);
        }
    }
}

/// The status stored under a key, if any.
pub open spec fn lookup_spec(m: Seq<StatusEntryV>, key: Seq<char>) -> Option<DiscordStatus> {
    if find_index_spec(m, key) < m.len() {
        Some(m[find_index_spec(m, key)].status)
    } else {
        None
    }
}

/// The record list after a status write: the key's entry replaced in place,
/// or a fresh entry appended when the key is new.
pub open spec fn set_entry_spec(
    m: Seq<StatusEntryV>,
    key: Seq<char>,
    status: DiscordStatus,
    now: int,
) -> Seq<StatusEntryV> {
    let e = StatusEntryV { key: key, status: status, updated_at: now };
    let i = find_index_spec(m, key);
    if i < m.len() {
        m.update(i, e)
    } else {
        m.push(e)
    }
}

/// Whether a record list is well formed: no key occurs twice.
pub open spec fn entries_wf(m: Seq<StatusEntryV>) -> bool {
    forall|i: int, j: int|
        0 <= i < j < m.len() ==> (#[trigger] m[i]).key != (#[trigger] m[j]).key
}

/// Law: a write leaves the record list well formed and readable: looking the
/// key up afterwards yields exactly the written status, and no other key's
/// entry moves or changes.
pub proof fn lemma_set_then_lookup(
    m: Seq<StatusEntryV>,
    key: Seq<char>,
    status: DiscordStatus,
    now: int,
)
    requires
        entries_wf(m),
    ensures
        entries_wf(set_entry_spec(m, key, status, now)),
        lookup_spec(set_entry_spec(m, key, status, now), key) == Some(status),
        forall|k: Seq<char>|
            k != key ==> #[trigger] lookup_spec(set_entry_spec(m, key, status, now), k)
                == lookup_spec(m, k),
{
    let e = StatusEntryV { key: key, status: status, updated_at: now };
    let i = find_index_spec(m, key);
    lemma_find_index_bounds(m, key);
    let m2 = set_entry_spec(m, key, status, now);
    if i < m.len() {
        assert(m2 == m.update(i, e));
        lemma_find_index_at(m2, key, i);
        assert forall|k: Seq<char>| k != key implies #[trigger] lookup_spec(m2, k) == lookup_spec(
            m,
            k,
        ) by {
            lemma_find_index_same(m, m2, k);
        }
    } else {
        assert(m2 == m.push(e));
        lemma_find_index_at(m2, key, i);
        assert forall|k: Seq<char>| k != key implies #[trigger] lookup_spec(m2, k) == lookup_spec(
            m,
            k,
        ) by {
            lemma_find_index_same(m, m2, k);
        }
    }
}

proof fn lemma_find_index_same(m: Seq<StatusEntryV>, m2: Seq<StatusEntryV>, k: Seq<char>)
    requires
        m.len() <= m2.len() <= m.len() + 1,
        forall|j: int| 0 <= j < m.len() ==> (#[trigger] m2[j]).key == m[j].key,
        forall|j: int|
            0 <= j < m2.len() ==> ((#[trigger] m2[j]).key == k ==> j < m.len() && m2[j]
                == m[j]),
    ensures
        lookup_spec(m2, k) == lookup_spec(m, k),
{
    let i = find_index_spec(m, k);
    let i2 = find_index_spec(m2, k);
    lemma_find_index_bounds(m, k);
    lemma_find_index_bounds(m2, k);
    if i < m.len() {
        lemma_find_index_at(m2, k, i);
    } else {
        if i2 < m2.len() {
            assert(m2[i2].key == k);
            assert(i2 < m.len() && m2[i2] == m[i2]);
            assert(m[i2].key == k);
            assert(false);
        }
    }
}

/// The snapshot a parsed record list denotes: entries folded in from the
/// front, a later occurrence of a key replacing an earlier one (last wins).
pub open spec fn apply_entries_spec(m: Seq<StatusEntryV>) -> Seq<StatusEntryV>
    decreases m.len(),
{
    if m.len() == 0 {
        Seq::<StatusEntryV>::empty()
    } else {
        set_entry_spec(
            apply_entries_spec(m.drop_last()),
            m.last().key,
            m.last().status,
            m.last().updated_at,
        )
    }
}

/// Folding a record list in always yields a well-formed snapshot.
pub proof fn lemma_apply_entries_wf(m: Seq<StatusEntryV>)
    ensures
        entries_wf(apply_entries_spec(m)),
    decreases m.len(),
{
    if m.len() > 0 {
        lemma_apply_entries_wf(m.drop_last());
        lemma_set_then_lookup(
            apply_entries_spec(m.drop_last()),
            m.last().key,
            m.last().status,
            m.last().updated_at,
        );
    }
}

/// Folding a record list without duplicate keys changes nothing.
pub proof fn lemma_apply_entries_id(m: Seq<StatusEntryV>)
    requires
        entries_wf(m),
    ensures
        apply_entries_spec(m) == m,
    decreases m.len(),
{
    if m.len() == 0 {
        assert(apply_entries_spec(m) =~= m);
    } else {
        let d = m.drop_last();
        assert(entries_wf(d)) by {
            assert(forall|i: int, j: int|
                0 <= i < j < d.len() ==> (#[trigger] d[i]).key != (#[trigger] d[j]).key) by {
                assert(forall|i: int| 0 <= i < d.len() ==> d[i] == m[i]);
            }
        }
        lemma_apply_entries_id(d);
        assert(forall|j: int| 0 <= j < d.len() ==> (#[trigger] d[j]).key != m.last().key) by {
            assert(forall|j: int| 0 <= j < d.len() ==> d[j] == m[j]);
            assert(forall|j: int| 0 <= j < d.len() ==> (#[trigger] m[j]).key != m[m.len() - 1].key);
        }
        lemma_find_index_at(d, m.last().key, d.len() as int);
        let e = StatusEntryV {
            key: m.last().key,
            status: m.last().status,
            updated_at: m.last().updated_at,
        };
        assert(e == m.last());
        assert(d.push(m.last()) =~= m);
    }
}

/// The durable-tier serialization of a status: its quoted label.
pub open spec fn status_json_spec(s: DiscordStatus) -> Seq<char> {
    seq!['"'] + escape_str(status_label_spec(s)) + seq!['"']
}

/// Renders a status for the durable tier.
pub fn status_to_json(status: DiscordStatus) -> (r: String)
    ensures
        r@ == status_json_spec(status),
{
    let mut v: Vec<char> = Vec::new();
    v.push('"');
    push_escaped(&mut v, status.label());
    v.push('"');
    proof {
        assert(v@ =~= status_json_spec(status));
    }
    chars_to_string(&v)
}

/// The status a durable-tier value denotes, if it is a quoted label.
pub open spec fn status_from_json_spec(s: Seq<char>) -> Option<DiscordStatus> {
    if s.len() > 0 && s[0] == '"' {
        match unescape_parse(s, 1) {
            Option::Some((t, e)) => {
                if e == s.len() {
                    status_of_label_spec(t)
                } else {
                    None
                }
            },
            Option::None => None,
        }
    } else {
        None
    }
}

/// Reads a status back from its durable-tier serialization.
pub fn status_from_json(raw: &str) -> (r: Option<DiscordStatus>)
    ensures
        r == status_from_json_spec(raw@),
{
    let v = str_chars(raw);
    if v.len() == 0 || v[0] != '"' {
        return None;
    }
    match parse_string_at(&v, 1) {
        Option::Some((t, e)) => {
            if e == v.len() {
                status_from_label_chars(&t)
            } else {
                None
            }
        },
        Option::None => None,
    }
}

/// Law: the durable-tier serialization of a status reads back as that
/// status.
pub proof fn lemma_status_json_roundtrip(s: DiscordStatus)
    ensures
        status_from_json_spec(status_json_spec(s)) == Some(s),
{
    let lab = status_label_spec(s);
    let el = escape_str(lab);
    let t = status_json_spec(s);
    assert(t[0] == '"');
    assert(forall|k: int| 0 <= k < el.len() ==> t[1 + k] == #[trigger] el[k]) by {
        assert(forall|k: int|
            0 <= k < el.len() ==> (seq!['"'] + el)[1 + k] == #[trigger] el[k]);
        assert(forall|k: int|
            0 <= k < (seq!['"'] + el).len() ==> t[k] == #[trigger] (seq!['"'] + el)[k]);
    }
    assert(t.subrange(1, 1 + el.len() as int) =~= el);
    assert(t[1 + el.len() as int] == '"');
    lemma_unescape_escape(t, 1, lab);
    lemma_status_of_label(s);
}

fn clone_entry(e: &StatusEntry) -> (r: StatusEntry)
    ensures
        r@ == e@,
{
    StatusEntry { key: e.key.clone(), record: e.record }
}

fn find_entry_in(entries: &Vec<StatusEntry>, key: &str) -> (r: usize)
    ensures
        r == find_index_spec(entries.deep_view(), key@),
        r <= entries@.len(),
{
    let n = entries.len();
    let mut i: usize = 0;
    while i < n
        invariant
            i <= n,
            n == entries@.len(),
            forall|j: int| 0 <= j < i ==> (#[trigger] entries.deep_view()[j]).key != key@,
        decreases n - i,
    {
        if crate::strutil::str_eq(entries[i].key.as_str(), key) {
            proof {
                lemma_find_index_at(entries.deep_view(), key@, i as int);
            }
            return i;
        }
        i += 1;
    }
    proof {
        lemma_find_index_at(entries.deep_view(), key@, n as int);
    }
    n
}

/// The persistent status store: the in-memory snapshot of the last known
/// status per key, plus an optional durable tier consulted on a miss.
#[derive(Clone, Debug)]
pub struct PersistentStatusCache {
    pub entries: Vec<StatusEntry>,
    pub cache_service: Option<CacheService>,
}

impl PersistentStatusCache {
    /// The snapshot is well formed: no key occurs twice.
    pub open spec fn wf(&self) -> bool {
        entries_wf(self.entries.deep_view())
    }

    /// Loads the store from the status file's contents; an absent file
    /// yields an empty store. Entries are folded in from the front, so a
    /// later occurrence of a key replaces an earlier one (last wins). Fails
    /// exactly when the text is not a well-formed status document.
    pub fn load(contents: Option<&str>, cache_service: Option<CacheService>) -> (r: Result<
        Self,
        String,
    >)
        ensures
            match r {
                Ok(c) => {
                    &&& c.wf()
                    &&& c.cache_service == cache_service
                    &&& match contents {
                        Option::Some(text) => parse_doc_spec(text@) matches Some(m)
                            && c.entries.deep_view() == apply_entries_spec(m),
                        Option::None => c.entries.deep_view() == Seq::<StatusEntryV>::empty(),
                    }
                },
                Err(_) => contents matches Some(text) && parse_doc_spec(text@) is None,
            },
            contents is None ==> r is Ok,
    {
        let text = match contents {
            Option::Some(t) => t,
            Option::None => {
                return Ok(
                    PersistentStatusCache { entries: Vec::new(), cache_service },
                );
            },
        };
        let entries = match parse_status_file(text) {
            Option::Some(e) => e,
            Option::None => {
                let m: &str = "failed to parse state cache file";
                return Err(m.to_owned());
            },
        };
        let n = entries.len();
        let mut out: Vec<StatusEntry> = Vec::new();
        let mut i: usize = 0;
        while i < n
            invariant
                i <= n,
                n == entries@.len(),
                entries_wf(out.deep_view()),
                out.deep_view() == apply_entries_spec(entries.deep_view().subrange(0, i as int)),
            decreases n - i,
        {
            let entry = clone_entry(&entries[i]);
            let idx = find_entry_in(&out, entry.key.as_str());
            proof {
                lemma_find_index_bounds(out.deep_view(), entry.key@);
                lemma_set_then_lookup(
                    out.deep_view(),
                    entry.key@,
                    entry.record.status,
                    entry.record.updated_at as int,
                );
            }
            if idx < out.len() {
                out.set(idx, entry);
            } else {
                out.push(entry);
            }
            i += 1;
            proof {
                let pre = entries.deep_view().subrange(0, i as int);
                assert(pre.drop_last() =~= entries.deep_view().subrange(0, i - 1));
                assert(pre.last() == entries.deep_view()[i - 1]);
                assert(out.deep_view() =~= apply_entries_spec(pre));
            }
        }
        proof {
            assert(entries.deep_view().subrange(0, n as int) =~= entries.deep_view());
        }
        Ok(PersistentStatusCache { entries: out, cache_service })
    }

    fn find_entry(&self, key: &str) -> (r: usize)
        ensures
            r == find_index_spec(self.entries.deep_view(), key@),
            r <= self.entries@.len(),
    {
        find_entry_in(&self.entries, key)
    }

    /// Reads the last known status under a key: from the snapshot, else
    /// from the durable tier (backfilling the snapshot on a hit, stamped
    /// with the given instant).
    pub fn get_status(&mut self, key: &str, now: i64) -> (r: Option<DiscordStatus>)
        requires
            old(self).wf(),
        ensures
            final(self).wf(),
            final(self).cache_service == old(self).cache_service,
            lookup_spec(old(self).entries.deep_view(), key@) matches Some(st) ==> r == Some(st)
                && final(self).entries == old(self).entries,
            lookup_spec(old(self).entries.deep_view(), key@) is None ==> match r {
                Option::Some(st) => final(self).entries.deep_view() == set_entry_spec(
                    old(self).entries.deep_view(),
                    key@,
                    st,
                    now as int,
                ),
                Option::None => final(self).entries == old(self).entries,
            },
    {
        let idx = self.find_entry(key);
        proof {
            lemma_find_index_bounds(self.entries.deep_view(), key@);
        }
        if idx < self.entries.len() {
            return Some(self.entries[idx].record.status);
        }
        let service = match &self.cache_service {
            Option::Some(s) => s,
            Option::None => {
                return None;
            },
        };
        let raw = match service.get_json("status.last", key, now) {
            Ok(Option::Some(raw)) => raw,
            Ok(Option::None) => {
                return None;
            },
            Err(_) => {
                return None;
            },
        };
        let status = match status_from_json(raw.as_str()) {
            Option::Some(s) => s,
            Option::None => {
                return None;
            },
        };
        let entry = StatusEntry {
            key: key.to_owned(),
            record: StatusRecord { status, updated_at: now },
        };
        proof {
            lemma_set_then_lookup(self.entries.deep_view(), key@, status, now as int);
        }
        self.entries.push(entry);
        proof {
            assert(self.entries.deep_view() =~= set_entry_spec(
                old(self).entries.deep_view(),
                key@,
                status,
                now as int,
            ));
        }
        Some(status)
    }

    /// Writes a status under a key: updates the snapshot, mirrors the write
    /// to the durable tier best-effort (a failure there is swallowed), and
    /// returns the full rendered document for the caller to persist
    /// atomically.
    pub fn set_status(&mut self, key: &str, status: DiscordStatus, now: i64) -> (contents: String)
        requires
            old(self).wf(),
        ensures
            final(self).wf(),
            final(self).cache_service == old(self).cache_service,
            final(self).entries.deep_view() == set_entry_spec(
                old(self).entries.deep_view(),
                key@,
                status,
                now as int,
            ),
            contents@ == render_doc_spec(final(self).entries.deep_view()),
            lookup_spec(final(self).entries.deep_view(), key@) == Some(status),
    {
        let idx = self.find_entry(key);
        proof {
            lemma_find_index_bounds(self.entries.deep_view(), key@);
            lemma_set_then_lookup(self.entries.deep_view(), key@, status, now as int);
        }
        let entry = StatusEntry {
            key: key.to_owned(),
            record: StatusRecord { status, updated_at: now },
        };
        if idx < self.entries.len() {
            self.entries.set(idx, entry);
        } else {
            self.entries.push(entry);
        }
        proof {
            assert(self.entries.deep_view() =~= set_entry_spec(
                old(self).entries.deep_view(),
                key@,
                status,
                now as int,
            ));
        }
        let contents = render_status_file(&self.entries);
        if let Option::Some(service) = &self.cache_service {
            let value = status_to_json(status);
            let _ = service.set_json("status.last", key, value.as_str(), None, now);
        }
        contents
    }
}

/// Law: a status written under a key and persisted survives a restart.
/// Parsing the rendered document back yields the same well-formed record
/// list, loading leaves that list untouched (no key occurs twice, so the
/// last-wins fold is the identity), and the key reads back exactly the
/// status that was written.
pub proof fn lemma_status_persistence_roundtrip(
    m: Seq<StatusEntryV>,
    key: Seq<char>,
    status: DiscordStatus,
    now: int,
)
    requires
        entries_wf(m),
        forall|j: int| 0 <= j < m.len() ==> i64::MIN <= (#[trigger] m[j]).updated_at <= i64::MAX,
        i64::MIN <= now <= i64::MAX,
    ensures
        parse_doc_spec(render_doc_spec(set_entry_spec(m, key, status, now))) == Some(
            set_entry_spec(m, key, status, now),
        ),
        apply_entries_spec(set_entry_spec(m, key, status, now)) == set_entry_spec(
            m,
            key,
            status,
            now,
        ),
        entries_wf(set_entry_spec(m, key, status, now)),
        lookup_spec(set_entry_spec(m, key, status, now), key) == Some(status),
{
    let m2 = set_entry_spec(m, key, status, now);
    lemma_set_then_lookup(m, key, status, now);
    lemma_find_index_bounds(m, key);
    assert(forall|j: int| 0 <= j < m2.len() ==> i64::MIN <= (#[trigger] m2[j]).updated_at <= i64::MAX);
    lemma_parse_render_doc(m2);
    lemma_apply_entries_id(m2);
}

} // verus!
