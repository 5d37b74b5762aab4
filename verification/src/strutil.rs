//! Character-level string utilities: trimming, truncation with an ellipsis
//! marker, and conversions between `Vec<char>` and `String`.

use vstd::prelude::*;
use vstd::string::StrSliceExecFns;

verus! {

/// The whitespace characters that trimming removes: the Unicode White_Space
/// set, as std's `char::is_whitespace` defines it.
pub open spec fn is_space_char(c: char) -> bool {
    c == '\u{0009}' || c == '\u{000A}' || c == '\u{000B}' || c == '\u{000C}' || c == '\u{000D}'
        || c == '\u{0020}' || c == '\u{0085}' || c == '\u{00A0}' || c == '\u{1680}'
        || c == '\u{2000}' || c == '\u{2001}' || c == '\u{2002}' || c == '\u{2003}'
        || c == '\u{2004}' || c == '\u{2005}' || c == '\u{2006}' || c == '\u{2007}'
        || c == '\u{2008}' || c == '\u{2009}' || c == '\u{200A}' || c == '\u{2028}'
        || c == '\u{2029}' || c == '\u{202F}' || c == '\u{205F}' || c == '\u{3000}'
}

/// Executable test for [`is_space_char`].
pub fn is_space(c: char) -> (r: bool)
    ensures
        r == is_space_char(c),
{
    c == '\u{0009}' || c == '\u{000A}' || c == '\u{000B}' || c == '\u{000C}' || c == '\u{000D}'
        || c == '\u{0020}' || c == '\u{0085}' || c == '\u{00A0}' || c == '\u{1680}'
        || c == '\u{2000}' || c == '\u{2001}' || c == '\u{2002}' || c == '\u{2003}'
        || c == '\u{2004}' || c == '\u{2005}' || c == '\u{2006}' || c == '\u{2007}'
        || c == '\u{2008}' || c == '\u{2009}' || c == '\u{200A}' || c == '\u{2028}'
        || c == '\u{2029}' || c == '\u{202F}' || c == '\u{205F}' || c == '\u{3000}'
}

/// The given text with leading whitespace removed.
pub open spec fn trim_left_spec(s: Seq<char>) -> Seq<char>
    decreases s.len(),
{
    if s.len() > 0 && is_space_char(s[0]) {
        trim_left_spec(s.skip(1))
    } else {
        s
    }
}

/// The given text with trailing whitespace removed.
pub open spec fn trim_right_spec(s: Seq<char>) -> Seq<char>
    decreases s.len(),
{
    if s.len() > 0 && is_space_char(s.last()) {
        trim_right_spec(s.drop_last())
    } else {
        s
    }
}

/// The given text with both leading and trailing whitespace removed.
pub open spec fn trim_spec(s: Seq<char>) -> Seq<char> {
    trim_right_spec(trim_left_spec(s))
}

proof fn lemma_trim_left_at(s: Seq<char>, i: int)
    requires
        0 <= i <= s.len(),
        forall|j: int| 0 <= j < i ==> is_space_char(s[j]),
        i == s.len() || !is_space_char(s[i]),
    ensures
        trim_left_spec(s) == s.subrange(i, s.len() as int),
    decreases i,
{
    if i == 0 {
        assert(s.subrange(0, s.len() as int) =~= s);
    } else {
        assert(is_space_char(s[0]));
        let t = s.skip(1);
        assert(forall|j: int| 0 <= j < i - 1 ==> is_space_char(t[j]));
        lemma_trim_left_at(t, i - 1);
        assert(t.subrange(i - 1, t.len() as int) =~= s.subrange(i, s.len() as int));
    }
}

proof fn lemma_trim_right_at(s: Seq<char>, i: int)
    requires
        0 <= i <= s.len(),
        forall|j: int| i <= j < s.len() ==> is_space_char(s[j]),
        i == 0 || !is_space_char(s[i - 1]),
    ensures
        trim_right_spec(s) == s.subrange(0, i),
    decreases s.len() - i,
{
    if i == s.len() {
        if s.len() == 0 || !is_space_char(s.last()) {
            assert(s.subrange(0, s.len() as int) =~= s);
        } else {
            assert(false);
        }
    } else {
        assert(is_space_char(s.last()));
        let t = s.drop_last();
        lemma_trim_right_at(t, i);
        assert(t.subrange(0, i) =~= s.subrange(0, i));
    }
}

/// The trimmed text, as a borrowed slice of the input.
pub fn trimmed<'a>(value: &'a str) -> (r: &'a str)
    ensures
        r@ == trim_spec(value@),
{
    let n = value.unicode_len();
    let mut lo: usize = 0;
    while lo < n && is_space(value.get_char(lo))
        invariant
            lo <= n,
            n == value@.len(),
            forall|j: int| 0 <= j < lo ==> is_space_char(value@[j]),
        decreases n - lo,
    {
        lo += 1;
    }
    let mut hi: usize = n;
    while hi > lo && is_space(value.get_char(hi - 1))
        invariant
            lo <= hi <= n,
            n == value@.len(),
            forall|j: int| 0 <= j < lo ==> is_space_char(value@[j]),
            forall|j: int| hi <= j < n ==> is_space_char(value@[j]),
        decreases hi,
    {
        hi -= 1;
    }
    proof {
        lemma_trim_left_at(value@, lo as int);
        let left = value@.subrange(lo as int, n as int);
        lemma_trim_right_at(left, hi - lo);
        assert(left.subrange(0, hi - lo) =~= value@.subrange(lo as int, hi as int));
    }
    value.substring_char(lo, hi)
}

/// The trimmed text when it is non-empty, and `None` when trimming leaves
/// nothing.
pub fn non_empty_trimmed<'a>(value: &'a str) -> (r: Option<&'a str>)
    ensures
        trim_spec(value@).len() == 0 ==> r is None,
        trim_spec(value@).len() > 0 ==> (r matches Some(t) && t@ == trim_spec(value@)),
{
    let t = trimmed(value);
    if t.unicode_len() == 0 {
        None
    } else {
        Some(t)
    }
}

/// An owned copy of the trimmed text when it is non-empty, and `None`
/// otherwise; a `None` input stays `None`.
pub fn normalize_optional_text(value: Option<String>) -> (r: Option<String>)
    ensures
        match value {
            Option::None => r is None,
            Option::Some(s) => {
                &&& trim_spec(s@).len() == 0 ==> r is None
                &&& trim_spec(s@).len() > 0 ==> (r matches Some(t) && t@ == trim_spec(s@))
            },
        },
{
    match value {
        Option::None => None,
        Option::Some(s) => match non_empty_trimmed(s.as_str()) {
            Option::None => None,
            Option::Some(t) => Some(t.to_owned()),
        },
    }
}

/// The marker appended when text is cut short.
pub open spec fn ellipsis() -> Seq<char> {
    "..."@
}

/// The input unchanged when it has at most `max_chars` characters; otherwise
/// its first `max_chars` characters followed by an ellipsis marker.
pub fn truncate_chars(input: &str, max_chars: usize) -> (r: String)
    ensures
        input@.len() <= max_chars ==> r@ == input@,
        input@.len() > max_chars ==> r@ == input@.subrange(0, max_chars as int) + ellipsis(),
        input@.len() > max_chars ==> r@.len() == max_chars + 3,
{
    let n = input.unicode_len();
    if n <= max_chars {
        input.to_owned()
    } else {
        let head = input.substring_char(0, max_chars);
        let mut out = head.to_owned();
        out.append("...");
        proof {
            reveal_strlit("...");
        }
        out
    }
}

/// Whether two string slices hold the same characters.
pub fn str_eq(a: &str, b: &str) -> (r: bool)
    ensures
        r == (a@ == b@),
{
    let n = a.unicode_len();
    if b.unicode_len() != n {
        proof {
            assert(a@.len() != b@.len());
        }
        return false;
    }
    let mut i: usize = 0;
    while i < n
        invariant
            i <= n,
            n == a@.len(),
            b@.len() == n,
            forall|j: int| 0 <= j < i ==> a@[j] == b@[j],
        decreases n - i,
    {
        if a.get_char(i) != b.get_char(i) {
            proof {
                assert(a@ != b@) by {
                    if a@ == b@ {
                        assert(a@[i as int] == b@[i as int]);
                    }
                }
            }
            return false;
        }
        i += 1;
    }
    proof {
        assert(a@ =~= b@);
    }
    true
}

/// Builds a `String` out of a character vector.
///
/// Relies on std's `FromIterator<char> for String`: collecting characters
/// yields the string holding exactly those characters in order.
#[verifier::external_body]
pub(crate) fn chars_to_string(v: &Vec<char>) -> (r: String)
    ensures
        r@ == v@,
{
    v.iter().collect()
}

/// The characters of a string slice, as a vector.
pub fn str_chars(s: &str) -> (r: Vec<char>)
    ensures
        r@ == s@,
{
    let n = s.unicode_len();
    let mut v: Vec<char> = Vec::new();
    let mut i: usize = 0;
    while i < n
        invariant
            i <= n,
            n == s@.len(),
            v@ == s@.subrange(0, i as int),
        decreases n - i,
    {
        v.push(s.get_char(i));
        i += 1;
        proof {
            assert(v@ =~= s@.subrange(0, i as int));
        }
    }
    proof {
        assert(s@.subrange(0, n as int) =~= s@);
    }
    v
}

/// Appends every character of `src` to `dst`.
pub fn push_chars(dst: &mut Vec<char>, src: &str)
    ensures
        final(dst)@ == old(dst)@ + src@,
{
    let n = src.unicode_len();
    let mut i: usize = 0;
    while i < n
        invariant
            i <= n,
            n == src@.len(),
            dst@ == old(dst)@ + src@.subrange(0, i as int),
        decreases n - i,
    {
        dst.push(src.get_char(i));
        i += 1;
        proof {
            assert(dst@ =~= old(dst)@ + src@.subrange(0, i as int));
        }
    }
    proof {
        assert(old(dst)@ + src@.subrange(0, n as int) =~= old(dst)@ + src@);
    }
}

} // verus!
