//! Character-level rendering and parsing of the JSON-like documents the
//! library persists: string escaping with a proved round trip, literal
//! matching, and signed-number parsing.

use vstd::prelude::*;
use crate::strutil::push_chars;
use crate::textnum::{
    dec_chars,
    dec_chars_signed,
    digits_end,
    is_dec_digit,
    lemma_dec_chars_digits,
    lemma_dec_chars_val,
    lemma_digits_end_of_run,
    parse_u64_at,
    parsed_nat,
    push_i64,
};

verus! {

/// The escaped form of one character inside a quoted string: quotes and
/// backslashes get a backslash prefix, everything else stands as itself.
pub open spec fn escape_char(c: char) -> Seq<char> {
    if c == '"' || c == '\\' {
        seq!['\\', c]
    } else {
        seq![c]
    }
}

/// The escaped form of a whole text.
pub open spec fn escape_str(s: Seq<char>) -> Seq<char>
    decreases s.len(),
{
    if s.len() == 0 {
        Seq::<char>::empty()
    } else {
        escape_char(s[0]) + escape_str(s.skip(1))
    }
}

/// Appends the escaped form of `src` to `out`.
pub fn push_escaped(out: &mut Vec<char>, src: &str)
    ensures
        final(out)@ == old(out)@ + escape_str(src@),
{
    let n = vstd::string::StrSliceExecFns::unicode_len(src);
    let mut i: usize = 0;
    while i < n
        invariant
            i <= n,
            n == src@.len(),
            out@ == old(out)@ + escape_str(src@.subrange(0, i as int)),
        decreases n - i,
    {
        let c = vstd::string::StrSliceExecFns::get_char(src, i);
        if c == '"' || c == '\\' {
            out.push('\\');
            out.push(c);
        } else {
            out.push(c);
        }
        i += 1;
        proof {
            lemma_escape_str_snoc(src@, i as int);
            assert(out@ =~= old(out)@ + escape_str(src@.subrange(0, i as int)));
        }
    }
    proof {
        assert(src@.subrange(0, n as int) =~= src@);
    }
}

proof fn lemma_escape_str_snoc(s: Seq<char>, i: int)
    requires
        0 < i <= s.len(),
    ensures
        escape_str(s.subrange(0, i)) == escape_str(s.subrange(0, i - 1)) + escape_char(s[i - 1]),
    decreases i,
{
    let pre = s.subrange(0, i);
    if i == 1 {
        assert(escape_str(pre) == escape_char(pre[0]) + escape_str(pre.skip(1)));
        assert(pre.skip(1) =~= Seq::<char>::empty());
        assert(escape_str(s.subrange(0, 0)) =~= Seq::<char>::empty());
        assert(escape_str(pre) =~= escape_str(s.subrange(0, 0)) + escape_char(s[0]));
    } else {
        let t = s.skip(1);
        lemma_escape_str_snoc(t, i - 1);
        assert(t.subrange(0, i - 1) =~= pre.skip(1));
        assert(t.subrange(0, i - 2) =~= s.subrange(0, i - 1).skip(1));
        assert(t[i - 2] == s[i - 1]);
        assert(escape_str(pre) == escape_char(s[0]) + escape_str(pre.skip(1)));
        assert(escape_str(s.subrange(0, i - 1)) == escape_char(s[0]) + escape_str(
            s.subrange(0, i - 1).skip(1),
        ));
        assert(escape_str(pre) =~= escape_str(s.subrange(0, i - 1)) + escape_char(s[i - 1]));
    }
}

/// Parses the contents of a quoted string starting right after the opening
/// quote: the unescaped text and the position right after the closing quote.
pub open spec fn unescape_parse(s: Seq<char>, i: int) -> Option<(Seq<char>, int)>
    decreases s.len() - i,
{
    if i < 0 || i >= s.len() {
        None
    } else if s[i] == '"' {
        Some((Seq::<char>::empty(), i + 1))
    } else if s[i] == '\\' {
        if i + 1 < s.len() {
            match unescape_parse(s, i + 2) {
                Option::Some(p) => Some((seq![s[i + 1]] + p.0, p.1)),
                Option::None => None,
            }
        } else {
            None
        }
    } else {
        match unescape_parse(s, i + 1) {
            Option::Some(p) => Some((seq![s[i]] + p.0, p.1)),
            Option::None => None,
        }
    }
}

/// A successful string parse always lands inside the buffer, past where it
/// began.
pub proof fn lemma_unescape_parse_bounds(s: Seq<char>, i: int)
    requires
        0 <= i <= s.len(),
        unescape_parse(s, i) is Some,
    ensures
        i < unescape_parse(s, i)->Some_0.1 <= s.len(),
    decreases s.len() - i,
{
    if i < s.len() && s[i] == '"' {
    } else if i < s.len() && s[i] == '\\' && i + 1 < s.len() {
        lemma_unescape_parse_bounds(s, i + 2);
    } else if i < s.len() && s[i] != '\\' {
        lemma_unescape_parse_bounds(s, i + 1);
    }
}

/// Round trip of string escaping: where a buffer holds the escaped form of
/// a text followed by a closing quote, parsing yields exactly that text and
/// stops right after the quote.
pub proof fn lemma_unescape_escape(buf: Seq<char>, i: int, s: Seq<char>)
    requires
        0 <= i,
        i + escape_str(s).len() + 1 <= buf.len(),
        buf.subrange(i, i + escape_str(s).len()) == escape_str(s),
        buf[i + escape_str(s).len()] == '"',
    ensures
        unescape_parse(buf, i) == Some((s, i + escape_str(s).len() + 1)),
    decreases s.len(),
{
    if s.len() == 0 {
        assert(escape_str(s).len() == 0);
        assert(buf[i] == '"');
    } else {
        let c = s[0];
        let rest = s.skip(1);
        let esc = escape_str(s);
        assert(esc == escape_char(c) + escape_str(rest));
        let erest = escape_str(rest);
        if c == '"' || c == '\\' {
            assert(esc[0] == '\\' && esc[1] == c);
            assert(buf[i] == '\\');
            assert(buf[i + 1] == c);
            assert(buf.subrange(i + 2, i + 2 + erest.len()) =~= erest) by {
                assert(forall|j: int|
                    0 <= j < erest.len() ==> buf.subrange(i, i + esc.len())[j + 2] == esc[j + 2]
                        && esc[j + 2] == erest[j]);
            }
            lemma_unescape_escape(buf, i + 2, rest);
            assert(unescape_parse(buf, i) == Some(
                (seq![c] + rest, i + esc.len() + 1),
            ));
            assert(seq![c] + rest =~= s);
        } else {
            assert(esc[0] == c);
            assert(buf[i] == c);
            assert(c != '"' && c != '\\');
            assert(buf.subrange(i + 1, i + 1 + erest.len()) =~= erest) by {
                assert(forall|j: int|
                    0 <= j < erest.len() ==> buf.subrange(i, i + esc.len())[j + 1] == esc[j + 1]
                        && esc[j + 1] == erest[j]);
            }
            lemma_unescape_escape(buf, i + 1, rest);
            assert(seq![c] + rest =~= s);
        }
    }
}

spec fn prepend_parsed(p: Seq<char>, o: Option<(Seq<char>, int)>) -> Option<(Seq<char>, int)> {
    match o {
        Option::Some(q) => Some((p + q.0, q.1)),
        Option::None => None,
    }
}

/// Parses a quoted string in a character buffer, starting right after the
/// opening quote.
pub fn parse_string_at(v: &Vec<char>, from: usize) -> (r: Option<(Vec<char>, usize)>)
    requires
        from <= v@.len(),
    ensures
        match r {
            Option::Some(p) => unescape_parse(v@, from as int) == Some((p.0@, p.1 as int))
                && from < p.1 <= v@.len(),
            Option::None => unescape_parse(v@, from as int) is None,
        },
{
    let mut out: Vec<char> = Vec::new();
    let mut i: usize = from;
    loop
        invariant
            from <= i <= v@.len(),
            prepend_parsed(out@, unescape_parse(v@, i as int)) == unescape_parse(
                v@,
                from as int,
            ),
        decreases v@.len() - i,
    {
        if i >= v.len() {
            return None;
        }
        let c = v[i];
        if c == '"' {
            proof {
                assert(out@ + Seq::<char>::empty() =~= out@);
                lemma_unescape_parse_bounds(v@, from as int);
            }
            return Some((out, i + 1));
        }
        if c == '\\' {
            if i + 1 >= v.len() {
                return None;
            }
            let lit = v[i + 1];
            out.push(lit);
            proof {
                lemma_prepend_assoc(out@.drop_last(), lit, unescape_parse(v@, i + 2));
                assert(out@.drop_last().push(lit) =~= out@);
            }
            i += 2;
        } else {
            out.push(c);
            proof {
                lemma_prepend_assoc(out@.drop_last(), c, unescape_parse(v@, i + 1));
                assert(out@.drop_last().push(c) =~= out@);
            }
            i += 1;
        }
    }
}

proof fn lemma_prepend_assoc(p: Seq<char>, c: char, o: Option<(Seq<char>, int)>)
    ensures
        prepend_parsed(p, prepend_parsed(seq![c], o)) == prepend_parsed(p.push(c), o),
{
    match o {
        Option::Some(q) => {
            assert(p + (seq![c] + q.0) =~= p.push(c) + q.0);
        },
        Option::None => {},
    }
}

/// A segment of a buffer whose characters match a part, index by index, is
/// that part.
pub proof fn lemma_seq_segment(buf: Seq<char>, off: int, part: Seq<char>)
    requires
        0 <= off,
        off + part.len() <= buf.len(),
        forall|k: int| 0 <= k < part.len() ==> buf[off + k] == part[k],
    ensures
        buf.subrange(off, off + part.len()) == part,
{
    assert(buf.subrange(off, off + part.len()) =~= part);
}

/// Whether the given literal stands in `s` at position `i`.
pub open spec fn lit_at(s: Seq<char>, i: int, lit: Seq<char>) -> bool {
    0 <= i && i + lit.len() <= s.len() && s.subrange(i, i + lit.len()) == lit
}

/// Checks that a literal stands at the given position, returning the
/// position right after it.
pub fn expect_lit(v: &Vec<char>, from: usize, lit: &str) -> (r: Option<usize>)
    requires
        from <= v@.len(),
    ensures
        match r {
            Option::Some(e) => lit_at(v@, from as int, lit@) && e == from + lit@.len() && e <= v@.len(),
            Option::None => !lit_at(v@, from as int, lit@),
        },
{
    let n = vstd::string::StrSliceExecFns::unicode_len(lit);
    let vn = v.len();
    if n > vn - from {
        proof {
            assert(!lit_at(v@, from as int, lit@));
        }
        return None;
    }
    let mut i: usize = 0;
    while i < n
        invariant
            i <= n,
            n == lit@.len(),
            vn == v@.len(),
            from + n <= vn,
            forall|j: int| 0 <= j < i ==> v@[from + j] == lit@[j],
        decreases n - i,
    {
        if v[from + i] != vstd::string::StrSliceExecFns::get_char(lit, i) {
            proof {
                assert(v@.subrange(from as int, from + n) != lit@) by {
                    if v@.subrange(from as int, from + n) == lit@ {
                        assert(v@.subrange(from as int, from + n)[i as int] == lit@[i as int]);
                        assert(v@[from + i] == lit@[i as int]);
                    }
                }
            }
            return None;
        }
        i += 1;
    }
    proof {
        assert(v@.subrange(from as int, from + n) =~= lit@);
    }
    Some(from + n)
}

/// Skips the run of digits starting at `from`.
pub fn skip_digits(v: &Vec<char>, from: usize) -> (r: usize)
    requires
        from <= v@.len(),
    ensures
        r == digits_end(v@, from as int),
        from <= r <= v@.len(),
{
    let mut i: usize = from;
    while i < v.len() && crate::textnum::digit_of(v[i]).is_some()
        invariant
            from <= i <= v@.len(),
            forall|j: int| from <= j < i ==> is_dec_digit(v@[j]),
            digits_end(v@, from as int) == digits_end(v@, i as int),
        decreases v@.len() - i,
    {
        i += 1;
    }
    proof {
        lemma_digits_end_of_run(v@, i as int, i as int);
    }
    i
}

/// The signed number the digit run (with an optional leading minus sign) at
/// `i` denotes, when it fits the signed range: its value and the position
/// right after it.
pub open spec fn parse_i64_spec(s: Seq<char>, i: int) -> Option<(int, int)> {
    if 0 <= i < s.len() && s[i] == '-' {
        let e = digits_end(s, i + 1);
        if e <= i + 1 || e > s.len() {
            None
        } else {
            let m = parsed_nat(s, i + 1);
            if m > 0x8000_0000_0000_0000 {
                None
            } else {
                Some((-(m as int), e))
            }
        }
    } else if 0 <= i < s.len() {
        let e = digits_end(s, i);
        if e <= i || e > s.len() {
            None
        } else {
            let m = parsed_nat(s, i);
            if m > i64::MAX {
                None
            } else {
                Some((m as int, e))
            }
        }
    } else {
        None
    }
}

/// Parses a signed decimal number.
pub fn parse_i64_at(v: &Vec<char>, from: usize) -> (r: Option<(i64, usize)>)
    requires
        from <= v@.len(),
    ensures
        match r {
            Option::Some(p) => parse_i64_spec(v@, from as int) == Some((p.0 as int, p.1 as int))
                && from < p.1 <= v@.len(),
            Option::None => parse_i64_spec(v@, from as int) is None,
        },
{
    if from >= v.len() {
        return None;
    }
    if v[from] == '-' {
        match parse_u64_at(v, from + 1) {
            Option::Some((m, e)) => {
                proof {
                    crate::textnum::lemma_digits_end_bounds(v@, from + 1);
                }
                if m > 0x8000_0000_0000_0000 {
                    return None;
                }
                let value: i64 = (-(m as i128)) as i64;
                Some((value, e))
            },
            Option::None => {
                proof {
                    crate::textnum::lemma_digits_end_bounds(v@, from + 1);
                }
                None
            },
        }
    } else {
        match parse_u64_at(v, from) {
            Option::Some((m, e)) => {
                proof {
                    crate::textnum::lemma_digits_end_bounds(v@, from as int);
                }
                if m > i64::MAX as u64 {
                    return None;
                }
                Some((m as i64, e))
            },
            Option::None => {
                proof {
                    crate::textnum::lemma_digits_end_bounds(v@, from as int);
                }
                None
            },
        }
    }
}

/// Round trip of signed-number rendering: where a buffer holds the decimal
/// rendering of a signed value followed by a non-digit, parsing yields that
/// value and stops right after the digits.
pub proof fn lemma_parse_render_i64(buf: Seq<char>, i: int, n: int)
    requires
        i64::MIN <= n <= i64::MAX,
        0 <= i,
        i + dec_chars_signed(n).len() < buf.len(),
        buf.subrange(i, i + dec_chars_signed(n).len()) == dec_chars_signed(n),
        !is_dec_digit(buf[i + dec_chars_signed(n).len()]),
        buf[i + dec_chars_signed(n).len()] != '-',
    ensures
        parse_i64_spec(buf, i) == Some((n, i + dec_chars_signed(n).len())),
{
    let rendered = dec_chars_signed(n);
    let len = rendered.len() as int;
    let sr = buf.subrange(i, i + len);
    assert(forall|k: int| 0 <= k < len ==> buf[i + k] == #[trigger] sr[k]);
    if n < 0 {
        let m = (-n) as nat;
        let digits = dec_chars(m);
        lemma_dec_chars_digits(m);
        lemma_dec_chars_val(m);
        assert(rendered == seq!['-'] + digits);
        assert(forall|k: int| 1 <= k < len ==> (seq!['-'] + digits)[k] == digits[k - 1]);
        assert(buf[i] == '-') by {
            assert(buf[i + 0] == sr[0]);
        }
        let e = i + 1 + digits.len();
        assert forall|j: int| i + 1 <= j < e implies is_dec_digit(buf[j]) by {
            let k = j - i;
            assert(buf[i + k] == sr[k]);
            assert(sr[k] == digits[k - 1]);
            assert(is_dec_digit(digits[k - 1]));
        }
        lemma_digits_end_of_run(buf, i + 1, e);
        assert forall|k: int| 0 <= k < digits.len() implies buf.subrange(i + 1, e)[k] == digits[k]
        by {
            assert(buf.subrange(i + 1, e)[k] == buf[i + 1 + k]);
            assert(buf[i + (k + 1)] == sr[k + 1]);
            assert(sr[k + 1] == digits[k]);
        }
        assert(buf.subrange(i + 1, e) =~= digits);
        assert(parsed_nat(buf, i + 1) == m);
        assert(m <= 0x8000_0000_0000_0000);
    } else {
        let m = n as nat;
        let digits = dec_chars(m);
        lemma_dec_chars_digits(m);
        lemma_dec_chars_val(m);
        assert(rendered == digits);
        assert(buf[i] != '-') by {
            assert(buf[i + 0] == sr[0]);
            assert(is_dec_digit(digits[0]));
        }
        let e = i + digits.len();
        assert forall|j: int| i <= j < e implies is_dec_digit(buf[j]) by {
            let k = j - i;
            assert(buf[i + k] == sr[k]);
            assert(is_dec_digit(digits[k]));
        }
        lemma_digits_end_of_run(buf, i, e);
        assert(buf.subrange(i, e) =~= digits);
        assert(parsed_nat(buf, i) == m);
    }
}

} // verus!
