//! Decimal rendering and parsing of integers at the character level, with a
//! proved round trip: parsing the rendering of a number yields that number.

use vstd::prelude::*;
use vstd::arithmetic::div_mod::lemma_fundamental_div_mod;

verus! {

/// The decimal digit character for a value below ten.
pub open spec fn dec_digit(d: int) -> char {
    if d == 0 {
        '0'
    } else if d == 1 {
        '1'
    } else if d == 2 {
        '2'
    } else if d == 3 {
        '3'
    } else if d == 4 {
        '4'
    } else if d == 5 {
        '5'
    } else if d == 6 {
        '6'
    } else if d == 7 {
        '7'
    } else if d == 8 {
        '8'
    } else {
        '9'
    }
}

/// Whether a character is a decimal digit.
pub open spec fn is_dec_digit(c: char) -> bool {
    c == '0' || c == '1' || c == '2' || c == '3' || c == '4' || c == '5' || c == '6' || c == '7'
        || c == '8' || c == '9'
}

/// The value of a decimal digit character.
pub open spec fn digit_val(c: char) -> int {
    if c == '0' {
        0
    } else if c == '1' {
        1
    } else if c == '2' {
        2
    } else if c == '3' {
        3
    } else if c == '4' {
        4
    } else if c == '5' {
        5
    } else if c == '6' {
        6
    } else if c == '7' {
        7
    } else if c == '8' {
        8
    } else {
        9
    }
}

/// The decimal rendering of a natural number, most significant digit first.
pub open spec fn dec_chars(n: nat) -> Seq<char>
    decreases n,
{
    if n < 10 {
        seq![dec_digit(n as int)]
    } else {
        dec_chars(n / 10) + seq![dec_digit((n % 10) as int)]
    }
}

/// The decimal rendering of a signed number: a minus sign before the
/// magnitude when the number is negative.
pub open spec fn dec_chars_signed(n: int) -> Seq<char> {
    if n < 0 {
        seq!['-'] + dec_chars((-n) as nat)
    } else {
        dec_chars(n as nat)
    }
}

/// The number read by consuming the digit characters of `s` left to right
/// into the accumulator `acc`.
pub open spec fn dec_val_acc(s: Seq<char>, acc: nat) -> nat
    decreases s.len(),
{
    if s.len() == 0 {
        acc
    } else {
        dec_val_acc(s.skip(1), acc * 10 + digit_val(s[0]) as nat)
    }
}

/// Every character of a decimal rendering is a digit.
pub proof fn lemma_dec_chars_digits(n: nat)
    ensures
        dec_chars(n).len() >= 1,
        forall|i: int| 0 <= i < dec_chars(n).len() ==> is_dec_digit(#[trigger] dec_chars(n)[i]),
    decreases n,
{
    if n >= 10 {
        lemma_dec_chars_digits(n / 10);
    }
}

proof fn lemma_dec_val_acc_single(c: char, acc: nat)
    ensures
        dec_val_acc(seq![c], acc) == acc * 10 + digit_val(c),
{
    assert(seq![c].skip(1) =~= Seq::<char>::empty());
    assert(seq![c][0] == c);
    assert(dec_val_acc(Seq::<char>::empty(), acc * 10 + digit_val(c) as nat) == acc * 10
        + digit_val(c) as nat);
}

proof fn lemma_dec_val_acc_concat(s1: Seq<char>, s2: Seq<char>, acc: nat)
    ensures
        dec_val_acc(s1 + s2, acc) == dec_val_acc(s2, dec_val_acc(s1, acc)),
    decreases s1.len(),
{
    if s1.len() == 0 {
        assert(s1 + s2 =~= s2);
    } else {
        let acc2 = acc * 10 + digit_val(s1[0]) as nat;
        assert((s1 + s2).skip(1) =~= s1.skip(1) + s2);
        lemma_dec_val_acc_concat(s1.skip(1), s2, acc2);
    }
}

/// Reading back the decimal rendering of `n` from the accumulator `acc`
/// yields what appending the digits of `n` to `acc` means.
pub proof fn lemma_dec_chars_val(n: nat)
    ensures
        dec_val_acc(dec_chars(n), 0) == n,
    decreases n,
{
    if n < 10 {
        lemma_dec_val_acc_single(dec_digit(n as int), 0);
    } else {
        lemma_dec_chars_val(n / 10);
        let hi = dec_chars(n / 10);
        let lo = seq![dec_digit((n % 10) as int)];
        lemma_dec_val_acc_concat(hi, lo, 0);
        lemma_dec_val_acc_single(dec_digit((n % 10) as int), n / 10);
        lemma_fundamental_div_mod(n as int, 10);
    }
}

/// Reading digits never shrinks the accumulator.
proof fn lemma_dec_val_acc_mono(s: Seq<char>, acc: nat)
    ensures
        dec_val_acc(s, acc) >= acc,
    decreases s.len(),
{
    if s.len() > 0 {
        let acc2 = acc * 10 + digit_val(s[0]) as nat;
        assert(acc * 10 >= acc) by (nonlinear_arith);
        lemma_dec_val_acc_mono(s.skip(1), acc2);
    }
}

/// The position right after the run of digits that starts at `i`.
pub open spec fn digits_end(s: Seq<char>, i: int) -> int
    decreases s.len() - i,
{
    if i < 0 || i >= s.len() {
        i
    } else if is_dec_digit(s[i]) {
        digits_end(s, i + 1)
    } else {
        i
    }
}

pub proof fn lemma_digits_end_bounds(s: Seq<char>, i: int)
    requires
        0 <= i <= s.len(),
    ensures
        i <= digits_end(s, i) <= s.len(),
        forall|j: int| i <= j < digits_end(s, i) ==> is_dec_digit(s[j]),
        digits_end(s, i) == s.len() || !is_dec_digit(s[digits_end(s, i)]),
    decreases s.len() - i,
{
    if i < s.len() && is_dec_digit(s[i]) {
        lemma_digits_end_bounds(s, i + 1);
    }
}

/// A digit run followed by a non-digit ends exactly where the run does.
pub proof fn lemma_digits_end_of_run(s: Seq<char>, i: int, e: int)
    requires
        0 <= i <= e <= s.len(),
        forall|j: int| i <= j < e ==> is_dec_digit(s[j]),
        e == s.len() || !is_dec_digit(s[e]),
    ensures
        digits_end(s, i) == e,
    decreases e - i,
{
    if i < e {
        lemma_digits_end_of_run(s, i + 1, e);
    }
}

/// The number that the digit run starting at `i` denotes.
pub open spec fn parsed_nat(s: Seq<char>, i: int) -> nat {
    dec_val_acc(s.subrange(i, digits_end(s, i)), 0)
}

/// Parses the digit run starting at `from`: on success, the run's value and
/// the position right after it. Returns `None` when no digit stands at
/// `from`, or when the run's value does not fit in `u64`.
pub fn parse_u64_at(s: &Vec<char>, from: usize) -> (r: Option<(u64, usize)>)
    requires
        from <= s@.len(),
    ensures
        match r {
            Option::Some(p) => {
                &&& from < p.1 <= s@.len()
                &&& p.1 == digits_end(s@, from as int)
                &&& p.0 as nat == parsed_nat(s@, from as int)
            },
            Option::None => digits_end(s@, from as int) == from || parsed_nat(
                s@,
                from as int,
            ) > u64::MAX,
        },
{
    proof {
        lemma_digits_end_bounds(s@, from as int);
    }
    let ghost e = digits_end(s@, from as int);
    let ghost total = parsed_nat(s@, from as int);
    if from == s.len() || !digit_of(s[from]).is_some() {
        proof {
            lemma_digits_end_of_run(s@, from as int, from as int);
        }
        return None;
    }
    let mut i: usize = from;
    let mut acc: u64 = 0;
    while i < s.len() && digit_of(s[i]).is_some()
        invariant
            from <= i <= s@.len(),
            i <= e <= s@.len(),
            e == digits_end(s@, from as int),
            total == parsed_nat(s@, from as int),
            forall|j: int| from <= j < e ==> is_dec_digit(s@[j]),
            e == s@.len() || !is_dec_digit(s@[e as int]),
            i <= e,
            dec_val_acc(s@.subrange(i as int, e), acc as nat) == total,
            acc as nat == dec_val_acc(s@.subrange(from as int, i as int), 0),
        decreases s@.len() - i,
    {
        let d = match digit_of(s[i]) {
            Option::Some(d) => d,
            Option::None => {
                return None;
            },
        };
        proof {
            assert(i < e) by {
                if i == e {
                    assert(!is_dec_digit(s@[e as int]));
                }
            }
            let rest = s@.subrange(i as int, e);
            assert(rest[0] == s@[i as int]);
            assert(rest.skip(1) =~= s@.subrange(i + 1, e));
            assert(dec_val_acc(rest, acc as nat) == dec_val_acc(
                s@.subrange(i + 1, e),
                acc as nat * 10 + digit_val(s@[i as int]) as nat,
            ));
            lemma_dec_val_acc_mono(s@.subrange(i + 1, e), acc as nat * 10 + d as nat);
        }
        if acc > (u64::MAX - d as u64) / 10 {
            proof {
                assert(acc as nat * 10 + d as nat > u64::MAX) by (nonlinear_arith)
                    requires
                        acc as nat > (u64::MAX as nat - d as nat) / 10,
                        d < 10,
                ;
            }
            return None;
        }
        acc = acc * 10 + d as u64;
        i += 1;
        proof {
            let pre = s@.subrange(from as int, i as int);
            assert(pre.drop_last() =~= s@.subrange(from as int, i - 1));
            lemma_dec_val_acc_concat(pre.drop_last(), seq![pre.last()], 0);
            assert(pre.drop_last() + seq![pre.last()] =~= pre);
            lemma_dec_val_acc_single(pre.last(), dec_val_acc(pre.drop_last(), 0));
        }
    }
    proof {
        assert(i == e) by {
            if i < e {
                assert(is_dec_digit(s@[i as int]));
            }
        }
        assert(s@.subrange(i as int, e) =~= Seq::<char>::empty());
    }
    Some((acc, i))
}

/// The digit value of a character, when it is a decimal digit.
pub fn digit_of(c: char) -> (r: Option<u8>)
    ensures
        is_dec_digit(c) <==> (r matches Some(d) && d == digit_val(c) && d < 10),
        !is_dec_digit(c) ==> r is None,
{
    match c {
        '0' => Some(0),
        '1' => Some(1),
        '2' => Some(2),
        '3' => Some(3),
        '4' => Some(4),
        '5' => Some(5),
        '6' => Some(6),
        '7' => Some(7),
        '8' => Some(8),
        '9' => Some(9),
        _ => None,
    }
}

/// The digit character for a value below ten.
pub fn digit_char(d: u8) -> (r: char)
    requires
        d < 10,
    ensures
        r == dec_digit(d as int),
{
    match d {
        0 => '0',
        1 => '1',
        2 => '2',
        3 => '3',
        4 => '4',
        5 => '5',
        6 => '6',
        7 => '7',
        8 => '8',
        _ => '9',
    }
}

/// Appends the decimal rendering of `n` to `out`.
pub fn push_u64(out: &mut Vec<char>, n: u64)
    ensures
        final(out)@ == old(out)@ + dec_chars(n as nat),
    decreases n,
{
    if n < 10 {
        out.push(digit_char(n as u8));
        proof {
            assert(final(out)@ =~= old(out)@ + dec_chars(n as nat));
        }
    } else {
        push_u64(out, n / 10);
        proof {
            lemma_fundamental_div_mod(n as int, 10);
        }
        out.push(digit_char((n % 10) as u8));
        proof {
            assert(final(out)@ =~= old(out)@ + dec_chars(n as nat));
        }
    }
}

/// Appends the decimal rendering of the signed `n` to `out`.
pub fn push_i64(out: &mut Vec<char>, n: i64)
    ensures
        final(out)@ == old(out)@ + dec_chars_signed(n as int),
{
    if n < 0 {
        out.push('-');
        let m: u64 = (-(n as i128)) as u64;
        push_u64(out, m);
        proof {
            assert(final(out)@ =~= old(out)@ + dec_chars_signed(n as int));
        }
    } else {
        push_u64(out, n as u64);
    }
}

/// The decimal rendering of `n` as a string.
pub fn u64_to_string(n: u64) -> (r: String)
    ensures
        r@ == dec_chars(n as nat),
{
    let mut v: Vec<char> = Vec::new();
    push_u64(&mut v, n);
    crate::strutil::chars_to_string(&v)
}

} // verus!
