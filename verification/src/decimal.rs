//! Whole numbers as decimal text: what a run of digits stands for, how
//! signed and unsigned numbers are read, and how a number is written.

use vstd::prelude::*;
use vstd::string::*;

verus! {

/// Whether `c` is one of `0` to `9`.
pub open spec fn is_digit(c: char) -> bool {
    '0' <= c <= '9'
}

/// The number that the digit `c` stands for.
pub open spec fn digit_value(c: char) -> nat {
    (c as u32 - '0' as u32) as nat
}

/// The character that writes `d`, for `d` below ten.
pub open spec fn digit_char(d: nat) -> char {
    ('0' as u32 + d) as char
}

/// Whether `s` holds digits only.
pub open spec fn all_digits(s: Seq<char>) -> bool {
    forall|i: int| 0 <= i < s.len() ==> is_digit(#[trigger] s[i])
}

/// The number that the digits of `s` write in base ten; 0 for no digits.
pub open spec fn digits_value(s: Seq<char>) -> nat
    decreases s.len(),
{
    if s.len() == 0 {
        0
    } else {
        10 * digits_value(s.drop_last()) + digit_value(s.last())
    }
}

/// `s` without a leading `+`.
pub open spec fn without_plus(s: Seq<char>) -> Seq<char> {
    if s.len() > 0 && s[0] == '+' {
        s.drop_first()
    } else {
        s
    }
}

/// The number that `s` writes as an optional `+` and one or more digits.
pub open spec fn unsigned_value(s: Seq<char>) -> Option<nat> {
    let body = without_plus(s);
    if body.len() > 0 && all_digits(body) {
        Some(digits_value(body))
    } else {
        None
    }
}

/// The number that `s` writes as an optional `+` or `-` and one or more
/// digits.
pub open spec fn signed_value(s: Seq<char>) -> Option<int> {
    if s.len() > 0 && s[0] == '-' {
        let body = s.drop_first();
        if body.len() > 0 && all_digits(body) {
            Some(-(digits_value(body) as int))
        } else {
            None
        }
    } else {
        match unsigned_value(s) {
            Some(n) => Some(n as int),
            None => None,
        }
    }
}

/// The number of digits that `s` starts with.
pub open spec fn leading_digits(s: Seq<char>) -> nat
    decreases s.len(),
{
    if s.len() == 0 || !is_digit(s.first()) {
        0
    } else {
        1 + leading_digits(s.drop_first())
    }
}

/// `n` written in base ten without leading zeros.
pub open spec fn decimal(n: nat) -> Seq<char>
    decreases n,
{
    if n < 10 {
        seq![digit_char(n)]
    } else {
        decimal(n / 10).push(digit_char(n % 10))
    }
}

/// One more digit at the end: ten times the value, plus the digit.
proof fn lemma_digits_value_push(s: Seq<char>, from: int, to: int)
    requires
        0 <= from <= to < s.len(),
    ensures
        digits_value(s.subrange(from, to + 1)) == 10 * digits_value(s.subrange(from, to))
            + digit_value(s[to]),
{
    let t = s.subrange(from, to + 1);
    assert(t.drop_last() =~= s.subrange(from, to));
    assert(t.last() == s[to]);
}

/// Digits from the start up to something that is no digit, or the end, are
/// the leading digits.
pub(crate) proof fn lemma_leading_digits_is(s: Seq<char>, n: int)
    requires
        0 <= n <= s.len(),
        forall|i: int| 0 <= i < n ==> is_digit(#[trigger] s[i]),
        n < s.len() ==> !is_digit(s[n]),
    ensures
        leading_digits(s) == n,
    decreases n,
{
    if n > 0 {
        let t = s.drop_first();
        assert forall|i: int| 0 <= i < n - 1 implies is_digit(#[trigger] t[i]) by {
            assert(t[i] == s[i + 1]);
        }
        lemma_leading_digits_is(t, n - 1);
    }
}

/// Whether `c` is a digit.
pub fn char_is_digit(c: char) -> (r: bool)
    ensures
        r == is_digit(c),
{
    '0' <= c && c <= '9'
}

/// The number that the digit `c` stands for.
pub(crate) fn digit_of(c: char) -> (d: u8)
    requires
        is_digit(c),
    ensures
        d == digit_value(c),
        d <= 9,
{
    (c as u32 - '0' as u32) as u8
}

/// The end of the run of digits of `s` that starts at `from`, with the value
/// of the run, which is `cap` where the digits write more than that.
pub(crate) fn scan_digits(s: &[char], from: usize, cap: u128) -> (r: (usize, u128))
    requires
        from <= s.len(),
        cap <= u128::MAX / 16,
    ensures
        from <= r.0 <= s.len(),
        forall|i: int| from <= i < r.0 ==> is_digit(#[trigger] s@[i]),
        r.0 < s.len() ==> !is_digit(s@[r.0 as int]),
        r.1 as nat == vstd::math::min(
            digits_value(s@.subrange(from as int, r.0 as int)) as int,
            cap as int,
        ),
{
    let mut to: usize = from;
    let mut value: u128 = 0;
    proof {
        assert(s@.subrange(from as int, from as int) =~= Seq::<char>::empty());
    }
    while to < s.len() && char_is_digit(s[to])
        invariant
            from <= to <= s.len(),
            cap <= u128::MAX / 16,
            forall|i: int| from <= i < to ==> is_digit(#[trigger] s@[i]),
            value as nat == vstd::math::min(
                digits_value(s@.subrange(from as int, to as int)) as int,
                cap as int,
            ),
        decreases s.len() - to,
    {
        let d: u128 = digit_of(s[to]) as u128;
        proof {
            lemma_digits_value_push(s@, from as int, to as int);
        }
        let next: u128 = value * 10 + d;
        value = if next > cap { cap } else { next };
        to += 1;
    }
    (to, value)
}

/// A run of digits from `from` that stops at `end` is all of the text from
/// `from` on exactly where `end` is the end of the text.
pub(crate) proof fn lemma_all_digits_from(s: Seq<char>, from: int, end: int)
    requires
        0 <= from <= end <= s.len(),
        forall|i: int| from <= i < end ==> is_digit(#[trigger] s[i]),
        end < s.len() ==> !is_digit(s[end]),
    ensures
        all_digits(s.subrange(from, s.len() as int)) <==> end == s.len(),
{
    let rest = s.subrange(from, s.len() as int);
    if end == s.len() {
        assert forall|i: int| 0 <= i < rest.len() implies is_digit(#[trigger] rest[i]) by {
            assert(rest[i] == s[from + i]);
        }
    } else {
        assert(rest[end - from] == s[end]);
    }
}

/// Reads an unsigned number of at most eight bits: an optional `+`, then
/// digits. `None` where `s` is no such text or the number does not fit.
pub fn parse_u8(s: &[char]) -> (r: Option<u8>)
    ensures
        r == match unsigned_value(s@) {
            Some(n) => if n <= u8::MAX { Some(n as u8) } else { None },
            None => None,
        },
{
    let start: usize = if s.len() > 0 && s[0] == '+' { 1 } else { 0 };
    let (end, value) = scan_digits(s, start, 256);
    proof {
        assert(without_plus(s@) =~= s@.subrange(start as int, s.len() as int));
        lemma_all_digits_from(s@, start as int, end as int);
    }
    if end == s.len() && end > start && value <= 255 {
        Some(value as u8)
    } else {
        None
    }
}

/// Reads a signed number of at most 64 bits: an optional `+` or `-`, then
/// digits. `None` where `s` is no such text or the number does not fit.
pub fn parse_i64(s: &[char]) -> (r: Option<i64>)
    ensures
        r == match signed_value(s@) {
            Some(n) => if i64::MIN <= n <= i64::MAX { Some(n as i64) } else { None },
            None => None,
        },
{
    let negative: bool = s.len() > 0 && s[0] == '-';
    let start: usize = if s.len() > 0 && (s[0] == '+' || s[0] == '-') { 1 } else { 0 };
    let (end, value) = scan_digits(s, start, 0x8000_0000_0000_0001);
    proof {
        if negative {
            assert(s@.drop_first() =~= s@.subrange(start as int, s.len() as int));
        } else {
            assert(without_plus(s@) =~= s@.subrange(start as int, s.len() as int));
        }
        lemma_all_digits_from(s@, start as int, end as int);
    }
    if end != s.len() || end == start {
        None
    } else if negative {
        if value <= 0x8000_0000_0000_0000 {
            Some((-(value as i128)) as i64)
        } else {
            None
        }
    } else if value <= 0x7fff_ffff_ffff_ffff {
        Some(value as i64)
    } else {
        None
    }
}

/// The text that writes the digit `d`.
pub(crate) fn digit_text(d: u8) -> (s: &'static str)
    requires
        d <= 9,
    ensures
        s@ == seq![digit_char(d as nat)],
{
    proof {
        reveal_strlit("0");
        reveal_strlit("1");
        reveal_strlit("2");
        reveal_strlit("3");
        reveal_strlit("4");
        reveal_strlit("5");
        reveal_strlit("6");
        reveal_strlit("7");
        reveal_strlit("8");
        reveal_strlit("9");
    }
    let s = match d {
        0 => "0",
        1 => "1",
        2 => "2",
        3 => "3",
        4 => "4",
        5 => "5",
        6 => "6",
        7 => "7",
        8 => "8",
        _ => "9",
    };
    proof {
        assert(s@ =~= seq![digit_char(d as nat)]);
    }
    s
}

/// Writes `n` in base ten at the end of `out`.
pub fn push_decimal(out: &mut String, n: u128)
    ensures
        final(out)@ == old(out)@ + decimal(n as nat),
    decreases n,
{
    if n >= 10 {
        push_decimal(out, n / 10);
    }
    out.append(digit_text((n % 10) as u8));
    proof {
        if n >= 10 {
            assert(old(out)@ + decimal(n as nat) =~= old(out)@ + decimal((n / 10) as nat)
                + seq![digit_char((n % 10) as nat)]);
        } else {
            assert(old(out)@ + decimal(n as nat) =~= old(out)@ + seq![digit_char(n as nat)]);
        }
    }
}

} // verus!
