//! Numbers with a fraction, read in hundredths. The text is what a decimal
//! number is commonly written as: an optional sign, digits with an optional
//! point, an optional exponent after `e`; or one of the words `inf`,
//! `infinity` and `nan`. The number is taken exactly, cut off after its
//! second decimal place, and held between 0 and the largest `u32`.

use crate::decimal::{
    all_digits, digits_value, is_digit, leading_digits, lemma_all_digits_from,
    lemma_leading_digits_is, scan_digits, signed_value, without_plus,
};
use crate::text::{same_text, to_chars};
use vstd::prelude::*;
use vstd::slice::slice_subrange;

verus! {

/// Exponents are read exactly up to this size, which is more than any text
/// has digits; past it, only their sign counts.
const EXPONENT_LIMIT: i128 = 0x10_0000_0000_0000_0000_0000_0000;

/// Ten to the power `n`.
pub open spec fn pow10(n: nat) -> nat
    decreases n,
{
    if n == 0 {
        1
    } else {
        10 * pow10((n - 1) as nat)
    }
}

/// The number that the first `keep` of `digits` write, where the digits
/// that `digits` lacks count as zeros.
pub open spec fn shifted_value(digits: Seq<char>, keep: int) -> nat {
    if keep <= 0 {
        0
    } else if keep <= digits.len() {
        digits_value(digits.take(keep))
    } else {
        digits_value(digits) * pow10((keep - digits.len()) as nat)
    }
}

/// `c` in lower case, where it is one of `A` to `Z`.
pub open spec fn lower_case(c: char) -> char {
    if 'A' <= c <= 'Z' {
        (c as u32 + 32) as char
    } else {
        c
    }
}

/// `s` with its letters from `A` to `Z` in lower case.
pub open spec fn lowered(s: Seq<char>) -> Seq<char> {
    Seq::new(s.len(), |i: int| lower_case(s[i]))
}

/// Whether `s` starts with `+` or `-`.
pub open spec fn has_sign(s: Seq<char>) -> bool {
    s.len() > 0 && (s[0] == '+' || s[0] == '-')
}

/// `s` without a leading `+` or `-`.
pub open spec fn without_sign(s: Seq<char>) -> Seq<char> {
    if has_sign(s) {
        s.drop_first()
    } else {
        s
    }
}

/// `x`, held between `-limit` and `limit`.
spec fn held(x: int, limit: int) -> int {
    if x > limit {
        limit
    } else if x < -limit {
        -limit
    } else {
        x
    }
}

/// `n`, or the largest `u32` where `n` is more than that.
pub open spec fn saturated(n: nat) -> u32 {
    if n <= u32::MAX {
        n as u32
    } else {
        u32::MAX
    }
}

/// The hundredths in the number that `body` writes without a sign: digits,
/// optionally a point and more digits, with a digit on at least one side of
/// the point, and optionally `e` or `E` and a signed exponent. With `w`
/// digits before the point and the exponent `x`, the hundredths are what
/// the first `w + x + 2` digits write.
pub open spec fn number_hundredths(body: Seq<char>) -> Option<nat> {
    let w = leading_digits(body) as int;
    let tail = body.skip(w);
    let pointed = tail.len() > 0 && tail[0] == '.';
    let after_point = if pointed { tail.skip(1) } else { tail };
    let f = if pointed { leading_digits(after_point) as int } else { 0 };
    let rest = after_point.skip(f);
    let digits = body.take(w) + after_point.take(f);
    if w + f == 0 {
        None
    } else if rest.len() == 0 {
        Some(shifted_value(digits, w + 2))
    } else if rest[0] == 'e' || rest[0] == 'E' {
        match signed_value(rest.skip(1)) {
            Some(x) => Some(shifted_value(digits, w + x + 2)),
            None => None,
        }
    } else {
        None
    }
}

/// The hundredths that `s` stands for, between 0 and the largest `u32`:
/// 0 for a negative number and for `nan`, the largest for `inf` and
/// `infinity` and for a number past it. The three words count in any mix of
/// upper and lower case. `None` where `s` is no such text.
pub open spec fn hundredths_value(s: Seq<char>) -> Option<u32> {
    let negative = s.len() > 0 && s[0] == '-';
    let body = without_sign(s);
    let word = lowered(body);
    if word == "inf"@ || word == "infinity"@ {
        Some(if negative { 0u32 } else { u32::MAX })
    } else if word == "nan"@ {
        Some(0u32)
    } else {
        match number_hundredths(body) {
            Some(n) => Some(if negative { 0u32 } else { saturated(n) }),
            None => None,
        }
    }
}

/// A power of ten is at least 1, and grows with its exponent.
proof fn lemma_pow10_grows(a: nat, b: nat)
    requires
        a <= b,
    ensures
        1 <= pow10(a) <= pow10(b),
    decreases b,
{
    if b > 0 {
        if a < b {
            lemma_pow10_grows(a, (b - 1) as nat);
        } else {
            lemma_pow10_grows((a - 1) as nat, (b - 1) as nat);
        }
    }
}

/// Ten zeros behind a number that is not 0 take it past the largest `u32`.
proof fn lemma_many_zeros(value: nat, zeros: nat)
    requires
        zeros >= 10,
    ensures
        value == 0 ==> value * pow10(zeros) == 0,
        value > 0 ==> value * pow10(zeros) > u32::MAX,
{
    lemma_pow10_grows(10, zeros);
    assert(pow10(10) == 10_000_000_000) by {
        reveal_with_fuel(pow10, 11);
    }
    let p = pow10(zeros);
    assert(value == 0 ==> value * p == 0) by (nonlinear_arith);
    assert(value > 0 && p >= 10_000_000_000 ==> value * p >= 10_000_000_000) by (nonlinear_arith);
}

/// An exponent past the limit gives what the limit gives: 0 or the largest
/// `u32`.
proof fn lemma_far_exponent(digits: Seq<char>, whole: int, x: int)
    requires
        0 <= whole <= digits.len() <= usize::MAX,
    ensures
        saturated(shifted_value(digits, whole + x + 2)) == saturated(
            shifted_value(digits, whole + held(x, EXPONENT_LIMIT as int) + 2),
        ),
{
    if x > EXPONENT_LIMIT {
        let near = whole + EXPONENT_LIMIT + 2 - digits.len();
        let far = whole + x + 2 - digits.len();
        lemma_many_zeros(digits_value(digits), near as nat);
        lemma_many_zeros(digits_value(digits), far as nat);
    }
}

/// What an unsigned number stands for, by where its parts lie: digits up to
/// `point`, the fraction from `fraction` to `end`, and the exponent from
/// `end` on.
proof fn lemma_number_by_parts(body: Seq<char>, point: int, fraction: int, end: int)
    requires
        0 <= point <= fraction <= end <= body.len(),
        forall|i: int| 0 <= i < point ==> is_digit(#[trigger] body[i]),
        point < body.len() ==> !is_digit(body[point]),
        fraction == if point < body.len() && body[point] == '.' { point + 1 } else { point },
        forall|i: int| fraction <= i < end ==> is_digit(#[trigger] body[i]),
        end < body.len() ==> !is_digit(body[end]),
    ensures
        number_hundredths(body) == {
            let digits = body.subrange(0, point) + body.subrange(fraction, end);
            if point + end - fraction == 0 {
                None
            } else if end == body.len() {
                Some(shifted_value(digits, point + 2))
            } else if body[end] == 'e' || body[end] == 'E' {
                match signed_value(body.subrange(end + 1, body.len() as int)) {
                    Some(x) => Some(shifted_value(digits, point + x + 2)),
                    None => None,
                }
            } else {
                None
            }
        },
{
    lemma_leading_digits_is(body, point);
    let tail = body.skip(point);
    let pointed = tail.len() > 0 && tail[0] == '.';
    if point < body.len() {
        assert(tail[0] == body[point]);
    }
    let after_point = if pointed { tail.skip(1) } else { tail };
    assert(after_point =~= body.skip(fraction));
    if pointed {
        assert forall|i: int| 0 <= i < end - fraction implies is_digit(
            #[trigger] after_point[i],
        ) by {
            assert(after_point[i] == body[fraction + i]);
        }
        if end < body.len() {
            assert(after_point[end - fraction] == body[end]);
        }
        lemma_leading_digits_is(after_point, end - fraction);
    }
    let f = end - fraction;
    let rest = after_point.skip(f);
    assert(rest =~= body.skip(end));
    assert(body.take(point) =~= body.subrange(0, point));
    assert(after_point.take(f) =~= body.subrange(fraction, end));
    if end < body.len() {
        assert(rest[0] == body[end]);
        assert(rest.skip(1) =~= body.subrange(end + 1, body.len() as int));
    }
}

/// `s` with its letters from `A` to `Z` in lower case.
fn lower(s: &[char]) -> (v: Vec<char>)
    ensures
        v@ == lowered(s@),
{
    let mut v: Vec<char> = Vec::new();
    let mut i: usize = 0;
    while i < s.len()
        invariant
            i <= s.len(),
            v@ == lowered(s@).take(i as int),
        decreases s.len() - i,
    {
        let c = s[i];
        let small = if 'A' <= c && c <= 'Z' { (c as u8 + 32) as char } else { c };
        v.push(small);
        proof {
            assert(lowered(s@).take(i + 1) =~= lowered(s@).take(i as int).push(
                lower_case(s@[i as int]),
            ));
        }
        i += 1;
    }
    proof {
        assert(lowered(s@).take(s.len() as int) =~= lowered(s@));
    }
    v
}

/// Whether `s` is `word`.
fn is_word(s: &[char], word: &str) -> (r: bool)
    ensures
        r == (s@ == word@),
{
    let chars = to_chars(word);
    same_text(s, chars.as_slice())
}

/// Reads an exponent: an optional sign, then digits. One past the limit
/// reads as the limit.
fn parse_exponent(s: &[char]) -> (r: Option<i128>)
    ensures
        r == match signed_value(s@) {
            Some(x) => Some(held(x, EXPONENT_LIMIT as int) as i128),
            None => None,
        },
{
    let negative: bool = s.len() > 0 && s[0] == '-';
    let start: usize = if s.len() > 0 && (s[0] == '+' || s[0] == '-') { 1 } else { 0 };
    let (end, size) = scan_digits(s, start, EXPONENT_LIMIT as u128);
    proof {
        if negative {
            assert(s@.drop_first() =~= s@.subrange(start as int, s.len() as int));
        } else {
            assert(without_plus(s@) =~= s@.subrange(start as int, s.len() as int));
        }
        lemma_all_digits_from(s@, start as int, end as int);
    }
    if end != s.len() || end == start {
        None
    } else if negative {
        Some(-(size as i128))
    } else {
        Some(size as i128)
    }
}

/// What the first `keep` of `digits` write, with zeros for those that are
/// lacking, and the largest `u32` where that is more.
fn shifted(digits: &[char], keep: i128) -> (r: u32)
    requires
        all_digits(digits@),
    ensures
        r == saturated(shifted_value(digits@, keep as int)),
{
    if keep <= 0 {
        return 0;
    }
    if keep <= digits.len() as i128 {
        let front = slice_subrange(digits, 0, keep as usize);
        let (end, value) = scan_digits(front, 0, 0xffff_ffff);
        proof {
            assert(front@ =~= digits@.take(keep as int));
            assert(end == front.len()) by {
                if end < front.len() {
                    assert(front@[end as int] == digits@[end as int]);
                }
            }
            assert(front@.subrange(0, end as int) =~= front@);
        }
        return value as u32;
    }
    let (end, first) = scan_digits(digits, 0, 0xffff_ffff);
    proof {
        assert(digits@.subrange(0, end as int) =~= digits@);
    }
    let ghost target = shifted_value(digits@, keep as int);
    let mut value: u128 = first;
    let mut zeros: i128 = keep - digits.len() as i128;
    proof {
        let exact = digits_value(digits@);
        let p = pow10(zeros as nat);
        lemma_pow10_grows(0, zeros as nat);
        assert(exact > u32::MAX && p >= 1 ==> exact * p > u32::MAX) by (nonlinear_arith);
        assert(value == u32::MAX && p >= 1 ==> value * p >= u32::MAX) by (nonlinear_arith);
    }
    while zeros > 0 && 0 < value && value < 0xffff_ffff
        invariant
            0 <= zeros,
            value <= u32::MAX,
            saturated((value * pow10(zeros as nat)) as nat) == saturated(target),
        decreases zeros,
    {
        proof {
            let p = pow10((zeros - 1) as nat);
            lemma_pow10_grows(0, (zeros - 1) as nat);
            assert(value * (10 * p) == (value * 10) * p) by (nonlinear_arith);
            assert(value * 10 > u32::MAX && p >= 1 ==> (value * 10) * p > u32::MAX)
                by (nonlinear_arith);
            let top: int = 0xffff_ffff;
            assert(top * p >= top) by (nonlinear_arith)
                requires
                    p >= 1,
                    top >= 0,
            ;
        }
        value = if value * 10 > 0xffff_ffff { 0xffff_ffff } else { value * 10 };
        zeros = zeros - 1;
    }
    proof {
        let p = pow10(zeros as nat);
        lemma_pow10_grows(0, zeros as nat);
        assert(value == 0 ==> value * p == 0) by (nonlinear_arith);
        assert(p == 1 ==> value * p == value) by (nonlinear_arith);
        assert(value >= 0xffff_ffff && p >= 1 ==> value * p >= 0xffff_ffff) by (nonlinear_arith);
    }
    value as u32
}

/// The exponent that `body` holds from `end` on: 0 where it ends there,
/// and else what follows `e` or `E`, held to the limit.
fn exponent_from(body: &[char], end: usize) -> (r: Option<i128>)
    requires
        end <= body.len(),
    ensures
        r == if end == body.len() {
            Some(0i128)
        } else if body@[end as int] == 'e' || body@[end as int] == 'E' {
            match signed_value(body@.subrange(end + 1, body.len() as int)) {
                Some(x) => Some(held(x, EXPONENT_LIMIT as int) as i128),
                None => None,
            }
        } else {
            None
        },
{
    if end == body.len() {
        Some(0)
    } else if body[end] == 'e' || body[end] == 'E' {
        parse_exponent(slice_subrange(body, end + 1, body.len()))
    } else {
        None
    }
}

/// The digits of `body` before `point` and from `fraction` to `end`.
fn collect_digits(body: &[char], point: usize, fraction: usize, end: usize) -> (digits: Vec<
    char,
>)
    requires
        point <= fraction <= end <= body.len(),
        forall|i: int| 0 <= i < point ==> is_digit(#[trigger] body@[i]),
        forall|i: int| fraction <= i < end ==> is_digit(#[trigger] body@[i]),
    ensures
        digits@ == body@.subrange(0, point as int) + body@.subrange(fraction as int, end as int),
        all_digits(digits@),
{
    let mut digits: Vec<char> = Vec::new();
    let mut i: usize = 0;
    while i < point
        invariant
            i <= point <= body.len(),
            digits@ == body@.subrange(0, i as int),
        decreases point - i,
    {
        digits.push(body[i]);
        proof {
            assert(body@.subrange(0, i + 1) =~= body@.subrange(0, i as int).push(body@[i as int]));
        }
        i += 1;
    }
    let mut j: usize = fraction;
    proof {
        assert(digits@ =~= body@.subrange(0, point as int) + body@.subrange(
            fraction as int,
            fraction as int,
        ));
    }
    while j < end
        invariant
            point <= fraction <= j <= end <= body.len(),
            digits@ == body@.subrange(0, point as int) + body@.subrange(fraction as int, j as int),
        decreases end - j,
    {
        digits.push(body[j]);
        proof {
            assert(body@.subrange(0, point as int) + body@.subrange(fraction as int, j + 1) =~= (
            body@.subrange(0, point as int) + body@.subrange(fraction as int, j as int)).push(
                body@[j as int],
            ));
        }
        j += 1;
    }
    proof {
        assert forall|k: int| 0 <= k < digits@.len() implies is_digit(#[trigger] digits@[k]) by {
            if k < point {
                assert(digits@[k] == body@[k]);
            } else {
                assert(digits@[k] == body@[fraction + (k - point)]);
            }
        }
    }
    digits
}

/// Reads a number without a sign, in hundredths; one past the largest `u32`
/// reads as that largest.
fn parse_number(body: &[char]) -> (r: Option<u32>)
    ensures
        r == match number_hundredths(body@) {
            Some(n) => Some(saturated(n)),
            None => None,
        },
{
    let (point, _) = scan_digits(body, 0, 0);
    let pointed = point < body.len() && body[point] == '.';
    let fraction: usize = if pointed { point + 1 } else { point };
    let end: usize = if pointed { scan_digits(body, fraction, 0).0 } else { point };
    proof {
        lemma_number_by_parts(body@, point as int, fraction as int, end as int);
    }
    if point == 0 && end == fraction {
        return None;
    }
    let exponent: i128 = match exponent_from(body, end) {
        Some(x) => x,
        None => {
            return None;
        },
    };
    let digits = collect_digits(body, point, fraction, end);
    proof {
        if end < body.len() {
            let x = signed_value(body@.subrange(end + 1, body.len() as int))->0;
            lemma_far_exponent(digits@, point as int, x);
        }
    }
    Some(shifted(digits.as_slice(), point as i128 + exponent + 2))
}

/// Reads a number in hundredths. `None` where `s` does not write a number;
/// a negative number and `nan` read as 0, and `inf`, `infinity` and a
/// number past the largest `u32` as that largest.
pub fn parse_hundredths(s: &[char]) -> (r: Option<u32>)
    ensures
        r == hundredths_value(s@),
{
    let negative: bool = s.len() > 0 && s[0] == '-';
    let start: usize = if s.len() > 0 && (s[0] == '+' || s[0] == '-') { 1 } else { 0 };
    let body = slice_subrange(s, start, s.len());
    proof {
        assert(body@ =~= without_sign(s@));
    }
    let word = lower(body);
    if is_word(word.as_slice(), "inf") || is_word(word.as_slice(), "infinity") {
        return Some(if negative { 0 } else { 0xffff_ffff });
    }
    if is_word(word.as_slice(), "nan") {
        return Some(0);
    }
    match parse_number(body) {
        Some(n) => Some(if negative { 0 } else { n }),
        None => None,
    }
}

} // verus!
