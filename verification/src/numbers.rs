//! Decimal numerals: writing unsigned integers, and reading them back the way
//! `str::parse::<u32>()` and `str::parse::<i32>()` do.
use vstd::prelude::*;
use crate::text::{chars_of, string_of};

verus! {

/// The character of the decimal digit `d`.
pub open spec fn digit_char(d: nat) -> char {
    if d == 0 { '0' }
    else if d == 1 { '1' }
    else if d == 2 { '2' }
    else if d == 3 { '3' }
    else if d == 4 { '4' }
    else if d == 5 { '5' }
    else if d == 6 { '6' }
    else if d == 7 { '7' }
    else if d == 8 { '8' }
    else { '9' }
}

/// The decimal numeral of `n`, without sign or leading zeros.
pub open spec fn decimal(n: nat) -> Seq<char>
    decreases n,
{
    if n < 10 {
        seq![digit_char(n)]
    } else {
        decimal(n / 10).push(digit_char(n % 10))
    }
}

/// Whether `c` is one of `0` to `9`.
pub open spec fn is_digit(c: char) -> bool {
    '0' <= c && c <= '9'
}

/// The value of the digit character `c`.
pub open spec fn digit_value(c: char) -> nat {
    (c as u32 - '0' as u32) as nat
}

/// Whether `s` is a non-empty run of decimal digits.
pub open spec fn all_digits(s: Seq<char>) -> bool {
    s.len() > 0 && forall|i: int| 0 <= i < s.len() ==> is_digit(#[trigger] s[i])
}

/// The value of the digit string `s` read in base ten.
pub open spec fn digits_value(s: Seq<char>) -> nat
    decreases s.len(),
{
    if s.len() == 0 {
        0
    } else {
        digits_value(s.drop_last()) * 10 + digit_value(s.last())
    }
}

/// What `str::parse::<u32>()` gives: an optional `+`, then one or more
/// digits whose value fits in a `u32`.
pub open spec fn parse_u32_spec(s: Seq<char>) -> Option<u32> {
    let body = if s.len() > 0 && s[0] == '+' { s.drop_first() } else { s };
    if all_digits(body) && digits_value(body) <= u32::MAX {
        Some(digits_value(body) as u32)
    } else {
        None
    }
}

/// What `str::parse::<i32>()` gives: an optional `+` or `-`, then one or more
/// digits whose signed value fits in an `i32`.
pub open spec fn parse_i32_spec(s: Seq<char>) -> Option<i32> {
    let neg = s.len() > 0 && s[0] == '-';
    let body = if s.len() > 0 && (s[0] == '+' || s[0] == '-') { s.drop_first() } else { s };
    if !all_digits(body) {
        None
    } else if neg {
        if digits_value(body) <= 0x8000_0000 {
            Some((0 - digits_value(body)) as i32)
        } else {
            None
        }
    } else if digits_value(body) <= 0x7fff_ffff {
        Some(digits_value(body) as i32)
    } else {
        None
    }
}

proof fn lemma_digit_char(d: nat)
    requires
        d < 10,
    ensures
        is_digit(digit_char(d)),
        digit_value(digit_char(d)) == d,
{
}

fn digit_of(d: u64) -> (c: char)
    requires
        d < 10,
    ensures
        c == digit_char(d as nat),
{
    if d == 0 { '0' }
    else if d == 1 { '1' }
    else if d == 2 { '2' }
    else if d == 3 { '3' }
    else if d == 4 { '4' }
    else if d == 5 { '5' }
    else if d == 6 { '6' }
    else if d == 7 { '7' }
    else if d == 8 { '8' }
    else { '9' }
}

/// Appends the decimal numeral of `n` to `dst`.
pub fn push_decimal(dst: &mut Vec<char>, n: u64)
    ensures
        final(dst)@ == old(dst)@ + decimal(n as nat),
    decreases n,
{
    if n < 10 {
        dst.push(digit_of(n));
    } else {
        push_decimal(dst, n / 10);
        dst.push(digit_of(n % 10));
    }
}

/// The decimal numeral of `n` (what `u64::to_string` gives).
pub fn decimal_string(n: u64) -> (s: String)
    ensures
        s@ == decimal(n as nat),
{
    let mut v: Vec<char> = Vec::new();
    push_decimal(&mut v, n);
    assert(v@ == decimal(n as nat));
    string_of(v.as_slice())
}

/// Reads the digits of `v[from..]`; `None` when one is not a digit or the
/// value passes `limit`.
fn read_digits(v: &[char], from: usize, limit: u64) -> (r: Option<u64>)
    requires
        from <= v@.len(),
        limit <= u32::MAX as u64 + 1,
    ensures
        r matches Some(n) ==> all_digits(v@.skip(from as int)) && n == digits_value(
            v@.skip(from as int),
        ) && n <= limit,
        r is None ==> !all_digits(v@.skip(from as int)) || digits_value(v@.skip(from as int))
            > limit,
{
    let ghost body = v@.skip(from as int);
    if from == v.len() {
        return None;
    }
    let mut acc: u64 = 0;
    let mut i: usize = from;
    while i < v.len()
        invariant
            from <= i <= v@.len(),
            body == v@.skip(from as int),
            limit <= u32::MAX as u64 + 1,
            acc <= limit,
            forall|j: int| from <= j < i ==> is_digit(#[trigger] v@[j]),
            acc == digits_value(v@.subrange(from as int, i as int)),
        decreases v@.len() - i,
    {
        let c = v[i];
        if !('0' <= c && c <= '9') {
            assert(body[i - from] == c);
            return None;
        }
        let d = (c as u32 - '0' as u32) as u64;
        assert(v@.subrange(from as int, i + 1).drop_last() == v@.subrange(from as int, i as int));
        let next = acc * 10 + d;
        i = i + 1;
        if next > limit {
            proof {
                lemma_digits_value_mono(v@.skip(from as int), (i - from) as int);
                assert(v@.skip(from as int).take((i - from) as int) == v@.subrange(from as int, i as int));
            }
            // Only a non-digit further on can make the whole thing fail otherwise.
            return None;
        }
        acc = next;
    }
    assert(v@.subrange(from as int, v@.len() as int) == body);
    Some(acc)
}

/// A prefix of a digit string never has a larger value than the whole.
proof fn lemma_digits_value_mono(s: Seq<char>, k: int)
    requires
        0 <= k <= s.len(),
    ensures
        all_digits(s) ==> digits_value(s.take(k)) <= digits_value(s),
    decreases s.len() - k,
{
    if k < s.len() {
        lemma_digits_value_mono(s.drop_last(), k);
        assert(s.drop_last().take(k) == s.take(k));
        if all_digits(s) {
            assert(all_digits(s.drop_last()) || s.drop_last().len() == 0);
            if s.drop_last().len() == 0 {
                assert(s.take(k).len() == 0);
            }
        }
    } else {
        assert(s.take(k) == s);
    }
}

/// Reads an unsigned 32-bit number as `str::parse::<u32>()` does.
pub fn parse_u32(s: &str) -> (r: Option<u32>)
    ensures
        r == parse_u32_spec(s@),
{
    let v = chars_of(s);
    let from: usize = if v.len() > 0 && v[0] == '+' { 1 } else { 0 };
    assert(from == 1 ==> v@.skip(1) == v@.drop_first());
    assert(v@.skip(0) == v@);
    match read_digits(v.as_slice(), from, 0xffff_ffff) {
        Some(n) => Some(n as u32),
        None => None,
    }
}

/// Reads a signed 32-bit number as `str::parse::<i32>()` does.
pub fn parse_i32(s: &str) -> (r: Option<i32>)
    ensures
        r == parse_i32_spec(s@),
{
    let v = chars_of(s);
    let signed = v.len() > 0 && (v[0] == '+' || v[0] == '-');
    let neg = v.len() > 0 && v[0] == '-';
    let from: usize = if signed { 1 } else { 0 };
    assert(from == 1 ==> v@.skip(1) == v@.drop_first());
    assert(v@.skip(0) == v@);
    let limit: u64 = if neg { 0x8000_0000 } else { 0x7fff_ffff };
    match read_digits(v.as_slice(), from, limit) {
        Some(n) => {
            if neg {
                if n == 0x8000_0000 {
                    Some(i32::MIN)
                } else {
                    Some(0 - (n as i32))
                }
            } else {
                Some(n as i32)
            }
        },
        None => None,
    }
}


/// The numeral of `n` is digits whose value is `n`.
proof fn lemma_decimal_digits(n: nat)
    ensures
        all_digits(decimal(n)),
        digits_value(decimal(n)) == n,
        decimal(n).len() > 0,
        is_digit(decimal(n)[0]),
    decreases n,
{
    if n < 10 {
        lemma_digit_char(n);
        assert(decimal(n).drop_last() =~= Seq::<char>::empty());
        assert(digits_value(Seq::<char>::empty()) == 0);
        assert(decimal(n).last() == digit_char(n));
    } else {
        lemma_decimal_digits(n / 10);
        lemma_digit_char(n % 10);
        let s = decimal(n / 10);
        assert(decimal(n).drop_last() == s);
        assert(decimal(n).last() == digit_char(n % 10));
        assert(digits_value(decimal(n)) == (n / 10) * 10 + n % 10);
        assert(decimal(n)[0] == s[0]);
        assert forall|i: int| 0 <= i < decimal(n).len() implies is_digit(#[trigger] decimal(n)[i]) by {
            if i < s.len() {
                assert(decimal(n)[i] == s[i]);
            }
        }
    }
}

/// Reading back the numeral written for a `u32` gives that number.
pub proof fn law_u32_numeral_round_trip(n: u32)
    ensures
        parse_u32_spec(decimal(n as nat)) == Some(n),
{
    lemma_decimal_digits(n as nat);
}

/// Reading back the numeral written for a non-negative `i32`, or that numeral
/// after `-`, gives the number or its negation.
pub proof fn law_i32_numeral_round_trip(n: nat)
    requires
        n <= 0x8000_0000,
    ensures
        n <= 0x7fff_ffff ==> parse_i32_spec(decimal(n)) == Some(n as i32),
        parse_i32_spec(seq!['-'] + decimal(n)) == Some((0 - n) as i32),
{
    lemma_decimal_digits(n);
    assert((seq!['-'] + decimal(n)).drop_first() == decimal(n));
}

} // verus!
