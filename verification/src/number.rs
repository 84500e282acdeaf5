//! Decimal numbers: reading them from text and writing them out.

use vstd::prelude::*;
use vstd::string::*;
use crate::chars::{digit_char, digit_of, digit_value, is_digit};
use crate::text::chars_of;

verus! {

/// Whether `s` is a row of one or more ASCII digits.
pub open spec fn all_digits(s: Seq<char>) -> bool {
    s.len() > 0 && forall|i: int| 0 <= i < s.len() ==> is_digit(#[trigger] s[i])
}

/// The number that a row of digits stands for.
pub open spec fn decimal_value(s: Seq<char>) -> nat
    decreases s.len(),
{
    if s.len() == 0 {
        0
    } else {
        decimal_value(s.drop_last()) * 10 + digit_value(s.last())
    }
}

/// The number up to `max` that a row of digits stands for.
pub open spec fn natural_in(s: Seq<char>, max: int) -> Option<int> {
    if all_digits(s) && decimal_value(s) <= max {
        Some(decimal_value(s) as int)
    } else {
        None
    }
}

/// The number from zero to `max` that `s` writes, with or without a plus sign in front.
pub open spec fn unsigned_in(s: Seq<char>, max: int) -> Option<int> {
    if s.len() > 0 && s[0] == '+' {
        natural_in(s.skip(1), max)
    } else {
        natural_in(s, max)
    }
}

/// The number from `min` to `max` that `s` writes, with or without a sign in front.
pub open spec fn signed_in(s: Seq<char>, min: int, max: int) -> Option<int> {
    if s.len() > 0 && s[0] == '-' {
        match natural_in(s.skip(1), -min) {
            Some(n) => Some(-n),
            None => None,
        }
    } else {
        unsigned_in(s, max)
    }
}

proof fn lemma_value_grows(s: Seq<char>, n: int)
    requires
        0 <= n <= s.len(),
    ensures
        decimal_value(s.take(n)) <= decimal_value(s),
    decreases s.len() - n,
{
    if n < s.len() {
        lemma_value_grows(s, n + 1);
        assert(s.take(n + 1).drop_last() =~= s.take(n));
    } else {
        assert(s.take(n) =~= s);
    }
}

fn read_digits(chars: &Vec<char>, from: usize, max: u64) -> (r: Option<u64>)
    requires
        from <= chars@.len(),
    ensures
        match r {
            Some(n) => natural_in(chars@.skip(from as int), max as int) == Some(n as int),
            None => natural_in(chars@.skip(from as int), max as int) is None,
        },
{
    let ghost s = chars@.skip(from as int);
    let mut value: u64 = 0;
    let mut i: usize = from;
    if i == chars.len() {
        return None;
    }
    while i < chars.len()
        invariant
            from <= i <= chars@.len(),
            s == chars@.skip(from as int),
            value == decimal_value(s.take(i - from)),
            value <= max,
            forall|j: int| 0 <= j < i - from ==> is_digit(#[trigger] s[j]),
        decreases chars@.len() - i,
    {
        let c = chars[i];
        assert(s[i - from] == c);
        if !('0' <= c && c <= '9') {
            assert(!is_digit(s[i - from]));
            return None;
        }
        let digit: u64 = (c as u32 - 48) as u64;
        let next: u128 = value as u128 * 10 + digit as u128;
        proof {
            assert(s.take(i + 1 - from).drop_last() =~= s.take(i - from));
            lemma_value_grows(s, i + 1 - from);
        }
        if next > max as u128 {
            return None;
        }
        value = next as u64;
        i = i + 1;
    }
    assert(s.take(i - from) =~= s);
    Some(value)
}

fn read_unsigned(chars: &Vec<char>, max: u64) -> (r: Option<u64>)
    ensures
        match r {
            Some(n) => unsigned_in(chars@, max as int) == Some(n as int) && n <= max,
            None => unsigned_in(chars@, max as int) is None,
        },
{
    if chars.len() > 0 && chars[0] == '+' {
        read_digits(chars, 1, max)
    } else {
        assert(chars@.skip(0) =~= chars@);
        read_digits(chars, 0, max)
    }
}

/// The `u32` that `s` writes.
pub fn parse_u32(s: &str) -> (r: Option<u32>)
    ensures
        match r {
            Some(n) => unsigned_in(s@, u32::MAX as int) == Some(n as int),
            None => unsigned_in(s@, u32::MAX as int) is None,
        },
{
    match read_unsigned(&chars_of(s), u32::MAX as u64) {
        Some(n) => Some(n as u32),
        None => None,
    }
}

/// The `usize` that `s` writes.
pub fn parse_usize(s: &str) -> (r: Option<usize>)
    ensures
        match r {
            Some(n) => unsigned_in(s@, usize::MAX as int) == Some(n as int),
            None => unsigned_in(s@, usize::MAX as int) is None,
        },
{
    match read_unsigned(&chars_of(s), usize::MAX as u64) {
        Some(n) => Some(n as usize),
        None => None,
    }
}

/// The `i32` that `s` writes.
pub fn parse_i32(s: &str) -> (r: Option<i32>)
    ensures
        match r {
            Some(n) => signed_in(s@, i32::MIN as int, i32::MAX as int) == Some(n as int),
            None => signed_in(s@, i32::MIN as int, i32::MAX as int) is None,
        },
{
    let chars = chars_of(s);
    if chars.len() > 0 && chars[0] == '-' {
        match read_digits(&chars, 1, 2147483648) {
            Some(n) => Some((-(n as i64)) as i32),
            None => None,
        }
    } else {
        match read_unsigned(&chars, 2147483647) {
            Some(n) => Some(n as i32),
            None => None,
        }
    }
}

/// The decimal digits of `n`.
pub open spec fn decimal(n: nat) -> Seq<char>
    decreases n,
{
    if n < 10 {
        seq![digit_of(n)]
    } else {
        decimal(n / 10).push(digit_of(n % 10))
    }
}

/// The decimal digits of `n`, behind a minus sign where it is negative.
pub open spec fn signed_decimal(n: int) -> Seq<char> {
    if n < 0 {
        seq!['-'] + decimal((-n) as nat)
    } else {
        decimal(n as nat)
    }
}

/// The decimal digits of `n` behind its sign, which is a plus for zero.
pub open spec fn decimal_with_sign(n: int) -> Seq<char> {
    if n < 0 {
        signed_decimal(n)
    } else {
        seq!['+'] + decimal(n as nat)
    }
}

/// The decimal digits of `n`.
pub fn write_u64(n: u64) -> (r: String)
    ensures
        r@ == decimal(n as nat),
    decreases n,
{
    let mut out = if n < 10 {
        String::new()
    } else {
        write_u64(n / 10)
    };
    out.push(digit_char((n % 10) as u8));
    assert(n < 10 ==> out@ =~= seq![digit_of(n as nat)]);
    out
}

/// The decimal digits of `n`, behind a minus sign where it is negative.
pub fn write_i32(n: i32) -> (r: String)
    ensures
        r@ == signed_decimal(n as int),
{
    if n < 0 {
        let mut out = String::new();
        out.push('-');
        out.append(write_u64((-(n as i64)) as u64).as_str());
        assert(out@ =~= seq!['-'] + decimal((-n) as nat));
        out
    } else {
        write_u64(n as u64)
    }
}

/// The decimal digits of `n` behind its sign, which is a plus for zero.
pub fn write_i32_with_sign(n: i32) -> (r: String)
    ensures
        r@ == decimal_with_sign(n as int),
{
    if n < 0 {
        write_i32(n)
    } else {
        let mut out = String::new();
        out.push('+');
        out.append(write_u64(n as u64).as_str());
        assert(out@ =~= seq!['+'] + decimal(n as nat));
        out
    }
}

/// A number is written in digits that stand for it.
pub proof fn decimal_is_digits(n: nat)
    ensures
        all_digits(decimal(n)),
        decimal_value(decimal(n)) == n,
    decreases n,
{
    if n < 10 {
        assert(decimal(n).drop_last() =~= Seq::<char>::empty());
        assert(decimal_value(Seq::<char>::empty()) == 0);
    } else {
        decimal_is_digits(n / 10);
        assert(decimal(n).drop_last() =~= decimal(n / 10));
        assert(decimal(n).last() == digit_of(n % 10));
    }
}

/// A number written with or without its plus sign is read back.
pub proof fn written_number_reads_back(n: int, min: int, max: int)
    requires
        min <= n <= max,
    ensures
        signed_in(signed_decimal(n), min, max) == Some(n),
        signed_in(decimal_with_sign(n), min, max) == Some(n),
{
    if n < 0 {
        decimal_is_digits((-n) as nat);
        assert(signed_decimal(n).skip(1) =~= decimal((-n) as nat));
    } else {
        decimal_is_digits(n as nat);
        assert(is_digit(decimal(n as nat)[0]));
        assert(decimal_with_sign(n).skip(1) =~= decimal(n as nat));
    }
}

} // verus!
