//! How numbers and times of day are read and written.

use vstd::prelude::*;
use vstd::string::*;
use crate::bonuses::fits;
use crate::chars::{digit_of, is_digit};
use crate::clock::{clock_of, EventTime};
use crate::item_text::number_in;
use crate::laws::texts::{
    a_set_is_taken_off_the_end, all_white, is_tight, one_character_is_taken_out,
    white_space_at_the_ends_is_taken_off,
};
use crate::number::{
    all_digits, decimal, decimal_value, decimal_with_sign, signed_decimal, signed_in, unsigned_in,
};
use crate::text::{trimmed, trimmed_end_of, without_char};

verus! {

/// A number is written digit by digit, the last digit behind those of a tenth of the number.
pub proof fn numbers_are_written_digit_by_digit(n: nat, k: nat)
    requires
        k < 10,
    ensures
        decimal(k) == seq![digit_of(k)],
        n > 0 ==> decimal(10 * n + k) == decimal(n).push(digit_of(k)),
        digit_of(0) == '0' && digit_of(1) == '1' && digit_of(2) == '2' && digit_of(3) == '3'
            && digit_of(4) == '4' && digit_of(5) == '5' && digit_of(6) == '6' && digit_of(7) == '7'
            && digit_of(8) == '8' && digit_of(9) == '9',
{
}

/// Digits are read as the number they stand for, the last one as the ones.
pub proof fn digits_are_read_as_ones_and_tens(s: Seq<char>, c: char)
    requires
        is_digit(c),
    ensures
        decimal_value(Seq::<char>::empty()) == 0,
        decimal_value(s.push(c)) == 10 * decimal_value(s) + (c as u32 - '0' as u32),
{
    assert(s.push(c).drop_last() =~= s);
}

/// The digits are those from nought to nine, and a row of digits has at least one.
pub proof fn which_characters_are_digits(c: char, s: Seq<char>)
    ensures
        is_digit(c) <==> '0' <= c <= '9',
        all_digits(s) <==> s.len() > 0 && forall|i: int|
            0 <= i < s.len() ==> '0' <= #[trigger] s[i] <= '9',
{
    if all_digits(s) {
        assert forall|i: int| 0 <= i < s.len() implies '0' <= #[trigger] s[i] <= '9' by {
            assert(is_digit(s[i]));
        }
    }
}

/// A negative number has a minus sign in front; a positive one has a plus sign where signs are asked
/// for, and none otherwise.
pub proof fn signs_stand_in_front(n: int)
    ensures
        n >= 0 ==> signed_decimal(n) == decimal(n as nat),
        n < 0 ==> signed_decimal(n) == seq!['-'] + decimal((-n) as nat),
        n >= 0 ==> decimal_with_sign(n) == seq!['+'] + decimal(n as nat),
        n < 0 ==> decimal_with_sign(n) == seq!['-'] + decimal((-n) as nat),
{
}

/// A row of digits, with or without a plus sign, is a number where it is not too large; with a minus
/// sign it is the negative number, where that is asked for.
pub proof fn digits_are_numbers(digits: Seq<char>, min: int, max: int)
    requires
        all_digits(digits),
        min <= 0 <= max,
    ensures
        decimal_value(digits) <= max ==> {
            let n = decimal_value(digits) as int;
            &&& unsigned_in(digits, max) == Some(n)
            &&& unsigned_in(seq!['+'] + digits, max) == Some(n)
            &&& signed_in(digits, min, max) == Some(n)
            &&& signed_in(seq!['+'] + digits, min, max) == Some(n)
        },
        decimal_value(digits) > max ==> {
            &&& unsigned_in(digits, max) is None
            &&& unsigned_in(seq!['+'] + digits, max) is None
            &&& signed_in(digits, min, max) is None
            &&& signed_in(seq!['+'] + digits, min, max) is None
        },
        signed_in(seq!['-'] + digits, min, max) == if decimal_value(digits) <= -min {
            Some(-(decimal_value(digits) as int))
        } else {
            None
        },
        unsigned_in(seq!['-'] + digits, max) is None,
{
    assert(is_digit(digits[0]));
    assert((seq!['+'] + digits).skip(1) =~= digits);
    assert((seq!['-'] + digits).skip(1) =~= digits);
    assert((seq!['-'] + digits)[0] == '-');
    assert(!is_digit('-'));
}

/// A text that holds anything but digits behind its sign is no number.
pub proof fn what_is_no_number(s: Seq<char>, c: char, min: int, max: int)
    requires
        s.contains(c),
        !is_digit(c),
        c != '+',
        c != '-',
    ensures
        unsigned_in(s, max) is None,
        signed_in(s, min, max) is None,
        unsigned_in(Seq::<char>::empty(), max) is None,
        signed_in(Seq::<char>::empty(), min, max) is None,
{
    let k = choose|k: int| 0 <= k < s.len() && s[k] == c;
    if s[0] == '+' || s[0] == '-' {
        assert(s.skip(1)[k - 1] == c);
    }
}

/// Whether a text is made of digits, and of commas between them or beside them.
pub open spec fn is_grouped(s: Seq<char>) -> bool {
    s.len() > 0 && forall|i: int| 0 <= i < s.len() ==> is_digit(#[trigger] s[i]) || s[i] == ','
}

/// Whether a text is made of percent signs.
pub open spec fn is_percent(s: Seq<char>) -> bool {
    forall|i: int| 0 <= i < s.len() ==> #[trigger] s[i] == '%'
}

proof fn lemma_number(
    front: Seq<char>,
    sign: Seq<char>,
    digits: Seq<char>,
    percent: Seq<char>,
    back: Seq<char>,
)
    requires
        all_white(front),
        all_white(back),
        is_grouped(digits),
        is_percent(percent),
        sign == Seq::<char>::empty() || sign == seq!['+'] || sign == seq!['-'],
    ensures
        number_in(front + (sign + digits + percent) + back) == signed_in(
            sign + without_char(digits, ','),
            i32::MIN as int,
            i32::MAX as int,
        ),
{
    reveal_strlit("%");
    let written = sign + digits + percent;
    assert(is_digit(digits[0]) || digits[0] == ',');
    assert(is_digit(digits[digits.len() - 1]) || digits[digits.len() - 1] == ',');
    assert(is_tight(written)) by {
        if percent.len() > 0 {
            assert(percent[percent.len() - 1] == '%');
            assert(written.last() == '%');
        } else {
            assert(written.last() == digits.last());
        }
        if sign.len() > 0 {
            assert(written[0] == sign[0]);
        } else {
            assert(written[0] == digits[0]);
        }
    }
    white_space_at_the_ends_is_taken_off(front, written, back);
    assert("%"@[0] == '%');
    assert forall|i: int| 0 <= i < percent.len() implies "%"@.contains(#[trigger] percent[i]) by {
        assert("%"@[0] == percent[i]);
    }
    assert((sign + digits).last() == digits.last());
    a_set_is_taken_off_the_end(sign + digits, percent, "%"@);
    one_character_is_taken_out(sign, digits, ',');
    assert(!sign.contains(','));
}

/// The number of an item is read with or without commas between its digits, percent signs behind it
/// and white space around it.
pub proof fn numbers_of_items_are_read(
    front: Seq<char>,
    digits: Seq<char>,
    percent: Seq<char>,
    back: Seq<char>,
)
    requires
        all_white(front),
        all_white(back),
        is_grouped(digits),
        is_percent(percent),
        all_digits(without_char(digits, ',')),
    ensures
        decimal_value(without_char(digits, ',')) <= 2_147_483_647 ==> {
            let n = decimal_value(without_char(digits, ',')) as int;
            &&& number_in(front + (digits + percent) + back) == Some(n)
            &&& number_in(front + (seq!['+'] + digits + percent) + back) == Some(n)
            &&& number_in(front + (seq!['-'] + digits + percent) + back) == Some(-n)
        },
        decimal_value(without_char(digits, ',')) > 2_147_483_648 ==> {
            &&& number_in(front + (digits + percent) + back) is None
            &&& number_in(front + (seq!['+'] + digits + percent) + back) is None
            &&& number_in(front + (seq!['-'] + digits + percent) + back) is None
        },
{
    let none = Seq::<char>::empty();
    lemma_number(front, none, digits, percent, back);
    lemma_number(front, seq!['+'], digits, percent, back);
    lemma_number(front, seq!['-'], digits, percent, back);
    assert(none + digits + percent =~= digits + percent);
    assert(none + without_char(digits, ',') =~= without_char(digits, ','));
    digits_are_numbers(without_char(digits, ','), i32::MIN as int, i32::MAX as int);
}

proof fn lemma_kept(s: Seq<char>, c: char, set: Seq<char>)
    requires
        s.contains(c),
        !set.contains(c),
    ensures
        trimmed_end_of(s, set).contains(c),
    decreases s.len(),
{
    if s.len() > 0 && set.contains(s.last()) {
        let k = choose|k: int| 0 <= k < s.len() && s[k] == c;
        assert(s.drop_last()[k] == c);
        lemma_kept(s.drop_last(), c, set);
    }
}

proof fn lemma_left(s: Seq<char>, c: char, out: char)
    requires
        s.contains(c),
        c != out,
    ensures
        without_char(s, out).contains(c),
    decreases s.len(),
{
    let k = choose|k: int| 0 <= k < s.len() && s[k] == c;
    let rest = without_char(s.drop_last(), out);
    if k < s.len() - 1 {
        assert(s.drop_last()[k] == c);
        lemma_left(s.drop_last(), c, out);
        let m = choose|m: int| 0 <= m < rest.len() && rest[m] == c;
        if s.last() != out {
            assert(rest.push(s.last())[m] == c);
        }
    } else {
        assert(rest.push(c)[rest.len() as int] == c);
    }
}

/// A text with a letter or another foreign character in it is no number of an item.
pub proof fn what_is_no_number_of_an_item(s: Seq<char>, c: char)
    requires
        trimmed(s).contains(c),
        !is_digit(c),
        c != '+',
        c != '-',
        c != ',',
        c != '%',
    ensures
        number_in(s) is None,
{
    reveal_strlit("%");
    assert(!"%"@.contains(c));
    lemma_kept(trimmed(s), c, "%"@);
    lemma_left(trimmed_end_of(trimmed(s), "%"@), c, ',');
    what_is_no_number(
        without_char(trimmed_end_of(trimmed(s), "%"@), ','),
        c,
        i32::MIN as int,
        i32::MAX as int,
    );
}

/// Which numbers fit in the integers of bonuses.
pub proof fn which_numbers_fit(n: int)
    ensures
        fits(n) <==> -2_147_483_648 <= n <= 2_147_483_647,
{
}

/// The clock shows the hour, minute and second of local time, each with two digits; a leap second
/// counts as one more second.
pub proof fn the_clock_shows_local_time(
    time: EventTime,
    days: int,
    hour: nat,
    minute: nat,
    second: nat,
)
    requires
        time.seconds + time.offset == 86_400 * days + 3_600 * hour + 60 * minute + second,
        hour < 24,
        minute < 60,
        second < 60,
    ensures
        ({
            let shown = if time.nanos < 1_000_000_000 {
                second
            } else {
                second + 1
            };
            clock_of(time) == seq![
                digit_of(hour / 10),
                digit_of(hour % 10),
                ':',
                digit_of(minute / 10),
                digit_of(minute % 10),
                ':',
                digit_of(shown / 10),
                digit_of(shown % 10),
            ]
        }),
{
    let day = 3_600 * hour + 60 * minute + second;
    let local = time.seconds + time.offset;
    assert(local % 86_400 == day) by (nonlinear_arith)
        requires
            local == 86_400 * days + day,
            0 <= day < 86_400,
    ;
    assert(day / 3_600 == hour);
    assert(day / 60 % 60 == minute);
    assert(day % 60 == second);
}

} // verus!
