//! Numbers in decimal notation.

use crate::text::chars_of;
use vstd::prelude::*;

verus! {

/// The character of the digit `d`, from 0 to 9.
pub open spec fn digit(d: int) -> char {
    (48 + d) as char
}

/// Whether `c` is a decimal digit.
pub open spec fn is_digit(c: char) -> bool {
    '0' <= c <= '9'
}

/// `n` in decimal notation.
pub open spec fn decimal(n: nat) -> Seq<char>
    decreases n,
{
    if n < 10 {
        seq![digit(n as int)]
    } else {
        decimal(n / 10).push(digit((n % 10) as int))
    }
}

/// `n` in decimal notation, with a minus sign where it is negative.
pub open spec fn signed_decimal(n: int) -> Seq<char> {
    if n < 0 {
        seq!['-'] + decimal((-n) as nat)
    } else {
        decimal(n as nat)
    }
}

/// The number that a run of digits stands for.
pub open spec fn digits_value(digits: Seq<char>) -> nat
    decreases digits.len(),
{
    if digits.len() == 0 {
        0
    } else {
        digits_value(digits.drop_last()) * 10 + (digits.last() as nat - 48) as nat
    }
}

/// Whether every character is a digit.
pub open spec fn all_digits(text: Seq<char>) -> bool {
    forall|i: int| 0 <= i < text.len() ==> is_digit(#[trigger] text[i])
}

/// `text` without the plus sign that it may begin with.
pub open spec fn without_plus(text: Seq<char>) -> Seq<char> {
    if text.len() > 0 && text[0] == '+' {
        text.skip(1)
    } else {
        text
    }
}

/// The number up to `max` that a text stands for: digits, at least one, after at most one plus
/// sign.
pub open spec fn parsed_number(text: Seq<char>, max: nat) -> Option<nat> {
    let digits = without_plus(text);
    if digits.len() > 0 && all_digits(digits) && digits_value(digits) <= max {
        Some(digits_value(digits))
    } else {
        None
    }
}

proof fn lemma_decimal_digits(n: nat)
    ensures
        all_digits(decimal(n)),
        decimal(n).len() > 0,
        digits_value(decimal(n)) == n,
    decreases n,
{
    if n < 10 {
        assert(decimal(n).drop_last() == Seq::<char>::empty());
        assert(digits_value(Seq::<char>::empty()) == 0);
    } else {
        lemma_decimal_digits(n / 10);
        assert(decimal(n).drop_last() == decimal(n / 10));
    }
}

/// A number in decimal notation stands for that number.
pub proof fn law_decimal_is_read_back(n: nat, max: nat)
    requires
        n <= max,
    ensures
        parsed_number(decimal(n), max) == Some(n),
        all_digits(decimal(n)),
        decimal(n).len() > 0,
{
    lemma_decimal_digits(n);
    assert(is_digit(decimal(n)[0]));
}

proof fn lemma_digits_value_prefix(digits: Seq<char>, n: int)
    requires
        0 <= n <= digits.len(),
        all_digits(digits),
    ensures
        digits_value(digits.take(n)) <= digits_value(digits),
    decreases digits.len() - n,
{
    if n < digits.len() {
        lemma_digits_value_prefix(digits, n + 1);
        assert(digits.take(n + 1).drop_last() == digits.take(n));
        assert(is_digit(digits[n]));
        assert(digits.take(n + 1).last() == digits[n]);
    } else {
        assert(digits.take(n) == digits);
    }
}

/// `n` in decimal notation.
pub fn print_number(n: u64) -> (text: String)
    ensures
        text@ == decimal(n as nat),
    decreases n,
{
    let mut text = if n < 10 {
        String::new()
    } else {
        print_number(n / 10)
    };
    let last = (48u8 + (n % 10) as u8) as char;
    assert(last == digit((n % 10) as int));
    text.push(last);
    assert(n < 10 ==> text@ =~= seq![digit(n as int)]);
    text
}

/// `n` in decimal notation, with a minus sign where it is negative.
pub fn print_signed(n: i64) -> (text: String)
    ensures
        text@ == signed_decimal(n as int),
{
    if n < 0 {
        let mut text = String::new();
        text.push('-');
        let magnitude: u64 = (-(n as i128)) as u64;
        let digits = print_number(magnitude);
        text.append(digits.as_str());
        assert(text@ =~= seq!['-'] + decimal((-n) as nat));
        text
    } else {
        print_number(n as u64)
    }
}

/// The number that a text stands for, where it is one that fits.
pub fn parse_number(text: &[char]) -> (number: Option<usize>)
    ensures
        match number {
            Some(number) => parsed_number(text@, usize::MAX as nat) == Some(number as nat),
            None => parsed_number(text@, usize::MAX as nat) is None,
        },
{
    let start: usize = if text.len() > 0 && text[0] == '+' {
        1
    } else {
        0
    };
    let ghost digits = without_plus(text@);
    assert(digits == text@.skip(start as int));
    if start == text.len() {
        return None;
    }
    let mut number: usize = 0;
    let mut i: usize = start;
    assert(digits.take(0) == Seq::<char>::empty());
    while i < text.len()
        invariant
            start <= i <= text.len(),
            digits == without_plus(text@),
            digits == text@.skip(start as int),
            number == digits_value(digits.take(i - start)),
            forall|j: int| 0 <= j < i - start ==> is_digit(#[trigger] digits[j]),
        decreases text.len() - i,
    {
        let c = text[i];
        assert(c == digits[i - start]);
        if !('0' <= c && c <= '9') {
            return None;
        }
        let value: usize = c as usize - 48;
        proof {
            assert(digits.take(i - start + 1).drop_last() == digits.take(i - start));
            assert(digits.take(i - start + 1).last() == c);
            if all_digits(digits) {
                lemma_digits_value_prefix(digits, i - start + 1);
            }
        }
        let shifted = match number.checked_mul(10) {
            Some(shifted) => shifted,
            None => {
                return None;
            },
        };
        number =
        match shifted.checked_add(value) {
            Some(sum) => sum,
            None => {
                return None;
            },
        };
        i += 1;
    }
    assert(digits.take(digits.len() as int) == digits);
    Some(number)
}

/// The number that a text stands for, where it is one that fits.
pub fn parse_number_text(text: &str) -> (number: Option<usize>)
    ensures
        match number {
            Some(number) => parsed_number(text@, usize::MAX as nat) == Some(number as nat),
            None => parsed_number(text@, usize::MAX as nat) is None,
        },
{
    let chars = chars_of(text);
    parse_number(chars.as_slice())
}

/// A negative number is written as the number without its sign, behind a minus sign.
pub proof fn law_negative_numbers_have_a_minus_sign(n: nat, max: nat)
    requires
        0 < n <= max,
    ensures
        signed_decimal(-(n as int)).len() > 1,
        signed_decimal(-(n as int))[0] == '-',
        parsed_number(signed_decimal(-(n as int)).skip(1), max) == Some(n),
        parsed_number(signed_decimal(n as int), max) == Some(n),
        parsed_number(signed_decimal(-(n as int)), max) is None,
{
    law_decimal_is_read_back(n, max);
    let text = signed_decimal(-(n as int));
    assert(text.skip(1) =~= decimal(n));
    assert(!is_digit(text[0]));
    assert(!all_digits(without_plus(text)));
}

/// A text of digits stands for ten times what it stands for without its last digit, and that
/// digit. A plus sign before it changes nothing. A text with another character, or without a
/// digit, stands for no number.
pub proof fn law_digits_stand_for_their_number(digits: Seq<char>, last: char, max: nat)
    requires
        all_digits(digits),
        is_digit(last),
    ensures
        digits.len() > 0 && parsed_number(digits.push(last), max) is Some ==> parsed_number(
            digits,
            max,
        ) is Some && parsed_number(digits.push(last), max)->0 == parsed_number(digits, max)->0 * 10
            + (last as nat - 48),
        parsed_number(seq![last], max) is Some ==> parsed_number(seq![last], max)->0 == last as nat
            - 48,
        parsed_number(seq!['+'] + digits.push(last), max) == parsed_number(digits.push(last), max),
        parsed_number(Seq::empty(), max) is None,
{
    let longer = digits.push(last);
    assert(longer.drop_last() =~= digits);
    assert(is_digit(longer[0]));
    assert((seq!['+'] + longer).skip(1) =~= longer);
    let one = seq![last];
    assert(one.drop_last() =~= Seq::<char>::empty());
    assert(digits_value(one.drop_last()) == 0);
    if digits.len() > 0 {
        assert(is_digit(digits[0]));
    }
}

} // verus!
