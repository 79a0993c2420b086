//! Numbers in decimal text.

use vstd::prelude::*;

use crate::text::chars_of;

verus! {

/// The character of a decimal digit.
pub open spec fn digit(n: nat) -> char {
    (48 + n) as char
}

/// `n` in decimal, without leading zeros.
pub open spec fn decimal(n: nat) -> Seq<char>
    decreases n,
{
    if n < 10 {
        seq![digit(n)]
    } else {
        decimal(n / 10).push(digit(n % 10))
    }
}

/// The character of a decimal digit.
fn digit_char(n: u64) -> (c: char)
    requires
        n < 10,
    ensures
        c == digit(n as nat),
{
    match n {
        0 => '0',
        1 => '1',
        2 => '2',
        3 => '3',
        4 => '4',
        5 => '5',
        6 => '6',
        7 => '7',
        8 => '8',
        _ => '9',
    }
}

/// Write `n` in decimal.
pub fn decimal_text(n: u64) -> (out: String)
    ensures
        out@ == decimal(n as nat),
    decreases n,
{
    let mut out = if n < 10 {
        String::new()
    } else {
        decimal_text(n / 10)
    };
    out.push(digit_char(n % 10));
    proof {
        if n < 10 {
            assert(out@ =~= decimal(n as nat));
        }
    }
    out
}

/// Whether `c` is one of `0` to `9`.
pub open spec fn is_digit(c: char) -> bool {
    '0' <= c <= '9'
}

/// The number that a sequence of digits writes.
pub open spec fn digits_value(digits: Seq<char>) -> nat
    decreases digits.len(),
{
    if digits.len() == 0 {
        0
    } else {
        digits_value(digits.drop_last()) * 10 + (digits.last() as nat - 48) as nat
    }
}

/// `s` without the plus sign that a number may begin with.
pub open spec fn without_plus(s: Seq<char>) -> Seq<char> {
    if s.len() > 0 && s[0] == '+' {
        s.skip(1)
    } else {
        s
    }
}

/// The number that `s` writes, if it is one that fits 32 bits: an optional plus
/// sign, then digits only, and at least one.
pub open spec fn parsed_u32(s: Seq<char>) -> Option<u32> {
    let digits = without_plus(s);
    if digits.len() > 0 && (forall|i: int| 0 <= i < digits.len() ==> is_digit(#[trigger] digits[i]))
        && digits_value(digits) <= u32::MAX {
        Some(digits_value(digits) as u32)
    } else {
        None
    }
}

/// A longer sequence of digits writes a number at least as large.
proof fn digits_value_grows(digits: Seq<char>, n: int)
    requires
        0 <= n <= digits.len(),
        forall|i: int| 0 <= i < digits.len() ==> is_digit(#[trigger] digits[i]),
    ensures
        digits_value(digits.take(n)) <= digits_value(digits),
    decreases digits.len() - n,
{
    if n == digits.len() {
        assert(digits.take(n) =~= digits);
    } else {
        assert(digits.take(n + 1).drop_last() =~= digits.take(n));
        digits_value_grows(digits, n + 1);
    }
}

/// Read a number that fits 32 bits.
pub fn parse_u32(s: &str) -> (value: Option<u32>)
    ensures
        value == parsed_u32(s@),
{
    let chars = chars_of(s);
    let start: usize = if chars.len() > 0 && chars[0] == '+' {
        1
    } else {
        0
    };
    let ghost digits = without_plus(s@);
    proof {
        assert(digits =~= s@.skip(start as int));
    }
    if start == chars.len() {
        return None;
    }
    let mut total: u64 = 0;
    for i in start..chars.len()
        invariant
            chars@ == s@,
            digits == s@.skip(start as int),
            digits == without_plus(s@),
            start <= i <= chars.len(),
            start < chars.len(),
            total <= u32::MAX,
            total == digits_value(digits.take(i - start)),
            forall|j: int| 0 <= j < i - start ==> is_digit(#[trigger] digits[j]),
    {
        let c = chars[i];
        proof {
            assert(digits[i - start] == c);
            assert(digits.take(i - start + 1).drop_last() =~= digits.take(i - start));
        }
        if c < '0' || '9' < c {
            return None;
        }
        let next: u64 = total * 10 + (c as u64 - 48);
        if next > u32::MAX as u64 {
            proof {
                if forall|j: int| 0 <= j < digits.len() ==> is_digit(#[trigger] digits[j]) {
                    digits_value_grows(digits, i - start + 1);
                }
            }
            return None;
        }
        total = next;
    }
    proof {
        assert(digits.take(digits.len() as int) =~= digits);
    }
    Some(total as u32)
}

/// A number is read back from its decimal text, which holds digits only.
pub proof fn decimal_reads_back(n: nat)
    ensures
        decimal(n).len() > 0,
        forall|i: int| 0 <= i < decimal(n).len() ==> is_digit(#[trigger] decimal(n)[i]),
        digits_value(decimal(n)) == n,
        n <= u32::MAX ==> parsed_u32(decimal(n)) == Some(n as u32),
    decreases n,
{
    if n < 10 {
        assert(decimal(n).drop_last() =~= Seq::empty());
        assert(decimal(n).last() == digit(n));
        assert(digits_value(decimal(n).drop_last()) == 0);
    } else {
        decimal_reads_back(n / 10);
        let head = decimal(n / 10);
        assert(decimal(n).drop_last() =~= head);
        assert(decimal(n).last() == digit(n % 10));
        assert forall|i: int| 0 <= i < decimal(n).len() implies is_digit(
            #[trigger] decimal(n)[i],
        ) by {
            if i < head.len() {
                assert(decimal(n)[i] == head[i]);
            }
        }
    }
    assert(is_digit(decimal(n)[0]));
    assert(without_plus(decimal(n)) == decimal(n));
}

/// Only a text of digits, with or without a plus sign before them, is a number.
pub proof fn numbers_are_digits(s: Seq<char>)
    ensures
        parsed_u32(s) is Some ==> (forall|i: int|
            0 < i < s.len() ==> is_digit(#[trigger] s[i])) && s.len() > 0 && (is_digit(s[0])
            || (s[0] == '+' && s.len() > 1)),
        parsed_u32(s) is Some && s.len() > 0 && s[0] == '+' ==> parsed_u32(s.skip(1)) == parsed_u32(
            s,
        ),
{
    if parsed_u32(s) is Some {
        let digits = without_plus(s);
        if s.len() > 0 && s[0] == '+' {
            assert forall|i: int| 0 < i < s.len() implies is_digit(#[trigger] s[i]) by {
                assert(digits[i - 1] == s[i]);
            }
            assert(is_digit(digits[0]));
            assert(without_plus(digits) == digits);
        } else {
            assert(is_digit(digits[0]));
        }
    }
}

} // verus!
