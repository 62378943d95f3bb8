//! Whole numbers as decimal text, both ways.

use vstd::prelude::*;
use crate::text::{chars_of, string_of};

verus! {

/// Why a text is not a number.
#[derive(Clone, Copy, Debug, PartialEq, Eq, Structural)]
pub enum IntError {
    /// There is nothing to read.
    Empty,
    /// A character is no digit, or a sign stands alone.
    InvalidDigit,
    /// The number is larger than the type holds.
    Overflow,
}

/// Whether `c` is one of the ten digits.
pub open spec fn is_digit(c: char) -> bool {
    '0' <= c <= '9'
}

/// The number that the digit `c` stands for.
pub open spec fn digit_value(c: char) -> nat {
    (c as u32 - '0' as u32) as nat
}

/// The digit that stands for `d`, which is below ten.
pub open spec fn digit_char(d: nat) -> char {
    (d + '0' as u32) as char
}

/// The number that the digits `s` spell, read from the left. The first
/// character that is no digit, or with which the number passes `max`, decides
/// the error.
pub open spec fn digits_value(s: Seq<char>, max: nat) -> Result<nat, IntError>
    decreases s.len(),
{
    if s.len() == 0 {
        Ok(0)
    } else {
        match digits_value(s.drop_last(), max) {
            Err(e) => Err(e),
            Ok(before) => if !is_digit(s.last()) {
                Err(IntError::InvalidDigit)
            } else if before * 10 + digit_value(s.last()) > max {
                Err(IntError::Overflow)
            } else {
                Ok(before * 10 + digit_value(s.last()))
            },
        }
    }
}

/// The number that `s` spells: digits, with at most one `+` before them.
pub open spec fn parse_unsigned(s: Seq<char>, max: nat) -> Result<nat, IntError> {
    if s.len() == 0 {
        Err(IntError::Empty)
    } else if s.len() == 1 && (s[0] == '+' || s[0] == '-') {
        Err(IntError::InvalidDigit)
    } else if s[0] == '+' {
        digits_value(s.drop_first(), max)
    } else {
        digits_value(s, max)
    }
}

/// `n` in decimal digits, without leading zeros.
pub open spec fn decimal(n: nat) -> Seq<char>
    decreases n,
{
    if n < 10 {
        seq![digit_char(n)]
    } else {
        decimal(n / 10).push(digit_char(n % 10))
    }
}

/// Reading the first `k + 1` characters of `s` follows from reading the
/// first `k`.
proof fn digits_value_step(s: Seq<char>, k: int, max: nat)
    requires
        0 <= k < s.len(),
    ensures
        digits_value(s.subrange(0, k + 1), max) == match digits_value(s.subrange(0, k), max) {
            Err(e) => Err(e),
            Ok(before) => if !is_digit(s[k]) {
                Err(IntError::InvalidDigit)
            } else if before * 10 + digit_value(s[k]) > max {
                Err(IntError::Overflow)
            } else {
                Ok(before * 10 + digit_value(s[k]))
            },
        },
{
    let p = s.subrange(0, k + 1);
    assert(p.drop_last() =~= s.subrange(0, k));
    assert(p.last() == s[k]);
}

/// Once reading a prefix of `s` has failed, reading `s` fails the same way.
proof fn digits_value_fails_on(s: Seq<char>, k: int, max: nat)
    requires
        0 <= k <= s.len(),
        digits_value(s.subrange(0, k), max) is Err,
    ensures
        digits_value(s, max) == digits_value(s.subrange(0, k), max),
    decreases s.len() - k,
{
    if k == s.len() {
        assert(s.subrange(0, k) =~= s);
    } else {
        digits_value_step(s, k, max);
        digits_value_fails_on(s, k + 1, max);
    }
}

/// Reads the number that `text` spells, if it is at most `max`.
pub fn parse_number(text: &str, max: u32) -> (r: Result<u32, IntError>)
    ensures
        match parse_unsigned(text@, max as nat) {
            Ok(n) => r == Ok::<u32, IntError>(n as u32) && n <= max,
            Err(e) => r == Err::<u32, IntError>(e),
        },
{
    let v = chars_of(text);
    let n = v.len();
    if n == 0 {
        return Err(IntError::Empty);
    }
    if n == 1 && (v[0] == '+' || v[0] == '-') {
        return Err(IntError::InvalidDigit);
    }
    let first: usize = if v[0] == '+' {
        1
    } else {
        0
    };
    let ghost digits = v@.subrange(first as int, n as int);
    assert(digits =~= if first == 1 {
        v@.drop_first()
    } else {
        v@
    });
    let mut value: u64 = 0;
    let mut i: usize = first;
    assert(digits.subrange(0, 0) =~= Seq::<char>::empty());
    while i < n
        invariant
            n == v@.len(),
            first <= i <= n,
            digits == v@.subrange(first as int, n as int),
            parse_unsigned(text@, max as nat) == digits_value(digits, max as nat),
            value <= max,
            digits_value(digits.subrange(0, i - first), max as nat) == Ok::<nat, IntError>(
                value as nat,
            ),
        decreases n - i,
    {
        let c = v[i];
        proof {
            digits_value_step(digits, i - first, max as nat);
            assert(digits[i - first] == c);
        }
        if !(c >= '0' && c <= '9') {
            proof {
                assert(!is_digit(c));
                assert(digits_value(digits.subrange(0, i - first + 1), max as nat) is Err);
                digits_value_fails_on(digits, i - first + 1, max as nat);
            }
            return Err(IntError::InvalidDigit);
        }
        let d: u64 = (c as u32 - '0' as u32) as u64;
        let next: u64 = value * 10 + d;
        if next > max as u64 {
            proof {
                assert(d == digit_value(c));
                assert(digits_value(digits.subrange(0, i - first + 1), max as nat) is Err);
                digits_value_fails_on(digits, i - first + 1, max as nat);
            }
            return Err(IntError::Overflow);
        }
        value = next;
        i += 1;
    }
    assert(digits.subrange(0, n - first) =~= digits);
    Ok(value as u32)
}

/// Writes `n` in decimal digits.
pub fn render_number(n: u64) -> (s: String)
    ensures
        s@ == decimal(n as nat),
{
    let mut digits: Vec<char> = Vec::new();
    let mut rest: u64 = n;
    // The digits of `n` from the last to the first.
    while rest >= 10
        invariant
            decimal(n as nat) == decimal(rest as nat) + digits@.reverse(),
        decreases rest,
    {
        let d: u32 = (rest % 10) as u32;
        let c: char = char_of_digit(d);
        let ghost old_digits = digits@;
        digits.push(c);
        assert(decimal(rest as nat) == decimal((rest / 10) as nat).push(c));
        assert(digits@.reverse() =~= seq![c] + old_digits.reverse());
        assert(decimal((rest / 10) as nat).push(c) + old_digits.reverse() =~= decimal(
            (rest / 10) as nat,
        ) + (seq![c] + old_digits.reverse()));
        rest = rest / 10;
    }
    let c: char = char_of_digit(rest as u32);
    let ghost old_digits = digits@;
    digits.push(c);
    assert(digits@.reverse() =~= seq![c] + old_digits.reverse());
    assert(decimal(n as nat) =~= digits@.reverse());
    // Turn them round.
    let mut text: Vec<char> = Vec::new();
    let mut i: usize = digits.len();
    while i > 0
        invariant
            i <= digits@.len(),
            text@ == digits@.reverse().subrange(0, digits@.len() - i),
        decreases i,
    {
        i -= 1;
        text.push(digits[i]);
        assert(text@ =~= digits@.reverse().subrange(0, digits@.len() - i));
    }
    assert(text@ =~= digits@.reverse());
    let s = string_of(&text, 0, text.len());
    assert(text@.subrange(0, text@.len() as int) =~= text@);
    s
}

/// The digit that stands for `d`.
fn char_of_digit(d: u32) -> (c: char)
    requires
        d < 10,
    ensures
        c == digit_char(d as nat),
{
    if d == 0 {
        '0'
    } else if d == 1 {
        '1'
    } else if d == 2 {
        '2'
    } else if d == 3 {
        '3'
    } else if d == 4 {
        '4'
    } else if d == 5 {
        '5'
    } else if d == 6 {
        '6'
    } else if d == 7 {
        '7'
    } else if d == 8 {
        '8'
    } else {
        '9'
    }
}

/// A number is written in digits alone, and the digits spell it.
pub proof fn digits_spell_the_number(n: nat, max: nat)
    requires
        n <= max,
    ensures
        decimal(n).len() >= 1,
        forall|i: int| 0 <= i < decimal(n).len() ==> is_digit(#[trigger] decimal(n)[i]),
        digits_value(decimal(n), max) == Ok::<nat, IntError>(n),
    decreases n,
{
    if n >= 10 {
        digits_spell_the_number(n / 10, max);
        let text = decimal(n);
        assert(text.drop_last() =~= decimal(n / 10));
        assert(text.last() == digit_char(n % 10));
        assert(is_digit(digit_char(n % 10)));
        assert(digit_value(digit_char(n % 10)) == n % 10);
        assert((n / 10) * 10 + n % 10 == n);
        assert(digits_value(text.drop_last(), max) == Ok::<nat, IntError>(n / 10));
        assert forall|i: int| 0 <= i < text.len() implies is_digit(#[trigger] text[i]) by {
            if i < text.len() - 1 {
                assert(text[i] == decimal(n / 10)[i]);
            }
        }
    } else {
        let text = decimal(n);
        assert(text.drop_last() =~= Seq::<char>::empty());
        assert(text.last() == digit_char(n));
        assert(is_digit(digit_char(n)));
        assert(digit_value(digit_char(n)) == n);
        assert(digits_value(text.drop_last(), max) == Ok::<nat, IntError>(0));
    }
}

/// Reading what was written gives the number back.
pub proof fn written_numbers_read_back(n: nat, max: nat)
    requires
        n <= max,
    ensures
        parse_unsigned(decimal(n), max) == Ok::<nat, IntError>(n),
{
    digits_spell_the_number(n, max);
    assert(is_digit(decimal(n)[0]));
}

} // verus!
