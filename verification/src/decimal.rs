//! Decimal notation: the text of an integer, and the integer of a text.

use crate::text::chars_of;
use vstd::prelude::*;

verus! {

/// Whether `c` is one of the ten ASCII digits.
pub open spec fn is_digit(c: char) -> bool {
    '0' <= c <= '9'
}

/// The digit that stands for `d`, for `0 <= d <= 9`.
pub open spec fn digit_char(d: int) -> char {
    ('0' as int + d) as char
}

/// The number that the digit `c` stands for.
pub open spec fn digit_value(c: char) -> int {
    c as int - '0' as int
}

/// The decimal digits of `n`, most significant first, without leading zeros.
pub open spec fn nat_text(n: nat) -> Seq<char>
    decreases n,
{
    if n < 10 {
        seq![digit_char(n as int)]
    } else {
        nat_text(n / 10).push(digit_char((n % 10) as int))
    }
}

/// The decimal text of `n`: a minus sign if `n` is negative, then the digits
/// of its absolute value.
pub open spec fn int_text(n: int) -> Seq<char> {
    if n < 0 {
        seq!['-'] + nat_text((-n) as nat)
    } else {
        nat_text(n as nat)
    }
}

/// Whether every character of `s` is a digit.
pub open spec fn all_digits(s: Seq<char>) -> bool {
    forall|i: int| 0 <= i < s.len() ==> is_digit(#[trigger] s[i])
}

/// The number that the digits `s` denote in base ten; leading zeros count
/// for nothing, and the empty text denotes zero.
pub open spec fn digits_value(s: Seq<char>) -> nat
    decreases s.len(),
{
    if s.len() == 0 {
        0
    } else {
        (digits_value(s.drop_last()) * 10 + digit_value(s.last())) as nat
    }
}

/// The integer that `s` denotes: an optional sign, `+` or `-`, followed by
/// one digit or more. `None` for any other text.
pub open spec fn text_int(s: Seq<char>) -> Option<int> {
    if s.len() > 0 && s[0] == '-' {
        if s.len() > 1 && all_digits(s.skip(1)) {
            Some(-(digits_value(s.skip(1)) as int))
        } else {
            None
        }
    } else if s.len() > 0 && s[0] == '+' {
        if s.len() > 1 && all_digits(s.skip(1)) {
            Some(digits_value(s.skip(1)) as int)
        } else {
            None
        }
    } else if s.len() > 0 && all_digits(s) {
        Some(digits_value(s) as int)
    } else {
        None
    }
}

/// The 32-bit integer that `s` denotes, if it denotes an integer and that
/// integer fits.
pub open spec fn text_i32(s: Seq<char>) -> Option<i32> {
    match text_int(s) {
        Some(n) => if i32::MIN <= n <= i32::MAX {
            Some(n as i32)
        } else {
            None
        },
        None => None,
    }
}

/// The digit for `d`.
fn digit_of(d: u32) -> (c: char)
    requires
        d < 10,
    ensures
        c == digit_char(d as int),
{
    (48u8 + d as u8) as char
}

/// Appends the decimal digits of `n` to `out`.
fn push_nat_text(n: u32, out: &mut Vec<char>)
    ensures
        final(out)@ == old(out)@ + nat_text(n as nat),
    decreases n,
{
    if n >= 10 {
        push_nat_text(n / 10, out);
    }
    out.push(digit_of(n % 10));
}

/// Appends the decimal text of `n` to `out`.
pub fn push_int_text(n: i32, out: &mut Vec<char>)
    ensures
        final(out)@ == old(out)@ + int_text(n as int),
{
    if n < 0 {
        out.push('-');
        let magnitude: i64 = -(n as i64);
        push_nat_text(magnitude as u32, out);
    } else {
        push_nat_text(n as u32, out);
    }
}

/// The 32-bit integer that the text `s` denotes, or `None` where `s` is not an
/// optional sign followed by digits, or the integer does not fit.
#[verifier::loop_isolation(false)]
pub fn parse_i32(s: &str) -> (r: Option<i32>)
    ensures
        r == text_i32(s@),
{
    let chars = chars_of(s);
    let n = chars.len();
    if n == 0 {
        return None;
    }
    let negative = chars[0] == '-';
    let start: usize = if chars[0] == '-' || chars[0] == '+' {
        1
    } else {
        0
    };
    if start == n {
        return None;
    }
    let ghost digits = chars@.skip(start as int);
    // The value read so far, held at 2^31 + 1 once it has passed 2^31.
    let mut acc: i64 = 0;
    let mut i: usize = start;
    while i < n
        invariant
            start <= i <= n,
            n == chars.len(),
            digits == chars@.skip(start as int),
            all_digits(digits.take(i - start)),
            0 <= acc <= 2147483649,
            acc == if digits_value(digits.take(i - start)) < 2147483649 {
                digits_value(digits.take(i - start)) as int
            } else {
                2147483649
            },
        decreases n - i,
    {
        let c = chars[i];
        if !(c >= '0' && c <= '9') {
            assert(!is_digit(digits[i - start]));
            return None;
        }
        let d: i64 = (c as u32 - 48) as i64;
        proof {
            let next = digits.take(i - start + 1);
            assert(next.drop_last() == digits.take(i - start));
            assert(next.last() == c);
        }
        acc = acc * 10 + d;
        if acc > 2147483649 {
            acc = 2147483649;
        }
        i += 1;
    }
    assert(digits.take(n - start) == digits);
    assert(start == 0 ==> digits == s@);
    let value: i64 = if negative {
        -acc
    } else {
        acc
    };
    if value < -2147483648 || value > 2147483647 {
        None
    } else {
        Some(value as i32)
    }
}

/// The digits of a natural number are digits, at least one, and denote it.
pub proof fn lemma_nat_text_denotes(n: nat)
    ensures
        nat_text(n).len() >= 1,
        all_digits(nat_text(n)),
        digits_value(nat_text(n)) == n,
    decreases n,
{
    if n < 10 {
        let s = nat_text(n);
        assert(s.drop_last() == Seq::<char>::empty());
        assert(digits_value(s.drop_last()) == 0);
    } else {
        lemma_nat_text_denotes(n / 10);
        let s = nat_text(n);
        assert(s.drop_last() == nat_text(n / 10));
        assert(s.last() == digit_char((n % 10) as int));
        assert forall|i: int| 0 <= i < s.len() implies is_digit(#[trigger] s[i]) by {
            if i < s.len() - 1 {
                assert(s[i] == nat_text(n / 10)[i]);
            }
        }
    }
}

/// Reading the decimal text of an integer gives that integer back.
pub proof fn lemma_int_text_round_trip(n: int)
    ensures
        text_int(int_text(n)) == Some(n),
{
    if n < 0 {
        let m = (-n) as nat;
        lemma_nat_text_denotes(m);
        let s = int_text(n);
        assert(s.skip(1) == nat_text(m));
    } else {
        lemma_nat_text_denotes(n as nat);
        let s = int_text(n);
        assert(is_digit(s[0]));
    }
}

/// Two integers with the same decimal text are the same integer.
pub proof fn lemma_int_text_injective(a: int, b: int)
    requires
        int_text(a) == int_text(b),
    ensures
        a == b,
{
    lemma_int_text_round_trip(a);
    lemma_int_text_round_trip(b);
}

} // verus!
