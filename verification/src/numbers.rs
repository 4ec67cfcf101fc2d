//! Decimal notation.

use vstd::prelude::*;

verus! {

/// The decimal digit of a number below ten.
pub open spec fn digit(n: int) -> char {
    (48 + n) as char
}

/// A number in decimal notation, without leading zeros.
pub open spec fn decimal(n: nat) -> Seq<char>
    decreases n,
{
    if n < 10 {
        seq![digit(n as int)]
    } else {
        decimal(n / 10).push(digit((n % 10) as int))
    }
}

/// The value of a decimal digit.
pub open spec fn digit_value(c: char) -> Option<nat> {
    if '0' <= c <= '9' {
        Some((c as int - 48) as nat)
    } else {
        None
    }
}

/// The number that a sequence of decimal digits stands for; the empty
/// sequence stands for zero.
pub open spec fn digits_value(s: Seq<char>) -> Option<nat>
    decreases s.len(),
{
    if s.len() == 0 {
        Some(0nat)
    } else {
        match (digits_value(s.drop_last()), digit_value(s.last())) {
            (Some(high), Some(low)) => Some(10 * high + low),
            _ => None,
        }
    }
}

/// The number that a text stands for: an optional plus sign, then decimal
/// digits, at least one, and nothing else.
pub open spec fn number(s: Seq<char>) -> Option<nat> {
    let digits = if s.len() > 0 && s[0] == '+' {
        s.drop_first()
    } else {
        s
    };
    if digits.len() == 0 {
        None
    } else {
        digits_value(digits)
    }
}

/// The decimal digit of a number below ten.
pub fn digit_of(n: u64) -> (c: char)
    requires
        n < 10,
    ensures
        c == digit(n as int),
{
    (48 + n as u8) as char
}

/// Writes a number in decimal notation.
pub fn decimal_of(n: u64) -> (r: String)
    ensures
        r@ == decimal(n as nat),
    decreases n,
{
    if n < 10 {
        let mut r = String::new();
        r.push(digit_of(n));
        assert(r@ == seq![digit(n as int)]);
        r
    } else {
        let mut r = decimal_of(n / 10);
        r.push(digit_of(n % 10));
        r
    }
}

/// Writes a number of up to twice the width of a word in decimal notation.
pub fn wide_decimal_of(n: u128) -> (r: String)
    ensures
        r@ == decimal(n as nat),
    decreases n,
{
    if n < 10 {
        let mut r = String::new();
        r.push(digit_of(n as u64));
        assert(r@ == seq![digit(n as int)]);
        r
    } else {
        let mut r = wide_decimal_of(n / 10);
        r.push(digit_of((n % 10) as u64));
        r
    }
}

/// Decimal notation tells numbers apart, and reads back as the number that it
/// was written for.
pub proof fn law_decimal_reads_back(n: nat)
    ensures
        decimal(n).len() >= 1,
        digits_value(decimal(n)) == Some(n),
        number(decimal(n)) == Some(n),
    decreases n,
{
    if n < 10 {
        assert(decimal(n).drop_last() == Seq::<char>::empty());
        assert(digits_value(Seq::<char>::empty()) == Some(0nat));
        assert(decimal(n).last() == digit(n as int));
        assert(decimal(n)[0] != '+');
    } else {
        law_decimal_reads_back(n / 10);
        assert(decimal(n).drop_last() == decimal(n / 10));
        assert(decimal(n)[0] == decimal(n / 10)[0]);
        lemma_decimal_starts_with_digit(n);
    }
}

proof fn lemma_decimal_starts_with_digit(n: nat)
    ensures
        decimal(n).len() >= 1,
        decimal(n)[0] != '+',
    decreases n,
{
    if n >= 10 {
        lemma_decimal_starts_with_digit(n / 10);
    }
}

/// Reads a number that fits in a machine word.
pub fn number_of(text: &str) -> (r: Option<usize>)
    ensures
        match r {
            Some(n) => number(text@) == Some(n as nat),
            None => number(text@) is None || number(text@)->0 > usize::MAX,
        },
{
    let chars = crate::text::chars_of(text);
    let signed = chars.len() > 0 && chars[0] == '+';
    let first: usize = if signed {
        1
    } else {
        0
    };
    let ghost digits = if signed {
        text@.drop_first()
    } else {
        text@
    };
    assert(digits == chars@.skip(first as int));
    if first == chars.len() {
        return None;
    }
    let mut value: usize = 0;
    let mut i: usize = first;
    assert(digits.take(0) == Seq::<char>::empty());
    assert(digits.take(digits.len() as int) == digits);
    while i < chars.len()
        invariant
            first <= i <= chars@.len(),
            chars@ == text@,
            digits == chars@.skip(first as int),
            digits.len() > 0,
            number(text@) == digits_value(digits),
            digits_value(digits.take(i - first)) == Some(value as nat),
        decreases chars@.len() - i,
    {
        let c = chars[i];
        let ghost next = digits.take(i - first + 1);
        assert(next.drop_last() == digits.take(i - first));
        assert(next.last() == c);
        if c < '0' || '9' < c {
            proof {
                lemma_digits_prefix(digits, i - first + 1);
            }
            return None;
        }
        let low: usize = (c as u32 - 48) as usize;
        if value > usize::MAX / 10 || value * 10 > usize::MAX - low {
            proof {
                lemma_digits_prefix(digits, i - first + 1);
            }
            return None;
        }
        value = value * 10 + low;
        i = i + 1;
    }
    assert(digits.take(i - first) == digits);
    Some(value)
}

/// More digits never make a smaller number, and a bad digit spoils the rest.
proof fn lemma_digits_prefix(s: Seq<char>, n: int)
    requires
        0 <= n <= s.len(),
    ensures
        digits_value(s.take(n)) is None ==> digits_value(s) is None,
        digits_value(s) is Some ==> digits_value(s)->0 >= digits_value(s.take(n))->0,
    decreases s.len(),
{
    if n == s.len() {
        assert(s.take(n) == s);
    } else {
        lemma_digits_prefix(s.drop_last(), n);
        assert(s.drop_last().take(n) == s.take(n));
    }
}

} // verus!
