//! Shortening of long texts, human-readable byte counts and lower bounds.

use vstd::prelude::*;

use crate::numbers::decimal;
use crate::numbers::decimal_of;
use crate::numbers::digit;
use crate::numbers::digit_of;
use crate::text::chars_of;
use crate::text::string_of;

verus! {

/// A text cut down to `max` characters, with a marker where something was cut.
pub open spec fn clipped(text: Seq<char>, max: nat) -> Seq<char> {
    if text.len() <= max {
        text
    } else {
        text.take(max as int) + "\n... (truncated)"@
    }
}

/// Truncates `text` to at most `max` Unicode scalar values, appending a marker
/// when truncation occurs.
pub fn clip(text: &str, max: usize) -> (r: String)
    ensures
        r@ == clipped(text@, max as nat),
{
    let chars = chars_of(text);
    if chars.len() <= max {
        string_of(chars.as_slice())
    } else {
        let mut r = string_of(vstd::slice::slice_subrange(chars.as_slice(), 0, max));
        r.append("\n... (truncated)");
        r
    }
}

/// A clipped text keeps the beginning of the text, is the text itself where
/// that is short enough, and is never longer than the limit and the marker.
pub proof fn law_clip_bounds(text: Seq<char>, max: nat)
    ensures
        text.len() <= max ==> clipped(text, max) == text,
        text.len() > max ==> clipped(text, max).take(max as int) == text.take(max as int),
        text.len() > max ==> clipped(text, max) != text.take(max as int),
        clipped(text, max).len() <= max + 16,
{
    reveal_strlit("\n... (truncated)");
    if text.len() > max {
        assert(clipped(text, max).take(max as int) == text.take(max as int));
    }
}

/// A configured number as it is applied: at least one.
pub open spec fn at_least_one(n: usize) -> usize {
    if n < 1 {
        1
    } else {
        n
    }
}

/// Raises a configured number to at least one.
pub fn raised_to_one(n: usize) -> (r: usize)
    ensures
        r == at_least_one(n),
{
    if n < 1 {
        1
    } else {
        n
    }
}

pub const KB: u64 = 1024;

pub const MB: u64 = 1048576;

pub const GB: u64 = 1073741824;

/// The integer nearest to `n / unit`, the even one of two that are equally near.
pub open spec fn round_half_even(n: nat, unit: nat) -> nat {
    let below = n / unit;
    let rest = n % unit;
    if 2 * rest > unit || (2 * rest == unit && below % 2 == 1) {
        below + 1
    } else {
        below
    }
}

/// The distance between neighbouring double-precision numbers at `n`, or 1
/// where they are closer than that.
pub open spec fn spacing(n: nat) -> nat
    decreases n,
{
    if n < 0x20_0000_0000_0000 {
        1
    } else {
        2 * spacing(n / 2)
    }
}

/// The double-precision number nearest to `n`, the even one of two that are
/// equally near. It is `n` itself up to two to the power of 53.
pub open spec fn nearest_double(n: nat) -> nat {
    round_half_even(n, spacing(n)) * spacing(n)
}

/// A count of at most two to the power of 53 is not changed by double precision.
pub proof fn law_nearest_double_exact(n: nat)
    requires
        n <= 0x20_0000_0000_0000,
    ensures
        nearest_double(n) == n,
{
    if n == 0x20_0000_0000_0000 {
        reveal_with_fuel(spacing, 3);
        assert(spacing(n) == 2);
    } else {
        assert(spacing(n) == 1);
    }
}

/// A count other than zero stays one in double precision.
pub proof fn lemma_nearest_double_positive(n: nat)
    requires
        n > 0,
    ensures
        nearest_double(n) > 0,
{
    lemma_spacing(n);
    let step = spacing(n);
    assert(n / step >= 1) by (nonlinear_arith)
        requires
            1 <= step <= n,
    ;
    assert(nearest_double(n) > 0) by (nonlinear_arith)
        requires
            nearest_double(n) == round_half_even(n, step) * step,
            round_half_even(n, step) >= 1,
            step >= 1,
    ;
}

proof fn lemma_spacing(n: nat)
    requires
        n > 0,
    ensures
        1 <= spacing(n) <= n,
    decreases n,
{
    if n >= 0x20_0000_0000_0000 {
        lemma_spacing(n / 2);
    }
}

/// `n / unit` rounded to two decimals.
pub open spec fn with_two_decimals(n: nat, unit: nat) -> Seq<char> {
    let hundredths = round_half_even(100 * n, unit);
    decimal(hundredths / 100) + seq![
        '.',
        digit((hundredths / 10 % 10) as int),
        digit((hundredths % 10) as int),
    ]
}

/// A byte count in the largest unit that it exceeds, computed in double
/// precision.
pub open spec fn size_text(size: nat) -> Seq<char> {
    let n = nearest_double(size);
    if n > GB {
        with_two_decimals(n, GB as nat) + " GB"@
    } else if n > MB {
        with_two_decimals(n, MB as nat) + " MB"@
    } else if n > KB {
        with_two_decimals(n, KB as nat) + " KB"@
    } else {
        decimal(n) + " B"@
    }
}

/// Divides and rounds to the nearest integer, the even one of two that are
/// equally near.
pub fn rounded(n: u128, unit: u128) -> (r: u128)
    requires
        0 < unit <= u128::MAX / 2,
        n < u128::MAX,
    ensures
        r == round_half_even(n as nat, unit as nat),
        n / unit <= r <= n / unit + 1,
{
    let below: u128 = n / unit;
    let rest: u128 = n % unit;
    if 2 * rest > unit || (2 * rest == unit && below % 2 == 1) {
        assert(below <= n) by (nonlinear_arith)
            requires
                below == n / unit,
                unit > 0,
        ;
        below + 1
    } else {
        below
    }
}

fn spacing_of(n: u64) -> (r: u64)
    ensures
        r == spacing(n as nat),
        1 <= r <= 4096,
        r <= 1 || 0x10_0000_0000_0000 * r <= n,
        n < 0x20_0000_0000_0000 * r,
    decreases n,
{
    if n < 0x20_0000_0000_0000 {
        1
    } else {
        2 * spacing_of(n / 2)
    }
}

/// Finds the double-precision number nearest to `n`.
pub fn nearest_double_of(n: u64) -> (r: u128)
    ensures
        r == nearest_double(n as nat),
        n > 0 ==> r > 0,
        r <= n + 4096,
{
    let step: u64 = spacing_of(n);
    let units: u128 = rounded(n as u128, step as u128);
    assert(units * step <= n + step) by (nonlinear_arith)
        requires
            units <= n as int / step as int + 1,
            step >= 1,
    ;
    assert(n > 0 ==> units * step > 0) by (nonlinear_arith)
        requires
            n as int / step as int <= units,
            1 <= step,
            step <= 1 || 0x10_0000_0000_0000 * step <= n,
    ;
    units * step as u128
}

fn two_decimals_of(n: u128, unit: u64) -> (r: String)
    requires
        unit >= KB,
        n <= 0x1_0000_0000_0001_0000,
    ensures
        r@ == with_two_decimals(n as nat, unit as nat),
{
    let hundredths: u128 = rounded(100 * n, unit as u128);
    assert(100 * n / (unit as int) <= 100 * n / 1024) by (nonlinear_arith)
        requires
            unit >= 1024,
            n >= 0,
    ;
    let mut r = decimal_of((hundredths / 100) as u64);
    r.push('.');
    r.push(digit_of((hundredths / 10 % 10) as u64));
    r.push(digit_of((hundredths % 10) as u64));
    assert(r@ == with_two_decimals(n as nat, unit as nat));
    r
}

/// Formats a byte count as a human-readable string.
pub fn format_size(size: u64) -> (r: String)
    ensures
        r@ == size_text(size as nat),
{
    let n: u128 = nearest_double_of(size);
    if n > GB as u128 {
        let mut r = two_decimals_of(n, GB);
        r.append(" GB");
        r
    } else if n > MB as u128 {
        let mut r = two_decimals_of(n, MB);
        r.append(" MB");
        r
    } else if n > KB as u128 {
        let mut r = two_decimals_of(n, KB);
        r.append(" KB");
        r
    } else {
        let mut r = decimal_of(n as u64);
        r.append(" B");
        r
    }
}

/// A text that is too long ends in a marker, right behind the characters that are
/// kept.
pub proof fn law_clip_marks_the_cut(kept: Seq<char>, rest: Seq<char>)
    ensures
        rest.len() > 0 ==> clipped(kept + rest, kept.len()) == kept + "\n... (truncated)"@,
        clipped(kept, kept.len()) == kept,
        clipped(kept, kept.len() + rest.len()) == kept,
{
    assert((kept + rest).take(kept.len() as int) == kept);
}

/// A rounded quotient is as near as an integer can be, and even where two are
/// equally near.
pub proof fn law_round_half_even(n: nat, unit: nat)
    requires
        unit > 0,
    ensures
        ({
            let r = round_half_even(n, unit);
            &&& 2 * n <= 2 * r * unit + unit
            &&& 2 * r * unit <= 2 * n + unit
            &&& (2 * n == 2 * r * unit + unit || 2 * r * unit == 2 * n + unit) ==> r % 2 == 0
        }),
{
    let r = round_half_even(n, unit);
    let below = n / unit;
    let rest = n % unit;
    vstd::arithmetic::div_mod::lemma_fundamental_div_mod(n as int, unit as int);
    assert(unit * below == below * unit) by (nonlinear_arith);
    assert((below + 1) * unit == below * unit + unit) by (nonlinear_arith);
    assert(2 * r * unit == 2 * (r * unit)) by (nonlinear_arith);
}

/// The spacing of double-precision numbers is a power of two, such that a number
/// of 53 binary digits remains.
pub proof fn law_spacing(n: nat)
    ensures
        exists|k: nat| spacing(n) == #[trigger] vstd::arithmetic::power2::pow2(k),
        n < 0x20_0000_0000_0000 * spacing(n),
        spacing(n) == 1 || 0x10_0000_0000_0000 * spacing(n) <= n,
    decreases n,
{
    vstd::arithmetic::power2::lemma2_to64();
    if n < 0x20_0000_0000_0000 {
        assert(spacing(n) == vstd::arithmetic::power2::pow2(0));
    } else {
        law_spacing(n / 2);
        let k = choose|k: nat| spacing(n / 2) == #[trigger] vstd::arithmetic::power2::pow2(k);
        vstd::arithmetic::power2::lemma_pow2_unfold(k + 1);
        assert(spacing(n) == vstd::arithmetic::power2::pow2(k + 1));
    }
}

/// The nearest double-precision number is a multiple of the spacing, and off by
/// no more than half of it.
pub proof fn law_nearest_double(n: nat)
    ensures
        ({
            let step = spacing(n);
            let d = nearest_double(n);
            &&& exists|m: nat| d == #[trigger] (m * step)
            &&& 2 * n <= 2 * d + step
            &&& 2 * d <= 2 * n + step
        }),
{
    let step = spacing(n);
    law_spacing(n);
    assert(step > 0);
    law_round_half_even(n, step);
    let r = round_half_even(n, step);
    assert(nearest_double(n) == r * step);
    assert(2 * r * step == 2 * (r * step)) by (nonlinear_arith);
}

/// A size is shown in the largest of the units that it exceeds, within half a
/// hundredth of it, with two decimals; up to a kilobyte it is shown in bytes.
pub proof fn law_size_text(size: nat)
    ensures
        ({
            let n = nearest_double(size);
            let (unit, suffix) = if n > 1024 * 1024 * 1024 {
                (1024nat * 1024 * 1024, " GB"@)
            } else if n > 1024 * 1024 {
                (1024nat * 1024, " MB"@)
            } else {
                (1024nat, " KB"@)
            };
            &&& n <= 1024 ==> size_text(size) == decimal(n) + " B"@
            &&& n > 1024 ==> exists|h: nat|
                2 * (100 * n) <= 2 * h * unit + unit && 2 * h * unit <= 2 * (100 * n) + unit
                    && size_text(size) == #[trigger] decimal(h / 100) + seq![
                    '.',
                    digit((h / 10 % 10) as int),
                    digit((h % 10) as int),
                ] + suffix
        }),
{
    let n = nearest_double(size);
    let unit = if n > GB {
        GB as nat
    } else if n > MB {
        MB as nat
    } else {
        KB as nat
    };
    law_round_half_even(100 * n, unit);
    let h = round_half_even(100 * n, unit);
    if n > KB {
        assert(size_text(size) == decimal(h / 100) + seq![
            '.',
            digit((h / 10 % 10) as int),
            digit((h % 10) as int),
        ] + (if n > GB {
            " GB"@
        } else if n > MB {
            " MB"@
        } else {
            " KB"@
        }));
    }
}

/// A number that is at least one is applied as it is, and zero counts as one.
pub proof fn law_at_least_one(n: usize)
    ensures
        at_least_one(n) >= 1,
        n >= 1 ==> at_least_one(n) == n,
        at_least_one(0) == 1,
{
}

} // verus!
