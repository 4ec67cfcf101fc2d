//! Shares in whole percent, as double-precision arithmetic gives them.

use vstd::arithmetic::power2::lemma2_to64;
use vstd::arithmetic::power2::lemma_pow2_pos;
use vstd::arithmetic::power2::lemma_pow2_unfold;
use vstd::arithmetic::power2::pow2;
use vstd::prelude::*;

use crate::util::nearest_double;
use crate::util::nearest_double_of;
use crate::util::round_half_even;
use crate::util::rounded;

verus! {

/// Two to the power of 52. A double-precision number is an integer from here
/// up to twice as much, times a power of two.
pub const HIDDEN_BIT: u128 = 0x10_0000_0000_0000;

/// How far `n / d` lies from the range of that integer.
pub open spec fn out_of_range(n: nat, d: nat) -> int {
    if n < d * HIDDEN_BIT {
        d * HIDDEN_BIT - n
    } else if n >= 2 * d * HIDDEN_BIT {
        n - 2 * d * HIDDEN_BIT + 1
    } else {
        0
    }
}

/// The double-precision number nearest to `n / d`, the even one of two that are
/// equally near: an integer and the power of two that it is multiplied by.
pub open spec fn quotient(n: nat, d: nat) -> (nat, int)
    decreases out_of_range(n, d),
{
    if n == 0 || d == 0 {
        (0, 0)
    } else if n < d * HIDDEN_BIT {
        let (m, e) = quotient(2 * n, d);
        (m, e - 1)
    } else if n >= 2 * d * HIDDEN_BIT {
        let (m, e) = quotient(n, 2 * d);
        (m, e + 1)
    } else {
        (round_half_even(n, d), 0)
    }
}

/// The distance of two numbers.
pub open spec fn distance(a: nat, b: nat) -> nat {
    if a < b {
        (b - a) as nat
    } else {
        (a - b) as nat
    }
}

/// `quotient` is within half a unit in the last place of what it stands for.
pub proof fn law_quotient_is_near(n: nat, d: nat)
    requires
        n > 0,
        d > 0,
    ensures
        ({
            let (m, e) = quotient(n, d);
            &&& HIDDEN_BIT <= m <= 2 * HIDDEN_BIT
            &&& e <= 0 ==> 2 * distance(n * pow2((-e) as nat), m * d) <= d
            &&& e > 0 ==> 2 * distance(n, m * d * pow2(e as nat)) <= d * pow2(e as nat)
        }),
    decreases out_of_range(n, d),
{
    lemma2_to64();
    let (m, e) = quotient(n, d);
    if n < d * HIDDEN_BIT {
        law_quotient_is_near(2 * n, d);
        lemma_quotient_sign(2 * n, d);
        lemma_pow2_unfold((-e) as nat);
        let p = pow2((-e - 1) as nat);
        assert(2 * n * p == n * (2 * p)) by (nonlinear_arith);
    } else if n >= 2 * d * HIDDEN_BIT {
        law_quotient_is_near(n, 2 * d);
        lemma_quotient_sign(n, 2 * d);
        lemma_pow2_unfold(e as nat);
        let p = pow2((e - 1) as nat);
        assert(m * (2 * d) * p == m * d * (2 * p)) by (nonlinear_arith);
        assert(2 * d * p == d * (2 * p)) by (nonlinear_arith);
        if e == 1 {
            assert(n * pow2(0) == n);
            assert(m * d * pow2(1) == m * (2 * d)) by (nonlinear_arith)
                requires
                    pow2(1) == 2,
            ;
            assert(d * pow2(1) == 2 * d) by (nonlinear_arith)
                requires
                    pow2(1) == 2,
            ;
        }
    } else {
        lemma_rounding(n, d);
        assert(n * pow2(0) == n);
    }
}

proof fn lemma_rounding(n: nat, d: nat)
    requires
        d > 0,
        d * HIDDEN_BIT <= n < 2 * d * HIDDEN_BIT,
    ensures
        HIDDEN_BIT <= round_half_even(n, d) <= 2 * HIDDEN_BIT,
        2 * distance(n, round_half_even(n, d) * d) <= d,
{
    let below = n / d;
    let rest = n % d;
    vstd::arithmetic::div_mod::lemma_fundamental_div_mod(n as int, d as int);
    assert(HIDDEN_BIT <= below < 2 * HIDDEN_BIT) by (nonlinear_arith)
        requires
            n == d * below + rest,
            rest < d,
            d * HIDDEN_BIT <= n < 2 * d * HIDDEN_BIT,
            d > 0,
    ;
    assert(below * d == d * below) by (nonlinear_arith);
    assert((below + 1) * d == d * below + d) by (nonlinear_arith);
}

/// The exponent is not above zero where the quotient is small, and not below
/// zero where it is not.
proof fn lemma_quotient_sign(n: nat, d: nat)
    requires
        n > 0,
        d > 0,
    ensures
        n < 2 * d * HIDDEN_BIT ==> quotient(n, d).1 <= 0,
        n >= d * HIDDEN_BIT ==> quotient(n, d).1 >= 0,
    decreases out_of_range(n, d),
{
    if n < d * HIDDEN_BIT {
        lemma_quotient_sign(2 * n, d);
    } else if n >= 2 * d * HIDDEN_BIT {
        lemma_quotient_sign(n, 2 * d);
    }
}

/// The share `current / total` in whole percent: both counts are taken in
/// double precision, divided, multiplied by a hundred, and the result is
/// rounded to an integer, to the even one of two that are equally near.
pub open spec fn percent(current: nat, total: nat) -> nat {
    let (m, e) = quotient(nearest_double(current), nearest_double(total));
    let p = nearest_double(100 * m);
    if e >= 0 {
        p * pow2(e as nat)
    } else {
        round_half_even(p, pow2((-e) as nat))
    }
}

/// A phase that has not begun is at 0 percent, and one that is complete is at
/// 100 percent.
pub proof fn law_share_begins_at_0_and_ends_at_100(total: nat)
    requires
        total > 0,
    ensures
        percent(0, total) == 0,
        percent(total, total) == 100,
{
    lemma2_to64();
    crate::util::law_nearest_double_exact(0);
    crate::util::lemma_nearest_double_positive(total);
    let n = nearest_double(total);
    lemma_quotient_of_equals(n, 0);
    assert(n * pow2(0) == n);
    vstd::arithmetic::power2::lemma_pow2_adds(32, 20);
    assert(pow2(52) == HIDDEN_BIT);
    let hundred = 100 * HIDDEN_BIT as nat;
    assert(nearest_double(hundred) == hundred) by {
        reveal_with_fuel(crate::util::spacing, 8);
        assert(crate::util::spacing(hundred) == 64);
    }
    assert(round_half_even(hundred, HIDDEN_BIT as nat) == 100);
}

proof fn lemma_quotient_of_equals(n: nat, k: nat)
    requires
        n > 0,
        k <= 52,
    ensures
        quotient(n * pow2(k), n) == (HIDDEN_BIT as nat, k - 52),
    decreases 52 - k,
{
    lemma2_to64();
    vstd::arithmetic::power2::lemma_pow2_adds(32, 20);
    assert(pow2(52) == HIDDEN_BIT);
    lemma_pow2_pos(k);
    let p = pow2(k);
    assert(n * p > 0) by (nonlinear_arith)
        requires
            n > 0,
            p > 0,
    ;
    if k == 52 {
        let bit = HIDDEN_BIT as nat;
        assert(n * bit < 2 * n * bit) by (nonlinear_arith)
            requires
                n > 0,
                bit > 0,
        ;
        vstd::arithmetic::div_mod::lemma_div_multiples_vanish(bit as int, n as int);
        vstd::arithmetic::div_mod::lemma_mod_multiples_basic(bit as int, n as int);
        assert(n * bit == bit * n) by (nonlinear_arith);
        assert(round_half_even(n * bit, n) == bit);
    } else {
        lemma_quotient_of_equals(n, k + 1);
        lemma_pow2_unfold(k + 1);
        assert(n * (2 * p) == 2 * (n * p)) by (nonlinear_arith);
        vstd::arithmetic::power2::lemma_pow2_strictly_increases(k, 52);
        assert(n * p < n * HIDDEN_BIT) by (nonlinear_arith)
            requires
                n > 0,
                p < HIDDEN_BIT,
        ;
    }
}

/// Computes the share `current / total` in whole percent.
pub fn percent_of(current: u64, total: u64) -> (r: u128)
    requires
        total > 0,
    ensures
        r == percent(current as nat, total as nat),
{
    let a: u128 = nearest_double_of(current);
    let b: u128 = nearest_double_of(total);
    proof {
        lemma2_to64();
    }
    if current == 0 {
        proof {
            crate::util::law_nearest_double_exact(0);
        }
        return 0;
    }
    let ghost (m, e) = quotient(a as nat, b as nat);
    let mut n: u128 = a;
    let mut d: u128 = b;
    let mut down: u128 = 1;
    let mut up: u128 = 1;
    let ghost mut k: nat = 0;
    while n < d * HIDDEN_BIT
        invariant
            d == b,
            0 < a <= 0x1_0000_0000_0000_1000,
            0 < b <= 0x1_0000_0000_0000_1000,
            (m, e) == quotient(a as nat, b as nat),
            n == a * down,
            n >= down,
            n > 0,
            n < 2 * d * HIDDEN_BIT || k == 0,
            down == pow2(k),
            quotient(n as nat, d as nat) == (m, e + k),
            k == 0 ==> n == a,
        decreases out_of_range(n as nat, d as nat),
    {
        proof {
            lemma_pow2_unfold(k + 1);
            assert(a * (2 * down) == 2 * (a * down)) by (nonlinear_arith);
            k = k + 1;
        }
        n = 2 * n;
        down = 2 * down;
    }
    let ghost mut l: nat = 0;
    while n >= 2 * d * HIDDEN_BIT
        invariant
            0 < d,
            n <= 0x1_0000_0000_0000_1000 || n < 2 * d * HIDDEN_BIT,
            n < 0x4000_0000_0000_0000_0000_0000_0000_0000,
            d <= 0x1_0000_0000_0000_1000,
            n >= d * HIDDEN_BIT,
            up <= d,
            l > 0 ==> down == 1,
            n >= 2 * d * HIDDEN_BIT ==> k == 0,
            down == pow2(k),
            l > 0 ==> k == 0,
            up == pow2(l),
            l == 0 ==> up == 1,
            l > 0 ==> n <= 0x1_0000_0000_0000_1000,
            quotient(n as nat, d as nat) == (m, e + k - l),
        decreases out_of_range(n as nat, d as nat),
    {
        proof {
            lemma_pow2_unfold(l + 1);
            l = l + 1;
        }
        d = 2 * d;
        up = 2 * up;
    }
    let q: u128 = rounded(n, d);
    proof {
        lemma_rounding(n as nat, d as nat);
        assert(quotient(n as nat, d as nat) == (round_half_even(n as nat, d as nat), 0int));
        assert(q == m);
        assert(e == l - k);
    }
    let p: u128 = nearest_double_of((100 * q) as u64);
    if down == 1 {
        proof {
            if k > 0 {
                lemma_pow2_unfold(k);
                lemma_pow2_pos((k - 1) as nat);
            }
            assert(p * up <= 0x1000_0000_0000_0000 * 0x1_0000_0000_0000_1000)
                by (nonlinear_arith)
                requires
                    p <= 0x1000_0000_0000_0000,
                    up <= 0x1_0000_0000_0000_1000,
            ;
        }
        p * up
    } else {
        rounded(p, down)
    }
}

/// A share in whole percent is the nearest integer to a hundred times the
/// quotient, up to what double precision loses: it is off by no more than a half
/// and a tiny part of the quotient.
pub proof fn law_percent_is_near(current: nat, total: nat)
    requires
        0 < total < 0x20_0000_0000_0000,
        current < 0x20_0000_0000_0000,
    ensures
        0x200_0000_0000 * distance(percent(current, total) * total, 100 * current)
            <= 0x100_0000_0000 * total + current,
{
    crate::util::law_nearest_double_exact(current);
    crate::util::law_nearest_double_exact(total);
    if current == 0 {
        law_share_begins_at_0_and_ends_at_100(total);
        assert(0 * total == 0);
    } else {
        let (m, e) = quotient(current, total);
        law_quotient_is_near(current, total);
        assert(current < 2 * total * HIDDEN_BIT) by (nonlinear_arith)
            requires
                current < 0x20_0000_0000_0000,
                total >= 1,
                HIDDEN_BIT == 0x10_0000_0000_0000,
        ;
        lemma_quotient_sign(current, total);
        let k = pow2((-e) as nat);
        lemma_pow2_pos((-e) as nat);
        let p = nearest_double(100 * m);
        crate::util::law_nearest_double(100 * m);
        lemma_spacing_of_hundredfold(m);
        crate::util::law_round_half_even(p, k);
        lemma2_to64();
        let r = percent(current, total);
        if e == 0 {
            assert(k == 1);
            assert(r == p * 1);
            assert(2 * r * k == 2 * p) by (nonlinear_arith)
                requires
                    r == p,
                    k == 1,
            ;
        }
        assert(2 * p <= 2 * r * k + k && 2 * r * k <= 2 * p + k);
        lemma_percent_bound(
            current as int,
            total as int,
            m as int,
            k as int,
            p as int,
            r as int,
        );
    }
}

proof fn lemma_spacing_of_hundredfold(m: nat)
    requires
        m <= 2 * HIDDEN_BIT,
    ensures
        crate::util::spacing(100 * m) <= 128,
{
    crate::util::law_spacing(100 * m);
    let step = crate::util::spacing(100 * m);
    if step > 128 {
        assert(0x10_0000_0000_0000 * step <= 100 * m);
        // A power of two above 128 is 256 or more.
        let j = choose|j: nat| step == #[trigger] pow2(j);
        lemma2_to64();
        if j <= 7 {
            if j < 7 {
                vstd::arithmetic::power2::lemma_pow2_strictly_increases(j, 7);
            }
        } else {
            if j > 8 {
                vstd::arithmetic::power2::lemma_pow2_strictly_increases(8, j);
            }
            assert(step >= 256);
        }
    }
}

proof fn lemma_percent_bound(a: int, b: int, m: int, k: int, p: int, r: int)
    requires
        a > 0,
        b > 0,
        k >= 1,
        m >= 0x10_0000_0000_0000,
        2 * (a * k) <= 2 * (m * b) + b,
        2 * (m * b) <= 2 * (a * k) + b,
        2 * (100 * m) <= 2 * p + 128,
        2 * p <= 2 * (100 * m) + 128,
        2 * p <= 2 * r * k + k,
        2 * r * k <= 2 * p + k,
    ensures
        0x200_0000_0000 * (r * b - 100 * a) <= 0x100_0000_0000 * b + a,
        0x200_0000_0000 * (100 * a - r * b) <= 0x100_0000_0000 * b + a,
{
    let x = r * b - 100 * a;
    let rk = r * k;
    assert(2 * r * k == 2 * rk) by (nonlinear_arith)
        requires
            rk == r * k,
    ;
    // Both sides times the unit of the quotient.
    assert(2 * (rk * b) <= 2 * (p * b) + k * b) by (nonlinear_arith)
        requires
            2 * rk <= 2 * p + k,
            b > 0,
    ;
    assert(2 * (p * b) <= 2 * (rk * b) + k * b) by (nonlinear_arith)
        requires
            2 * p <= 2 * rk + k,
            b > 0,
    ;
    assert(2 * (p * b) <= 200 * (m * b) + 128 * b) by (nonlinear_arith)
        requires
            2 * p <= 200 * m + 128,
            b > 0,
    ;
    assert(200 * (m * b) <= 2 * (p * b) + 128 * b) by (nonlinear_arith)
        requires
            200 * m <= 2 * p + 128,
            b > 0,
    ;
    assert(x * k == rk * b - 100 * (a * k)) by (nonlinear_arith)
        requires
            x == r * b - 100 * a,
            rk == r * k,
    ;
    assert(2 * (x * k) <= k * b + 228 * b);
    assert(-(2 * (x * k)) <= k * b + 228 * b);
    // What the roundings lose is small against the quotient.
    assert(0x20_0000_0000_0000 * b <= 2 * (m * b)) by (nonlinear_arith)
        requires
            m >= 0x10_0000_0000_0000,
            b > 0,
    ;
    let ak = a * k;
    assert(0x20_0000_0000_0000 * b <= 2 * ak + b);
    assert(250688651132928 * b <= ak) by (nonlinear_arith)
        requires
            0x20_0000_0000_0000 * b <= 2 * ak + b,
            b > 0,
    ;
    assert(0x200_0000_0000 * (x * k) <= 0x100_0000_0000 * (k * b) + a * k);
    assert(-(0x200_0000_0000 * (x * k)) <= 0x100_0000_0000 * (k * b) + a * k);
    assert(0x200_0000_0000 * x <= 0x100_0000_0000 * b + a) by (nonlinear_arith)
        requires
            0x200_0000_0000 * (x * k) <= 0x100_0000_0000 * (k * b) + a * k,
            k >= 1,
    ;
    assert(-(0x200_0000_0000 * x) <= 0x100_0000_0000 * b + a) by (nonlinear_arith)
        requires
            -(0x200_0000_0000 * (x * k)) <= 0x100_0000_0000 * (k * b) + a * k,
            k >= 1,
    ;
}

} // verus!
