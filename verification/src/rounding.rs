//! Binary64 floating-point rounding, computed exactly in integers.
//!
//! A vault's share is worked out as `total × percent ÷ 100` in binary64
//! arithmetic: each operand and each intermediate result is rounded to the
//! nearest binary64 number (ties to the even significand), and the quotient
//! is then cut down to a whole `u64`. The functions here compute the same
//! numbers with integers only. All values here are non-negative and far
//! below the binary64 range, so only normal numbers, with a 53-bit
//! significand, occur.

use vstd::prelude::*;

verus! {

/// 2^52: a binary64 number at or above it is a whole number.
pub open spec fn sig_min() -> nat {
    0x10_0000_0000_0000
}

/// 2^53: binary64 numbers carry 53 significant bits.
pub open spec fn sig_bound() -> nat {
    0x20_0000_0000_0000
}

/// `a / b` rounded to the nearest whole number, a tie going to the even one.
pub open spec fn div_round_even(a: nat, b: nat) -> nat {
    let q = a / b;
    let r = a % b;
    if 2 * r > b || (2 * r == b && q % 2 == 1) {
        q + 1
    } else {
        q
    }
}

/// `n / d` rounded to the nearest binary64 number, for `n / d` at least
/// 2^52. In `[2^52·2^e, 2^53·2^e)` binary64 numbers are the multiples of
/// 2^e, so the quotient is rounded at `d·2^e` and scaled back.
pub open spec fn round_wide(n: nat, d: nat) -> nat
    decreases (if d == 0 || n < sig_bound() * d {
        0
    } else {
        n - sig_bound() * d + 1
    }),
{
    if d == 0 {
        0
    } else if n < sig_bound() * d {
        div_round_even(n, d)
    } else {
        2 * round_wide(n, 2 * d)
    }
}

/// The whole part of `n / d` rounded to the nearest binary64 number. Below
/// 2^52 the quotient is doubled until it reaches that binade (doubling is
/// exact in binary64) and the whole part is halved back.
pub open spec fn round_floor(n: nat, d: nat) -> nat
    decreases (if d == 0 || n == 0 || n >= sig_min() * d {
        0
    } else {
        sig_min() * d - n
    }),
{
    if d == 0 || n == 0 {
        0
    } else if n >= sig_min() * d {
        round_wide(n, d)
    } else {
        round_floor(2 * n, d) / 2
    }
}

/// A whole number as the nearest binary64 number.
pub open spec fn to_binary64(n: nat) -> nat {
    round_wide(n, 1)
}

/// The share of `total` that `pct` percent stands for, as binary64
/// arithmetic gives it: the total, its product with `pct` and the quotient
/// by 100 are each rounded to the nearest binary64 number, and the quotient
/// is then rounded down to a whole number, capped at `u64::MAX`.
pub open spec fn share(total: u64, pct: u32) -> u64 {
    let q = round_floor(to_binary64(to_binary64(total as nat) * pct as nat), 100);
    if q > u64::MAX {
        u64::MAX
    } else {
        q as u64
    }
}

/// Rounding a quotient to the nearest whole number at most doubles it.
proof fn lemma_div_round_even_bound(a: nat, b: nat)
    requires
        b > 0,
    ensures
        b * div_round_even(a, b) <= a + b,
        div_round_even(a, b) == a / b || div_round_even(a, b) == a / b + 1,
{
    let q = a / b;
    let r = a % b;
    assert(a == b * q + r && r < b) by (nonlinear_arith)
        requires
            b > 0,
            q == a / b,
            r == a % b,
    ;
    assert(b * (q + 1) == b * q + b) by (nonlinear_arith);
}

/// A rounded quotient times its divisor is at most twice the dividend.
proof fn lemma_round_wide_bound(n: nat, d: nat)
    requires
        d >= 1,
        n >= d,
    ensures
        d * round_wide(n, d) <= 2 * n,
    decreases (if n < sig_bound() * d {
        0
    } else {
        n - sig_bound() * d + 1
    }),
{
    if n < sig_bound() * d {
        lemma_div_round_even_bound(n, d);
    } else {
        assert(n >= 2 * d) by (nonlinear_arith)
            requires
                n >= sig_bound() * d,
                d >= 1,
        ;
        lemma_round_wide_bound(n, 2 * d);
        assert(d * (2 * round_wide(n, 2 * d)) == (2 * d) * round_wide(n, 2 * d))
            by (nonlinear_arith);
    }
}

/// Below 2^53 every whole number is a binary64 number.
pub proof fn lemma_to_binary64_exact(n: nat)
    requires
        n < sig_bound(),
    ensures
        to_binary64(n) == n,
{
    assert(n / 1 == n && n % 1 == 0) by (nonlinear_arith);
}

/// For a whole `y` below 2^52 and `n = y·p`, the whole part of the binary64
/// rounding of `n / 100`, divided by `p`, is the whole part of `y / 100`:
/// the rounding error stays below the distance to the next whole number.
proof fn lemma_round_floor_scaled(n: nat, y: nat, p: nat)
    requires
        p >= 1,
        n == y * p,
        y < sig_min(),
        1 <= n < sig_bound() * 100,
    ensures
        round_floor(n, 100) / p == y / 100,
    decreases (if n >= sig_min() * 100 {
        0
    } else {
        sig_min() * 100 - n
    }),
{
    if n >= sig_min() * 100 {
        assert(round_floor(n, 100) == div_round_even(n, 100));
        lemma_div_round_even_bound(n, 100);
        let a = div_round_even(n, 100);
        let t = n / 100;
        let s = n % 100;
        let q = y / 100;
        let r = y % 100;
        let qp = q * p;
        let rp = r * p;
        assert(p > 100) by (nonlinear_arith)
            requires
                y * p >= sig_min() * 100,
                y < sig_min(),
        ;
        assert(n == 100 * t + s && s < 100) by (nonlinear_arith)
            requires
                t == n / 100,
                s == n % 100,
        ;
        assert(y == 100 * q + r && r < 100) by (nonlinear_arith)
            requires
                q == y / 100,
                r == y % 100,
        ;
        assert(n == 100 * qp + rp) by (nonlinear_arith)
            requires
                n == y * p,
                y == 100 * q + r,
                qp == q * p,
                rp == r * p,
        ;
        assert(0 <= rp <= 99 * p) by (nonlinear_arith)
            requires
                rp == r * p,
                r < 100,
        ;
        assert(qp <= t);
        assert(t + 1 < qp + p);
        assert(a == t || a == t + 1);
        vstd::arithmetic::div_mod::lemma_fundamental_div_mod_converse(
            a as int,
            p as int,
            q as int,
            (a - qp) as int,
        );
    } else {
        assert(2 * n == y * (2 * p)) by (nonlinear_arith)
            requires
                n == y * p,
        ;
        lemma_round_floor_scaled(2 * n, y, 2 * p);
        let b = round_floor(2 * n, 100);
        assert(round_floor(n, 100) == b / 2);
        vstd::arithmetic::div_mod::lemma_div_denominator(b as int, 2, p as int);
    }
}

/// While `total × pct` stays below 2^52, the binary64 share is the exact
/// whole part of `total × pct / 100`.
pub proof fn lemma_share_exact(total: u64, pct: u32)
    requires
        total * pct < sig_min(),
    ensures
        share(total, pct) == (total * pct) / 100,
{
    if pct == 0 {
        assert(to_binary64(total as nat) * pct as nat == 0);
        lemma_to_binary64_exact(0);
    } else {
        assert(total <= total * pct) by (nonlinear_arith)
            requires
                pct >= 1,
        ;
        lemma_to_binary64_exact(total as nat);
        let y = (total * pct) as nat;
        lemma_to_binary64_exact(y);
        if y > 0 {
            lemma_round_floor_scaled(y, y, 1);
        }
    }
}

/// `div_round_even` for machine integers.
fn div_round_even_u128(a: u128, b: u128) -> (r: u128)
    requires
        b > 0,
        b <= 0x1_0000_0000_0000_0000_0000_0000,
    ensures
        r == div_round_even(a as nat, b as nat),
{
    let q = a / b;
    let rem = a % b;
    proof {
        lemma_div_round_even_bound(a as nat, b as nat);
    }
    if 2 * rem > b || (2 * rem == b && q % 2 == 1) {
        proof {
            assert(q < u128::MAX) by {
                assert(rem > 0);
                assert(a == b * q + rem) by (nonlinear_arith)
                    requires
                        b > 0,
                        q == a / b,
                        rem == a % b,
                ;
                assert(b * q <= a) by (nonlinear_arith)
                    requires
                        a == b * q + rem,
                        rem >= 0,
                ;
                assert(q < u128::MAX) by (nonlinear_arith)
                    requires
                        b * q < a,
                        a <= u128::MAX,
                        b >= 1,
                ;
            }
        }
        q + 1
    } else {
        q
    }
}

/// `round_wide` for machine integers.
fn round_wide_u128(n: u128, d: u128) -> (r: u128)
    requires
        1 <= d <= 0x1_0000_0000_0000_0000,
        n <= 0x10_0000_0000_0000_0000_0000_0000,
    ensures
        r == round_wide(n as nat, d as nat),
    decreases (if n < sig_bound() * d {
        0
    } else {
        n - sig_bound() * d + 1
    }),
{
    if n < 0x20_0000_0000_0000 * d {
        div_round_even_u128(n, d)
    } else {
        proof {
            assert(2 * d <= 0x1_0000_0000_0000_0000) by (nonlinear_arith)
                requires
                    n >= sig_bound() * d,
                    n <= 0x10_0000_0000_0000_0000_0000_0000,
            ;
            assert(n >= 2 * d) by (nonlinear_arith)
                requires
                    n >= sig_bound() * d,
                    d >= 1,
            ;
            lemma_round_wide_bound(n as nat, 2 * d as nat);
        }
        let half = round_wide_u128(n, 2 * d);
        proof {
            assert(2 * half <= 2 * n) by (nonlinear_arith)
                requires
                    (2 * d) * half <= 2 * n,
                    d >= 1,
            ;
        }
        2 * half
    }
}

/// `round_floor` for machine integers.
fn round_floor_u128(n: u128, d: u128) -> (r: u128)
    requires
        1 <= d <= 100,
        n <= 0x10_0000_0000_0000_0000_0000_0000,
    ensures
        r == round_floor(n as nat, d as nat),
    decreases (if n == 0 || n >= sig_min() * d {
        0
    } else {
        sig_min() * d - n
    }),
{
    if n == 0 {
        0
    } else if n >= 0x10_0000_0000_0000 * d {
        round_wide_u128(n, d)
    } else {
        let r = round_floor_u128(2 * n, d);
        r / 2
    }
}

/// The share of `total` that `pct` percent stands for, as binary64
/// arithmetic gives it (see `share`).
pub fn share_of(total: u64, pct: u32) -> (a: u64)
    ensures
        a == share(total, pct),
{
    proof {
        if total > 0 {
            lemma_round_wide_bound(total as nat, 1);
        }
    }
    let x = round_wide_u128(total as u128, 1);
    assert(x <= 2 * (total as int));
    assert(x * (pct as int) <= 2 * (u64::MAX as int) * (u32::MAX as int)) by (nonlinear_arith)
        requires
            x <= 2 * (total as int),
            total <= u64::MAX,
            pct <= u32::MAX,
    ;
    let product = x * (pct as u128);
    proof {
        if product > 0 {
            lemma_round_wide_bound(product as nat, 1);
        }
    }
    let y = round_wide_u128(product, 1);
    let q = round_floor_u128(y, 100);
    if q > u64::MAX as u128 {
        u64::MAX
    } else {
        q as u64
    }
}

} // verus!
