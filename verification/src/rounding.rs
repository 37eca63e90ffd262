//! Single precision in integers.
//!
//! A number of single precision has 24 significant bits. Those that are zero or at
//! least one are multiples of 2^-23, and are held here as such: as how many times
//! 2^-23 they are.

use vstd::arithmetic::div_mod;
use vstd::arithmetic::power2;
use vstd::prelude::*;

verus! {

/// How many times 2^-23 one is.
pub const ONE: u128 = 0x80_0000;

/// The exponent of the largest power of two that is at most `n`.
pub open spec fn log2(n: nat) -> nat
    decreases n,
{
    if n < 2 {
        0
    } else {
        1 + log2(n / 2)
    }
}

/// The integer nearest to `num / den`, or the even one of two that are equally
/// near.
pub open spec fn nearest_even(num: nat, den: nat) -> nat {
    let down = num / den;
    let rest = num % den;
    if 2 * rest < den || (2 * rest == den && down % 2 == 0) {
        down
    } else {
        down + 1
    }
}

/// The distance of neighbouring numbers of single precision around `n`: the place
/// value of the last of 24 significant bits.
pub open spec fn unit(n: nat) -> nat {
    if log2(n) <= 23 {
        1
    } else {
        power2::pow2((log2(n) - 23) as nat)
    }
}

/// The number of single precision nearest to `num / den`, which is zero or at least
/// [`ONE`].
pub open spec fn single(num: nat, den: nat) -> nat {
    let u = unit(num / den);
    nearest_even(num, den * u) * u
}

/// The power of two that [`log2`] names is at most the number, and its double is
/// not.
pub proof fn log2_is_floor(n: nat)
    requires
        n > 0,
    ensures
        power2::pow2(log2(n)) <= n < power2::pow2(log2(n) + 1),
    decreases n,
{
    power2::lemma2_to64();
    if n >= 2 {
        log2_is_floor(n / 2);
        power2::lemma_pow2_unfold(log2(n));
        power2::lemma_pow2_unfold(log2(n) + 1);
    }
}

/// The exponent of the largest power of two that is at most `n`, and that power.
pub fn floor_log2(n: u128) -> (r: (u32, u128))
    requires
        n > 0,
    ensures
        r.0 == log2(n as nat),
        r.1 == power2::pow2(r.0 as nat),
        r.1 <= n,
{
    let mut k: u32 = 0;
    let mut p: u128 = 1;
    let mut rest: u128 = n;
    proof {
        power2::lemma2_to64();
    }
    while rest >= 2
        invariant
            rest > 0,
            k < 128,
            p <= n,
            log2(n as nat) == k + log2(rest as nat),
            p == power2::pow2(k as nat),
            rest * p <= n,
        decreases rest,
    {
        proof {
            power2::lemma_pow2_unfold((k + 1) as nat);
            assert((rest / 2) * (2 * p) <= rest * p) by (nonlinear_arith)
                requires
                    rest >= 2,
                    p >= 0,
            ;
            assert(2 * p <= n) by (nonlinear_arith)
                requires
                    rest * p <= n,
                    rest >= 2,
                    p >= 0,
            ;
            if k + 1 >= 128 {
                power2::lemma2_to64();
                power2::lemma_pow2_adds(64, 64);
            }
        }
        rest = rest / 2;
        p = p * 2;
        k = k + 1;
    }
    (k, p)
}

/// The unit is small against the number.
pub proof fn unit_is_small(n: nat)
    ensures
        unit(n) >= 1,
        n < 0x100_0000 ==> unit(n) == 1,
        n >= 0x100_0000 ==> 0x80_0000 * unit(n) <= n < 0x100_0000 * unit(n),
{
    power2::lemma2_to64();
    if n > 0 {
        log2_is_floor(n);
        if n < 0x100_0000 && log2(n) > 23 {
            if log2(n) > 24 {
                power2::lemma_pow2_strictly_increases(24, log2(n));
            }
        }
        if n >= 0x100_0000 {
            if log2(n) <= 23 {
                if log2(n) < 23 {
                    power2::lemma_pow2_strictly_increases(log2(n) + 1, 24);
                }
            }
            power2::lemma_pow2_adds((log2(n) - 23) as nat, 23);
            power2::lemma_pow2_adds((log2(n) - 23) as nat, 24);
            assert(power2::pow2(log2(n)) == 0x80_0000 * unit(n)) by (nonlinear_arith)
                requires
                    power2::pow2(log2(n)) == unit(n) * 0x80_0000,
            ;
            assert(power2::pow2(log2(n) + 1) == 0x100_0000 * unit(n)) by (nonlinear_arith)
                requires
                    power2::pow2(log2(n) + 1) == unit(n) * 0x100_0000,
            ;
        }
        if log2(n) > 23 {
            power2::lemma_pow2_pos((log2(n) - 23) as nat);
        }
    }
}

/// The nearest integer is at most half away.
proof fn nearest_even_is_near(num: nat, den: nat)
    requires
        den > 0,
    ensures
        -den <= 2 * (nearest_even(num, den) * den - num) <= den,
        nearest_even(num, den) <= num / den + 1,
{
    let down = num / den;
    let rest = num % den;
    div_mod::lemma_fundamental_div_mod(num as int, den as int);
    assert(down * den == den * down) by (nonlinear_arith);
    assert((down + 1) * den == den * down + den) by (nonlinear_arith);
}

/// Rounding to single precision is off by at most one part in 2^24, or by half of
/// 2^-23 where that is more.
pub proof fn single_is_near(num: nat, den: nat)
    requires
        den > 0,
    ensures
        0x100_0000 * (single(num, den) * den - num) <= num + 0x80_0000 * den,
        0x100_0000 * (num - single(num, den) * den) <= num + 0x80_0000 * den,
{
    let q = num / den;
    let u = unit(q);
    let d = den * u;
    let k = nearest_even(num, d);
    unit_is_small(q);
    assert(d > 0) by (nonlinear_arith)
        requires
            d == den * u,
            den > 0,
            u >= 1,
    ;
    nearest_even_is_near(num, d);
    assert((k * u) * den == k * d) by (nonlinear_arith)
        requires
            d == den * u,
    ;
    div_mod::lemma_fundamental_div_mod(num as int, den as int);
    if q >= 0x100_0000 {
        assert(0x80_0000 * d <= num) by (nonlinear_arith)
            requires
                d == den * u,
                0x80_0000 * u <= q,
                den * q <= num,
                den > 0,
        ;
    } else {
        assert(d == den) by (nonlinear_arith)
            requires
                d == den * u,
                u == 1,
        ;
    }
}

/// Rounds `num / den` to single precision.
pub fn to_single(num: u128, den: u128) -> (r: u128)
    requires
        den > 0,
        num < 0x1000_0000_0000_0000_0000_0000_0000_0000,
        den < 0x1000_0000_0000_0000_0000_0000_0000_0000,
    ensures
        r == single(num as nat, den as nat),
        r <= 2 * (num / den) + 1,
{
    let q: u128 = num / den;
    proof {
        unit_is_small(q as nat);
        power2::lemma2_to64();
    }
    let u: u128 = if q == 0 {
        1
    } else {
        let (k, p) = floor_log2(q);
        if k <= 23 {
            1
        } else {
            proof {
                power2::lemma_pow2_adds((k - 23) as nat, 23);
                div_mod::lemma_fundamental_div_mod_converse(
                    p as int,
                    0x80_0000,
                    power2::pow2((k - 23) as nat) as int,
                    0,
                );
            }
            p / 0x80_0000
        }
    };
    assert(u == unit(q as nat));
    assert(u <= q || u == 1);
    proof {
        div_mod::lemma_fundamental_div_mod(num as int, den as int);
        assert(den * u <= num || u == 1) by (nonlinear_arith)
            requires
                u <= q || u == 1,
                den * q <= num,
                den > 0,
        ;
        assert(den * u >= 1) by (nonlinear_arith)
            requires
                den > 0,
                u >= 1,
        ;
        if u == 1 {
            assert(den * u == den) by (nonlinear_arith)
                requires
                    u == 1,
            ;
        }
    }
    let d: u128 = den * u;
    let down: u128 = num / d;
    let rest: u128 = num % d;
    proof {
        div_mod::lemma_div_nonincreasing(num as int, d as int);
        div_mod::lemma_div_denominator(num as int, den as int, u as int);
        assert(down == q as int / u as int);
        div_mod::lemma_fundamental_div_mod(q as int, u as int);
        assert(down * u <= q) by (nonlinear_arith)
            requires
                u * down <= q,
        ;
        assert((down + 1) * u == down * u + u) by (nonlinear_arith);
        assert((down + 1) * u <= 2 * q + 1);
        assert(q <= num) by {
            div_mod::lemma_div_nonincreasing(num as int, den as int);
        }
    }
    if 2 * rest < d || (2 * rest == d && down % 2 == 0) {
        down * u
    } else {
        (down + 1) * u
    }
}

/// A multiple of the unit is its own rounding.
proof fn multiples_are_exact(num: nat, k: nat)
    requires
        num == k * unit(num),
    ensures
        single(num, 1) == num,
{
    let u = unit(num);
    unit_is_small(num);
    assert(1 * u == u);
    assert(num / 1 == num);
    div_mod::lemma_fundamental_div_mod_converse(num as int, u as int, k as int, 0);
    assert(k * u == u * k) by (nonlinear_arith);
}

/// Whole numbers below 2^24 are exact in single precision.
pub proof fn whole_numbers_are_exact(k: nat)
    requires
        k < 0x100_0000,
    ensures
        single(k * ONE as nat, 1) == k * ONE as nat,
{
    let num = k * ONE as nat;
    power2::lemma2_to64();
    power2::lemma2_to64_rest();
    if log2(num) <= 23 {
        multiples_are_exact(num, num);
    } else {
        let e = log2(num);
        log2_is_floor(num);
        assert(e <= 46) by {
            if e > 47 {
                power2::lemma_pow2_strictly_increases(47, e);
            }
        }
        let f = power2::pow2((46 - e) as nat);
        power2::lemma_pow2_adds((46 - e) as nat, (e - 23) as nat);
        assert(num == (k * f) * unit(num)) by (nonlinear_arith)
            requires
                num == k * 0x80_0000,
                0x80_0000 == f * unit(num),
        ;
        multiples_are_exact(num, k * f);
    }
}

} // verus!
