//! Exact quotients of products that may not fit in 128 bits.

use vstd::prelude::*;
use vstd::arithmetic::div_mod::lemma_fundamental_div_mod;
use vstd::arithmetic::div_mod::lemma_fundamental_div_mod_converse;

verus! {

/// The product of `a` and `b`, divided by `c` and rounded down.
pub open spec fn mul_div_floor(a: nat, b: nat, c: nat) -> nat {
    (a * b) / c
}

/// Rounding down loses less than one unit of the divisor and never gains,
/// and loses nothing exactly when the divisor divides the product.
pub proof fn lemma_mul_div_floor_bounds(a: nat, b: nat, c: nat)
    requires
        c > 0,
    ensures
        mul_div_floor(a, b, c) * c <= a * b,
        a * b < (mul_div_floor(a, b, c) + 1) * c,
        (mul_div_floor(a, b, c) * c == a * b) <==> (a * b) % c == 0,
{
    let x = (a * b) as int;
    lemma_fundamental_div_mod(x, c as int);
    assert(0 <= x % (c as int) < c);
    assert(c * (x / (c as int)) == (x / (c as int)) * c) by (nonlinear_arith);
    assert((x / (c as int) + 1) * c == (x / (c as int)) * c + c) by (nonlinear_arith);
}

/// The quotient grows with the first factor.
pub proof fn lemma_mul_div_floor_monotonic(a1: nat, a2: nat, b: nat, c: nat)
    requires
        c > 0,
        a1 <= a2,
    ensures
        mul_div_floor(a1, b, c) <= mul_div_floor(a2, b, c),
{
    assert(a1 * b <= a2 * b) by (nonlinear_arith)
        requires
            a1 <= a2,
    ;
    vstd::arithmetic::div_mod::lemma_div_is_ordered((a1 * b) as int, (a2 * b) as int, c as int);
}

/// Adds two residues below `m`: the sum is `carry * m + rest`.
fn add_residues(x: u128, y: u128, m: u128) -> (r: (u128, u128))
    requires
        x < m,
        y < m,
    ensures
        r.0 < m,
        r.1 <= 1,
        x + y == r.1 * m + r.0,
{
    if x >= m - y {
        (x - (m - y), 1)
    } else {
        (x + y, 0)
    }
}

/// `a * r / c`, rounded down, for a factor `r` below the divisor.
///
/// The product may need 192 bits; it is never formed. The loop adds up
/// the multiples `2^i * r` for the bits set in `a`, each held as a
/// quotient by `c` and a remainder below `c`.
fn mul_div_below(a: u64, r: u128, c: u128) -> (q: u64)
    requires
        r < c,
    ensures
        q == mul_div_floor(a as nat, r as nat, c as nat),
{
    let mut n: u64 = a;
    let mut sum_q: u128 = 0;
    let mut sum_r: u128 = 0;
    let mut term_q: u128 = 0;
    let mut term_r: u128 = r;
    // `a == n * p + low`: `low` is the part of `a` below bit `i`, `p == 2^i`
    let ghost mut p: int = 1;
    let ghost mut low: int = 0;
    assert(a == n * p + low && 0 * c + r == p * r && 0 * c + 0 == low * r) by (nonlinear_arith)
        requires
            a == n,
            p == 1,
            low == 0,
    ;
    while n > 0
        invariant
            r < c,
            1 <= p,
            0 <= low < p,
            a == n * p + low,
            sum_q * c + sum_r == low * r,
            sum_r < c,
            term_q * c + term_r == p * r,
            term_r < c,
            sum_q <= low,
            term_q <= p,
            p <= 2 * a + 1,
        decreases n,
    {
        let bit: u64 = n % 2;
        let half: u64 = n / 2;
        assert(p <= a) by (nonlinear_arith)
            requires
                a == n * p + low,
                n >= 1,
                p >= 1,
                low >= 0,
        ;
        let ghost low_next: int = if bit == 1 {
            low + p
        } else {
            low
        };
        if bit == 1 {
            let (rest, carry) = add_residues(sum_r, term_r, c);
            let next_q: u128 = sum_q + term_q + carry;
            assert(next_q * c + rest == low_next * r) by (nonlinear_arith)
                requires
                    next_q == sum_q + term_q + carry,
                    sum_q * c + sum_r == low * r,
                    term_q * c + term_r == p * r,
                    sum_r + term_r == carry * c + rest,
                    low_next == low + p,
            ;
            sum_q = next_q;
            sum_r = rest;
        }
        assert(sum_q <= low_next) by (nonlinear_arith)
            requires
                sum_q * c + sum_r == low_next * r,
                0 <= r < c,
                0 <= sum_r,
                0 <= sum_q,
                0 <= low_next,
        ;
        let (rest, carry) = add_residues(term_r, term_r, c);
        let doubled: u128 = 2 * term_q + carry;
        assert(doubled * c + rest == (2 * p) * r) by (nonlinear_arith)
            requires
                doubled == 2 * term_q + carry,
                term_q * c + term_r == p * r,
                term_r + term_r == carry * c + rest,
        ;
        assert(doubled <= 2 * p) by (nonlinear_arith)
            requires
                doubled * c + rest == (2 * p) * r,
                0 <= r < c,
                0 <= rest,
                0 <= doubled,
                0 <= p,
        ;
        assert(a == half * (2 * p) + low_next) by (nonlinear_arith)
            requires
                a == n * p + low,
                (n == 2 * half + 1 && low_next == low + p) || (n == 2 * half && low_next == low),
        ;
        term_q = doubled;
        term_r = rest;
        n = half;
        proof {
            p = 2 * p;
            low = low_next;
        }
    }
    proof {
        assert(low == a) by (nonlinear_arith)
            requires
                a == n * p + low,
                n == 0,
        ;
        lemma_fundamental_div_mod_converse(
            (a as nat * r as nat) as int,
            c as int,
            sum_q as int,
            sum_r as int,
        );
    }
    sum_q as u64
}

/// `a * b / c`, rounded down, or `None` where that does not fit in 64 bits.
///
/// The product is taken exactly, however large: no intermediate value is
/// cut or clamped.
pub fn mul_div_u64(a: u64, b: u128, c: u128) -> (r: Option<u64>)
    requires
        c > 0,
    ensures
        match r {
            Some(v) => v == mul_div_floor(a as nat, b as nat, c as nat),
            None => mul_div_floor(a as nat, b as nat, c as nat) > u64::MAX,
        },
{
    let whole: u128 = b / c;
    let part: u128 = b % c;
    let low: u64 = mul_div_below(a, part, c);
    proof {
        // a * b == (a * whole + low) * c + rest, with rest below c
        let low_rest = (a as nat * part as nat) % (c as nat);
        lemma_fundamental_div_mod((a as nat * part as nat) as int, c as int);
        lemma_fundamental_div_mod(b as int, c as int);
        assert((a as nat * b as nat) as int == (a * whole + low) * c + low_rest)
            by (nonlinear_arith)
            requires
                b == c * whole + part,
                (a as nat * part as nat) as int == c * low + low_rest,
        ;
        lemma_fundamental_div_mod_converse(
            (a as nat * b as nat) as int,
            c as int,
            a * whole + low,
            low_rest as int,
        );
    }
    match (a as u128).checked_mul(whole) {
        None => None,
        Some(high) => match high.checked_add(low as u128) {
            None => None,
            Some(total) => if total > u64::MAX as u128 {
                None
            } else {
                Some(total as u64)
            },
        },
    }
}

} // verus!
