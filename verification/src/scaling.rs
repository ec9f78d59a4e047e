use vstd::arithmetic::div_mod::{lemma_div_denominator, lemma_fundamental_div_mod, lemma_mod_bound};
use vstd::arithmetic::power2::{
    lemma2_to64, lemma2_to64_rest, lemma_pow2_pos, lemma_pow2_strictly_increases,
    lemma_pow2_unfold, pow2,
};
use vstd::prelude::*;

verus! {

/// Whether `n` is the integer nearest to the fraction `num / den`, and the even one of the
/// two nearest where the fraction lies halfway between them.
pub open spec fn nearest_even(num: int, den: int, n: int) -> bool {
    let gap = if n * den >= num {
        n * den - num
    } else {
        num - n * den
    };
    2 * gap <= den && (2 * gap == den ==> n % 2 == 0)
}

/// The fraction `num / den` rounded to the nearest integer, halves to even.
pub open spec fn round_half_even(num: int, den: int) -> int {
    let q = num / den;
    let r = num % den;
    if 2 * r > den || (2 * r == den && q % 2 == 1) {
        q + 1
    } else {
        q
    }
}

/// Rounding halves to even gives the nearest integer, the even one on a tie.
pub proof fn lemma_round_half_even_is_nearest(num: int, den: int)
    requires
        num >= 0,
        den > 0,
    ensures
        nearest_even(num, den, round_half_even(num, den)),
{
    let q = num / den;
    let r = num % den;
    lemma_fundamental_div_mod(num, den);
    lemma_mod_bound(num, den);
    assert(q * den == den * q) by (nonlinear_arith);
    assert((q + 1) * den == den * q + den) by (nonlinear_arith);
}

/// The fraction `num / den` rounded up to an integer.
pub open spec fn ceil_div(num: int, den: int) -> int {
    if num % den == 0 {
        num / den
    } else {
        num / den + 1
    }
}

/// The position of the highest set bit of a positive integer `a`: the `p` with
/// `2^p <= a < 2^(p + 1)`.
pub open spec fn top_bit(a: nat) -> nat
    decreases a,
{
    if a <= 1 {
        0
    } else {
        1 + top_bit(a / 2)
    }
}

/// The highest set bit brackets the number: `2^p <= a < 2^(p + 1)` for `p = top_bit(a)`.
pub proof fn lemma_top_bit_brackets(a: nat)
    requires
        a >= 1,
    ensures
        pow2(top_bit(a)) <= a < 2 * pow2(top_bit(a)),
    decreases a,
{
    if a <= 1 {
        lemma2_to64();
    } else {
        lemma_top_bit_brackets(a / 2);
        lemma_pow2_unfold(top_bit(a));
    }
}

/// The bracket decides the highest set bit: if `2^p <= a < 2^(p + 1)` then `p` is
/// `top_bit(a)`.
pub proof fn lemma_top_bit_decided(a: nat, p: nat)
    requires
        pow2(p) <= a < 2 * pow2(p),
    ensures
        top_bit(a) == p,
{
    lemma_pow2_pos(p);
    lemma_top_bit_brackets(a);
    let t = top_bit(a);
    if t < p {
        lemma_pow2_unfold(p);
        if t + 1 < p {
            lemma_pow2_strictly_increases(t + 1, p);
        }
        lemma_pow2_unfold(t + 1);
    } else if t > p {
        if p + 1 < t {
            lemma_pow2_strictly_increases(p + 1, t);
        }
        lemma_pow2_unfold(p + 1);
    }
}

/// Two to the power `k`.
pub fn two_to(k: u32) -> (r: u64)
    requires
        k <= 62,
    ensures
        r == pow2(k as nat),
        1 <= r <= 0x4000_0000_0000_0000,
{
    let mut r: u64 = 1;
    let mut i: u32 = 0;
    proof {
        lemma2_to64();
        lemma2_to64_rest();
    }
    while i < k
        invariant
            i <= k,
            k <= 62,
            r == pow2(i as nat),
            r >= 1,
            pow2(62) == 0x4000_0000_0000_0000,
        decreases k - i,
    {
        proof {
            lemma_pow2_unfold((i + 1) as nat);
            lemma_pow2_strictly_increases(i as nat, 62);
        }
        r = r * 2;
        i += 1;
    }
    proof {
        if k < 62 {
            lemma_pow2_strictly_increases(k as nat, 62);
        }
    }
    r
}

/// Finds the highest set bit of a positive magnitude below `2^62`.
pub fn top_bit_of(a: u64) -> (p: u32)
    requires
        1 <= a < 0x4000_0000_0000_0000,
    ensures
        p == top_bit(a as nat),
        p <= 61,
        pow2(p as nat) <= a < 2 * pow2(p as nat),
{
    let mut p: u32 = 0;
    let mut t: u64 = a;
    proof {
        lemma2_to64();
        lemma2_to64_rest();
    }
    while t > 1
        invariant
            p <= 61,
            t >= 1,
            t < pow2((62 - p) as nat),
            t == a as int / pow2(p as nat) as int,
            top_bit(a as nat) == p + top_bit(t as nat),
            pow2(0) == 1,
            pow2(1) == 2,
        decreases t,
    {
        proof {
            lemma_pow2_pos(p as nat);
            lemma_pow2_unfold((62 - p) as nat);
            lemma_pow2_unfold((p + 1) as nat);
            lemma_div_denominator(a as int, pow2(p as nat) as int, 2);
        }
        t = t / 2;
        p += 1;
    }
    proof {
        lemma_pow2_pos(p as nat);
        lemma_fundamental_div_mod(a as int, pow2(p as nat) as int);
        lemma_mod_bound(a as int, pow2(p as nat) as int);
    }
    p
}

} // verus!
