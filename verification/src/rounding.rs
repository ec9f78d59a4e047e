use crate::float_256::{Float32x8, Float64x4};
use crate::ieee::{
    exponent32, exponent64, is_nan32, is_nan64, nan32, nan64, rank32, rank64, significand32,
    significand64, unit32, unit64,
};
use crate::scaling::{
    ceil_div, lemma_top_bit_brackets, lemma_top_bit_decided, round_half_even, top_bit,
    top_bit_of, two_to,
};
use vstd::arithmetic::div_mod::{
    lemma_basic_div, lemma_div_multiples_vanish, lemma_fundamental_div_mod, lemma_mod_bound,
    lemma_mod_multiples_basic, lemma_small_mod,
};
use vstd::arithmetic::power2::{
    lemma2_to64, lemma2_to64_rest, lemma_pow2_adds, lemma_pow2_pos,
    lemma_pow2_strictly_increases, lemma_pow2_unfold, pow2,
};
use vstd::prelude::*;

verus! {

/// The single-precision bit pattern of the whole number `n`, at most `2^23`, under the
/// given sign; zero keeps the sign.
pub open spec fn whole32(negative: bool, n: int) -> u32 {
    let magnitude = if n == 0 {
        0
    } else {
        (126 + top_bit(n as nat)) * 0x80_0000 + n * pow2((23 - top_bit(n as nat)) as nat)
    };
    if negative {
        (0x8000_0000 + magnitude) as u32
    } else {
        magnitude as u32
    }
}

/// A NaN with its quiet bit set, the rest as it was.
pub open spec fn quiet32(x: u32) -> u32 {
    if (x / 0x40_0000) % 2 == 1 {
        x
    } else {
        (x + 0x40_0000) as u32
    }
}

/// A lane rounded toward zero to a whole number. A lane that is whole already, or infinite,
/// stays as it is; a NaN comes back quiet.
pub open spec fn trunc_f32(x: u32) -> u32 {
    if nan32(x) {
        quiet32(x)
    } else if exponent32(x) >= 150 {
        x
    } else {
        whole32(x >= 0x8000_0000, significand32(x) / unit32(x))
    }
}

/// A lane rounded down to a whole number. A lane that is whole already, or infinite, stays
/// as it is; a NaN comes back quiet.
pub open spec fn floor_f32(x: u32) -> u32 {
    if nan32(x) {
        quiet32(x)
    } else if exponent32(x) >= 150 {
        x
    } else if x >= 0x8000_0000 {
        whole32(true, ceil_div(significand32(x), unit32(x)))
    } else {
        whole32(false, significand32(x) / unit32(x))
    }
}

/// A lane rounded up to a whole number. A lane that is whole already, or infinite, stays as
/// it is; a NaN comes back quiet.
pub open spec fn ceil_f32(x: u32) -> u32 {
    if nan32(x) {
        quiet32(x)
    } else if exponent32(x) >= 150 {
        x
    } else if x >= 0x8000_0000 {
        whole32(true, significand32(x) / unit32(x))
    } else {
        whole32(false, ceil_div(significand32(x), unit32(x)))
    }
}

/// A lane rounded to the nearest whole number, halves to the even one. A lane that is whole
/// already, or infinite, stays as it is; a NaN comes back quiet.
pub open spec fn round_f32(x: u32) -> u32 {
    if nan32(x) {
        quiet32(x)
    } else if exponent32(x) >= 150 {
        x
    } else {
        whole32(x >= 0x8000_0000, round_half_even(significand32(x), unit32(x)))
    }
}

/// Splits a lane below the whole-number exponent into the whole part of its magnitude and
/// the standing of the rest: 0 for none, 1 for under a half, 2 for a half, 3 for more.
pub fn whole_part32(x: u32) -> (r: (u64, u8))
    requires
        !nan32(x),
        exponent32(x) < 150,
    ensures
        r.0 == significand32(x) / unit32(x),
        r.0 < 0x80_0000,
        unit32(x) >= 2,
        r.1 <= 3,
        (r.1 == 0) == (significand32(x) % unit32(x) == 0),
        (r.1 == 1) == (0 < 2 * (significand32(x) % unit32(x)) < unit32(x)),
        (r.1 == 2) == (2 * (significand32(x) % unit32(x)) == unit32(x)),
        (r.1 == 3) == (2 * (significand32(x) % unit32(x)) > unit32(x)),
{
    let e: u32 = (x % 0x8000_0000) / 0x80_0000;
    let f: u32 = x % 0x80_0000;
    let sig: u64 = if e == 0 {
        f as u64
    } else {
        0x80_0000 + f as u64
    };
    let k: u32 = if e == 0 {
        149
    } else {
        (150 - e) as u32
    };
    proof {
        lemma2_to64();
        lemma2_to64_rest();
        if k > 1 {
            lemma_pow2_strictly_increases(1, k as nat);
        }
    }
    if k >= 25 {
        proof {
            if k > 25 {
                lemma_pow2_strictly_increases(25, k as nat);
            }
            lemma_basic_div(sig as int, pow2(k as nat) as int);
            lemma_small_mod(sig as nat, pow2(k as nat));
        }
        (0, if sig == 0 {
            0
        } else {
            1
        })
    } else {
        let den = two_to(k);
        proof {
            lemma_pow2_strictly_increases(k as nat, 25);
            lemma_fundamental_div_mod(sig as int, den as int);
            lemma_mod_bound(sig as int, den as int);
            let q = sig as int / den as int;
            assert(q < 0x80_0000) by (nonlinear_arith)
                requires
                    den * q <= sig,
                    sig < 0x100_0000,
                    den >= 2,
            ;
        }
        let q = sig / den;
        let rest = sig % den;
        let standing: u8 = if rest == 0 {
            0
        } else if 2 * rest < den {
            1
        } else if 2 * rest == den {
            2
        } else {
            3
        };
        (q, standing)
    }
}

/// Builds the lane of a whole number of at most `2^23` under a sign.
pub fn whole_lane32(negative: bool, n: u64) -> (r: u32)
    requires
        n <= 0x80_0000,
    ensures
        r == whole32(negative, n as int),
{
    let magnitude: u64 = if n == 0 {
        0
    } else {
        let p = top_bit_of(n);
        proof {
            lemma2_to64();
            lemma2_to64_rest();
            if p > 23 {
                lemma_pow2_strictly_increases(23, p as nat);
            }
            lemma_pow2_adds(p as nat, (23 - p) as nat);
        }
        let scale = two_to(23 - p);
        proof {
            let lo = pow2(p as nat) as int;
            assert(n * scale < 2 * (lo * scale)) by (nonlinear_arith)
                requires
                    n < 2 * lo,
                    scale >= 1,
            ;
        }
        (126 + p as u64) * 0x80_0000 + n * scale
    };
    if negative {
        (0x8000_0000 + magnitude) as u32
    } else {
        magnitude as u32
    }
}

/// Sets the quiet bit of a NaN.
pub fn quiet_lane32(x: u32) -> (r: u32)
    requires
        nan32(x),
    ensures
        r == quiet32(x),
{
    if (x / 0x40_0000) % 2 == 1 {
        x
    } else {
        x + 0x40_0000
    }
}

/// Rounds one lane toward zero.
pub fn trunc_lane32(x: u32) -> (r: u32)
    ensures
        r == trunc_f32(x),
{
    if is_nan32(x) {
        quiet_lane32(x)
    } else if (x % 0x8000_0000) / 0x80_0000 >= 150 {
        x
    } else {
        let part = whole_part32(x);
        let n: u64 = part.0;
        whole_lane32(x >= 0x8000_0000, n)
    }
}

/// Rounds one lane down.
pub fn floor_lane32(x: u32) -> (r: u32)
    ensures
        r == floor_f32(x),
{
    if is_nan32(x) {
        quiet_lane32(x)
    } else if (x % 0x8000_0000) / 0x80_0000 >= 150 {
        x
    } else {
        let part = whole_part32(x);
        let n: u64 = if x >= 0x8000_0000 && part.1 != 0 {
            part.0 + 1
        } else {
            part.0
        };
        whole_lane32(x >= 0x8000_0000, n)
    }
}

/// Rounds one lane up.
pub fn ceil_lane32(x: u32) -> (r: u32)
    ensures
        r == ceil_f32(x),
{
    if is_nan32(x) {
        quiet_lane32(x)
    } else if (x % 0x8000_0000) / 0x80_0000 >= 150 {
        x
    } else {
        let part = whole_part32(x);
        let n: u64 = if x < 0x8000_0000 && part.1 != 0 {
            part.0 + 1
        } else {
            part.0
        };
        whole_lane32(x >= 0x8000_0000, n)
    }
}

/// Rounds one lane to the nearest whole number, halves to even.
pub fn round_lane32(x: u32) -> (r: u32)
    ensures
        r == round_f32(x),
{
    if is_nan32(x) {
        quiet_lane32(x)
    } else if (x % 0x8000_0000) / 0x80_0000 >= 150 {
        x
    } else {
        let part = whole_part32(x);
        let n: u64 = if part.1 == 3 || (part.1 == 2 && part.0 % 2 == 1) {
            part.0 + 1
        } else {
            part.0
        };
        whole_lane32(x >= 0x8000_0000, n)
    }
}

impl Float32x8 {
    /// Every lane rounded down to a whole number.
    pub fn floor(self) -> (r: Self)
        ensures
            forall|i: int| 0 <= i < 8 ==> r@[i] == floor_f32(self@[i]),
    {
        let a = self.to_bits();
        let mut out = [0u32; 8];
        let mut i: usize = 0;
        while i < 8
            invariant
                i <= 8,
                a@ == self@,
                forall|j: int| 0 <= j < i ==> out[j] == floor_f32(a[j]),
            decreases 8 - i,
        {
            out[i] = floor_lane32(a[i]);
            i += 1;
        }
        Self::from_bits(out)
    }

    /// Every lane rounded up to a whole number.
    pub fn ceil(self) -> (r: Self)
        ensures
            forall|i: int| 0 <= i < 8 ==> r@[i] == ceil_f32(self@[i]),
    {
        let a = self.to_bits();
        let mut out = [0u32; 8];
        let mut i: usize = 0;
        while i < 8
            invariant
                i <= 8,
                a@ == self@,
                forall|j: int| 0 <= j < i ==> out[j] == ceil_f32(a[j]),
            decreases 8 - i,
        {
            out[i] = ceil_lane32(a[i]);
            i += 1;
        }
        Self::from_bits(out)
    }

    /// Every lane rounded toward zero to a whole number.
    pub fn trunc(self) -> (r: Self)
        ensures
            forall|i: int| 0 <= i < 8 ==> r@[i] == trunc_f32(self@[i]),
    {
        let a = self.to_bits();
        let mut out = [0u32; 8];
        let mut i: usize = 0;
        while i < 8
            invariant
                i <= 8,
                a@ == self@,
                forall|j: int| 0 <= j < i ==> out[j] == trunc_f32(a[j]),
            decreases 8 - i,
        {
            out[i] = trunc_lane32(a[i]);
            i += 1;
        }
        Self::from_bits(out)
    }

    /// Every lane rounded to the nearest whole number, halves to the even one.
    pub fn round(self) -> (r: Self)
        ensures
            forall|i: int| 0 <= i < 8 ==> r@[i] == round_f32(self@[i]),
    {
        let a = self.to_bits();
        let mut out = [0u32; 8];
        let mut i: usize = 0;
        while i < 8
            invariant
                i <= 8,
                a@ == self@,
                forall|j: int| 0 <= j < i ==> out[j] == round_f32(a[j]),
            decreases 8 - i,
        {
            out[i] = round_lane32(a[i]);
            i += 1;
        }
        Self::from_bits(out)
    }
}

/// What the lane of a whole number holds: it is no NaN, carries the given sign, and its
/// significand is the number itself, scaled up to its highest bit.
pub proof fn lemma_whole_fields32(negative: bool, n: int)
    requires
        1 <= n <= 0x80_0000,
    ensures
        top_bit(n as nat) <= 23,
        !nan32(whole32(negative, n)),
        (whole32(negative, n) >= 0x8000_0000) == negative,
        exponent32(whole32(negative, n)) == 127 + top_bit(n as nat),
        significand32(whole32(negative, n)) == n * pow2((23 - top_bit(n as nat)) as nat),
{
    lemma2_to64();
    lemma2_to64_rest();
    let p = top_bit(n as nat);
    lemma_top_bit_brackets(n as nat);
    if p > 23 {
        lemma_pow2_strictly_increases(23, p);
    }
    let unit = pow2((23 - p) as nat) as int;
    let s = n * unit;
    lemma_pow2_adds(p, (23 - p) as nat);
    assert(0x80_0000 <= s < 0x100_0000) by (nonlinear_arith)
        requires
            s == n * unit,
            pow2(p) * unit == 0x80_0000,
            pow2(p) <= n < 2 * pow2(p),
            unit >= 1,
    ;
    let x = whole32(negative, n);
    assert(x % 0x8000_0000 == (126 + p) * 0x80_0000 + s);
}

/// The whole part of a lane below the whole-number exponent is under `2^23`.
pub proof fn lemma_whole_part_small32(x: u32)
    requires
        exponent32(x) < 150,
    ensures
        unit32(x) >= 2,
        0 <= significand32(x) / unit32(x) < 0x80_0000,
        0 <= significand32(x) % unit32(x) < unit32(x),
{
    lemma2_to64();
    let e = exponent32(x);
    let k = (150 - (if e == 0 {
        1
    } else {
        e
    })) as nat;
    if k > 1 {
        lemma_pow2_strictly_increases(1, k);
    }
    let sig = significand32(x);
    let unit = unit32(x);
    lemma_fundamental_div_mod(sig, unit);
    lemma_mod_bound(sig, unit);
    let q = sig / unit;
    assert(0 <= q < 0x80_0000) by (nonlinear_arith)
        requires
            unit * q <= sig,
            sig < unit * q + unit,
            0 <= sig < 0x100_0000,
            unit >= 2,
    ;
}

/// A lane that holds a whole number of at most `2^23` is left alone by all four roundings.
pub proof fn lemma_whole_is_settled32(negative: bool, n: int)
    requires
        0 <= n <= 0x80_0000,
    ensures
        trunc_f32(whole32(negative, n)) == whole32(negative, n),
        floor_f32(whole32(negative, n)) == whole32(negative, n),
        ceil_f32(whole32(negative, n)) == whole32(negative, n),
        round_f32(whole32(negative, n)) == whole32(negative, n),
{
    let x = whole32(negative, n);
    if n == 0 {
        assert(exponent32(x) == 0);
        assert(significand32(x) == 0);
        lemma_pow2_pos(149);
        lemma_basic_div(0, pow2(149) as int);
        lemma_small_mod(0, pow2(149));
        assert(unit32(x) == pow2(149));
    } else {
        lemma_whole_fields32(negative, n);
        let p = top_bit(n as nat);
        if p < 23 {
            let unit = pow2((23 - p) as nat) as int;
            let s = n * unit;
            lemma_pow2_pos((23 - p) as nat);
            assert(unit32(x) == unit);
            lemma_div_multiples_vanish(n, unit);
            lemma_mod_multiples_basic(n, unit);
            assert(unit * n == s) by (nonlinear_arith)
                requires
                    s == n * unit,
            ;
            assert(s / unit == n);
            assert(s % unit == 0);
        }
    }
}

/// Rounding settles: a lane that was rounded once is left alone by a second rounding of the
/// same kind.
pub proof fn lemma_rounding_settles32(x: u32)
    ensures
        trunc_f32(trunc_f32(x)) == trunc_f32(x),
        floor_f32(floor_f32(x)) == floor_f32(x),
        ceil_f32(ceil_f32(x)) == ceil_f32(x),
        round_f32(round_f32(x)) == round_f32(x),
{
    if nan32(x) {
        assert(nan32(quiet32(x)));
        assert(quiet32(quiet32(x)) == quiet32(x));
    } else if exponent32(x) < 150 {
        lemma_whole_part_small32(x);
        let sig = significand32(x);
        let unit = unit32(x);
        lemma_whole_is_settled32(x >= 0x8000_0000, sig / unit);
        lemma_whole_is_settled32(x >= 0x8000_0000, sig / unit + 1);
    }
}

/// The whole part of the magnitude of a lane below the whole-number exponent.
pub open spec fn whole_part_of32(x: u32) -> int {
    significand32(x) / unit32(x)
}

/// The magnitude of a lane lies between the lanes of the two whole numbers around it: the
/// whole part below, the next whole number above, and on the lower one exactly where
/// nothing is left over. A set sign bit is all that tells the negative lanes of those two
/// whole numbers from the positive ones.
pub proof fn lemma_whole_brackets32(x: u32)
    requires
        !nan32(x),
        exponent32(x) < 150,
    ensures
        whole32(false, whole_part_of32(x)) <= x % 0x8000_0000,
        x % 0x8000_0000 <= whole32(false, whole_part_of32(x) + 1) <= 0x4B00_0000,
        significand32(x) % unit32(x) == 0 ==> whole32(false, whole_part_of32(x)) == x % 0x8000_0000,
        significand32(x) % unit32(x) != 0 ==> whole32(false, whole_part_of32(x)) < x % 0x8000_0000,
        whole32(true, whole_part_of32(x)) == 0x8000_0000 + whole32(false, whole_part_of32(x)),
        whole32(true, whole_part_of32(x) + 1)
            == 0x8000_0000 + whole32(false, whole_part_of32(x) + 1),
{
    lemma2_to64();
    lemma2_to64_rest();
    lemma_whole_part_small32(x);
    let e = exponent32(x);
    let sig = significand32(x);
    let unit = unit32(x);
    let q = sig / unit;
    let m = (x % 0x8000_0000) as int;
    lemma_fundamental_div_mod(sig, unit);
    if e < 127 {
        let k = (150 - (if e == 0 {
            1
        } else {
            e
        })) as nat;
        if k > 23 + 1 {
            lemma_pow2_strictly_increases(23 + 1, k);
        }
        lemma_basic_div(sig, unit);
        lemma_small_mod(sig as nat, unit as nat);
        assert(q == 0);
        assert(top_bit(1) == 0);
        assert(1 * pow2(23) == 0x80_0000);
        assert(whole32(false, 1) == 0x3F80_0000);
        assert(whole32(true, 1) == 0x8000_0000 + 0x3F80_0000);
    } else {
        let k = (150 - e) as nat;
        let p = (23 - k) as nat;
        lemma_pow2_adds(p, k);
        lemma_pow2_pos(p);
        let lo = pow2(p) as int;
        assert(lo <= q < 2 * lo) by (nonlinear_arith)
            requires
                sig == unit * q + sig % unit,
                0 <= sig % unit < unit,
                lo * unit == 0x80_0000,
                0x80_0000 <= sig < 0x100_0000,
                unit >= 2,
                lo >= 1,
        ;
        lemma_top_bit_decided(q as nat, p);
        assert(pow2((23 - p) as nat) == unit);
        assert(q * unit == unit * q) by (nonlinear_arith);
        assert(m == (126 + p) * 0x80_0000 + sig);
        assert(whole32(false, q) == (126 + p) * 0x80_0000 + q * unit);
        assert(whole32(true, q) == 0x8000_0000 + (126 + p) * 0x80_0000 + q * unit);
        if q + 1 < 2 * lo {
            lemma_top_bit_decided((q + 1) as nat, p);
            assert((q + 1) * unit == unit * q + unit) by (nonlinear_arith);
            assert((q + 1) * unit <= 2 * 0x80_0000) by (nonlinear_arith)
                requires
                    0 <= q + 1 <= 2 * lo,
                    lo * unit == 0x80_0000,
                    unit >= 1,
            ;
            assert(whole32(false, q + 1) == (126 + p) * 0x80_0000 + (q + 1) * unit);
            assert(whole32(true, q + 1) == 0x8000_0000 + (126 + p) * 0x80_0000 + (q + 1) * unit);
        } else {
            lemma_pow2_unfold(p + 1);
            lemma_pow2_adds(p + 1, (k - 1) as nat);
            lemma_top_bit_decided((q + 1) as nat, p + 1);
            let up = pow2((23 - (p + 1)) as nat) as int;
            assert((q + 1) * up == 0x80_0000) by (nonlinear_arith)
                requires
                    q + 1 == pow2(p + 1),
                    pow2(p + 1) * up == 0x80_0000,
            ;
            assert(whole32(false, q + 1) == (126 + p + 1) * 0x80_0000 + 0x80_0000);
            assert(whole32(true, q + 1) == 0x8000_0000 + (126 + p + 1) * 0x80_0000 + 0x80_0000);
        }
    }
}

/// Rounding keeps to its side. Rounding down never goes above the lane and rounding up
/// never below it; rounding toward zero never grows the magnitude and keeps the side of
/// zero; rounding to the nearest lands on one of the two; and where down and up agree, the
/// lane was whole and all four give its value.
pub proof fn lemma_rounding_sides32(x: u32)
    requires
        !nan32(x),
    ensures
        !nan32(floor_f32(x)),
        !nan32(ceil_f32(x)),
        !nan32(trunc_f32(x)),
        !nan32(round_f32(x)),
        rank32(floor_f32(x)) <= rank32(x) <= rank32(ceil_f32(x)),
        rank32(x) >= 0 ==> rank32(trunc_f32(x)) == rank32(floor_f32(x)),
        rank32(x) <= 0 ==> rank32(trunc_f32(x)) == rank32(ceil_f32(x)),
        round_f32(x) == floor_f32(x) || round_f32(x) == ceil_f32(x),
        rank32(floor_f32(x)) == rank32(ceil_f32(x)) ==> rank32(floor_f32(x)) == rank32(x),
{
    if exponent32(x) < 150 {
        lemma_whole_brackets32(x);
        lemma_whole_part_small32(x);
        let q = whole_part_of32(x);
        let lo = whole32(false, q);
        let hi = whole32(false, q + 1);
        let rest = significand32(x) % unit32(x);
        assert(!nan32(lo) && !nan32(hi));
        assert(!nan32(whole32(true, q)) && !nan32(whole32(true, q + 1)));
        assert(rank32(lo) == lo && rank32(hi) == hi);
        assert(rank32(whole32(true, q)) == -lo && rank32(whole32(true, q + 1)) == -hi);
        assert(ceil_div(significand32(x), unit32(x)) == (if rest == 0 {
            q
        } else {
            q + 1
        }));
        assert(round_half_even(significand32(x), unit32(x)) == q || round_half_even(
            significand32(x),
            unit32(x),
        ) == q + 1);
        if rest != 0 {
            assert(round_half_even(significand32(x), unit32(x)) == q ==> 2 * rest <= unit32(x));
        } else {
            assert(round_half_even(significand32(x), unit32(x)) == q);
        }
    }
}

/// The double-precision bit pattern of the whole number `n`, at most `2^52`, under the
/// given sign; zero keeps the sign.
pub open spec fn whole64(negative: bool, n: int) -> u64 {
    let magnitude = if n == 0 {
        0
    } else {
        (1022 + top_bit(n as nat)) * 0x10_0000_0000_0000 + n * pow2((52 - top_bit(n as nat)) as nat)
    };
    if negative {
        (0x8000_0000_0000_0000 + magnitude) as u64
    } else {
        magnitude as u64
    }
}

/// A NaN with its quiet bit set, the rest as it was.
pub open spec fn quiet64(x: u64) -> u64 {
    if (x / 0x8_0000_0000_0000) % 2 == 1 {
        x
    } else {
        (x + 0x8_0000_0000_0000) as u64
    }
}

/// A lane rounded toward zero to a whole number. A lane that is whole already, or infinite,
/// stays as it is; a NaN comes back quiet.
pub open spec fn trunc_f64(x: u64) -> u64 {
    if nan64(x) {
        quiet64(x)
    } else if exponent64(x) >= 1075 {
        x
    } else {
        whole64(x >= 0x8000_0000_0000_0000, significand64(x) / unit64(x))
    }
}

/// A lane rounded down to a whole number. A lane that is whole already, or infinite, stays
/// as it is; a NaN comes back quiet.
pub open spec fn floor_f64(x: u64) -> u64 {
    if nan64(x) {
        quiet64(x)
    } else if exponent64(x) >= 1075 {
        x
    } else if x >= 0x8000_0000_0000_0000 {
        whole64(true, ceil_div(significand64(x), unit64(x)))
    } else {
        whole64(false, significand64(x) / unit64(x))
    }
}

/// A lane rounded up to a whole number. A lane that is whole already, or infinite, stays as
/// it is; a NaN comes back quiet.
pub open spec fn ceil_f64(x: u64) -> u64 {
    if nan64(x) {
        quiet64(x)
    } else if exponent64(x) >= 1075 {
        x
    } else if x >= 0x8000_0000_0000_0000 {
        whole64(true, significand64(x) / unit64(x))
    } else {
        whole64(false, ceil_div(significand64(x), unit64(x)))
    }
}

/// A lane rounded to the nearest whole number, halves to the even one. A lane that is whole
/// already, or infinite, stays as it is; a NaN comes back quiet.
pub open spec fn round_f64(x: u64) -> u64 {
    if nan64(x) {
        quiet64(x)
    } else if exponent64(x) >= 1075 {
        x
    } else {
        whole64(x >= 0x8000_0000_0000_0000, round_half_even(significand64(x), unit64(x)))
    }
}

/// Splits a lane below the whole-number exponent into the whole part of its magnitude and
/// the standing of the rest: 0 for none, 1 for under a half, 2 for a half, 3 for more.
pub fn whole_part64(x: u64) -> (r: (u64, u8))
    requires
        !nan64(x),
        exponent64(x) < 1075,
    ensures
        r.0 == significand64(x) / unit64(x),
        r.0 < 0x10_0000_0000_0000,
        unit64(x) >= 2,
        r.1 <= 3,
        (r.1 == 0) == (significand64(x) % unit64(x) == 0),
        (r.1 == 1) == (0 < 2 * (significand64(x) % unit64(x)) < unit64(x)),
        (r.1 == 2) == (2 * (significand64(x) % unit64(x)) == unit64(x)),
        (r.1 == 3) == (2 * (significand64(x) % unit64(x)) > unit64(x)),
{
    let e: u64 = (x % 0x8000_0000_0000_0000) / 0x10_0000_0000_0000;
    let f: u64 = x % 0x10_0000_0000_0000;
    let sig: u64 = if e == 0 {
        f as u64
    } else {
        0x10_0000_0000_0000 + f as u64
    };
    let k: u32 = if e == 0 {
        1074
    } else {
        (1075 - e) as u32
    };
    proof {
        lemma2_to64();
        lemma2_to64_rest();
        if k > 1 {
            lemma_pow2_strictly_increases(1, k as nat);
        }
    }
    if k >= 54 {
        proof {
            if k > 54 {
                lemma_pow2_strictly_increases(54, k as nat);
            }
            lemma_basic_div(sig as int, pow2(k as nat) as int);
            lemma_small_mod(sig as nat, pow2(k as nat));
        }
        (0, if sig == 0 {
            0
        } else {
            1
        })
    } else {
        let den = two_to(k);
        proof {
            lemma_pow2_strictly_increases(k as nat, 54);
            lemma_fundamental_div_mod(sig as int, den as int);
            lemma_mod_bound(sig as int, den as int);
            let q = sig as int / den as int;
            assert(q < 0x10_0000_0000_0000) by (nonlinear_arith)
                requires
                    den * q <= sig,
                    sig < 0x20_0000_0000_0000,
                    den >= 2,
            ;
        }
        let q = sig / den;
        let rest = sig % den;
        let standing: u8 = if rest == 0 {
            0
        } else if 2 * rest < den {
            1
        } else if 2 * rest == den {
            2
        } else {
            3
        };
        (q, standing)
    }
}

/// Builds the lane of a whole number of at most `2^52` under a sign.
pub fn whole_lane64(negative: bool, n: u64) -> (r: u64)
    requires
        n <= 0x10_0000_0000_0000,
    ensures
        r == whole64(negative, n as int),
{
    let magnitude: u64 = if n == 0 {
        0
    } else {
        let p = top_bit_of(n);
        proof {
            lemma2_to64();
            lemma2_to64_rest();
            if p > 52 {
                lemma_pow2_strictly_increases(52, p as nat);
            }
            lemma_pow2_adds(p as nat, (52 - p) as nat);
        }
        let scale = two_to(52 - p);
        proof {
            let lo = pow2(p as nat) as int;
            assert(n * scale < 2 * (lo * scale)) by (nonlinear_arith)
                requires
                    n < 2 * lo,
                    scale >= 1,
            ;
        }
        (1022 + p as u64) * 0x10_0000_0000_0000 + n * scale
    };
    if negative {
        (0x8000_0000_0000_0000 + magnitude) as u64
    } else {
        magnitude as u64
    }
}

/// Sets the quiet bit of a NaN.
pub fn quiet_lane64(x: u64) -> (r: u64)
    requires
        nan64(x),
    ensures
        r == quiet64(x),
{
    if (x / 0x8_0000_0000_0000) % 2 == 1 {
        x
    } else {
        x + 0x8_0000_0000_0000
    }
}

/// Rounds one lane toward zero.
pub fn trunc_lane64(x: u64) -> (r: u64)
    ensures
        r == trunc_f64(x),
{
    if is_nan64(x) {
        quiet_lane64(x)
    } else if (x % 0x8000_0000_0000_0000) / 0x10_0000_0000_0000 >= 1075 {
        x
    } else {
        let part = whole_part64(x);
        let n: u64 = part.0;
        whole_lane64(x >= 0x8000_0000_0000_0000, n)
    }
}

/// Rounds one lane down.
pub fn floor_lane64(x: u64) -> (r: u64)
    ensures
        r == floor_f64(x),
{
    if is_nan64(x) {
        quiet_lane64(x)
    } else if (x % 0x8000_0000_0000_0000) / 0x10_0000_0000_0000 >= 1075 {
        x
    } else {
        let part = whole_part64(x);
        let n: u64 = if x >= 0x8000_0000_0000_0000 && part.1 != 0 {
            part.0 + 1
        } else {
            part.0
        };
        whole_lane64(x >= 0x8000_0000_0000_0000, n)
    }
}

/// Rounds one lane up.
pub fn ceil_lane64(x: u64) -> (r: u64)
    ensures
        r == ceil_f64(x),
{
    if is_nan64(x) {
        quiet_lane64(x)
    } else if (x % 0x8000_0000_0000_0000) / 0x10_0000_0000_0000 >= 1075 {
        x
    } else {
        let part = whole_part64(x);
        let n: u64 = if x < 0x8000_0000_0000_0000 && part.1 != 0 {
            part.0 + 1
        } else {
            part.0
        };
        whole_lane64(x >= 0x8000_0000_0000_0000, n)
    }
}

/// Rounds one lane to the nearest whole number, halves to even.
pub fn round_lane64(x: u64) -> (r: u64)
    ensures
        r == round_f64(x),
{
    if is_nan64(x) {
        quiet_lane64(x)
    } else if (x % 0x8000_0000_0000_0000) / 0x10_0000_0000_0000 >= 1075 {
        x
    } else {
        let part = whole_part64(x);
        let n: u64 = if part.1 == 3 || (part.1 == 2 && part.0 % 2 == 1) {
            part.0 + 1
        } else {
            part.0
        };
        whole_lane64(x >= 0x8000_0000_0000_0000, n)
    }
}

impl Float64x4 {
    /// Every lane rounded down to a whole number.
    pub fn floor(self) -> (r: Self)
        ensures
            forall|i: int| 0 <= i < 4 ==> r@[i] == floor_f64(self@[i]),
    {
        let a = self.to_bits();
        let mut out = [0u64; 4];
        let mut i: usize = 0;
        while i < 4
            invariant
                i <= 4,
                a@ == self@,
                forall|j: int| 0 <= j < i ==> out[j] == floor_f64(a[j]),
            decreases 4 - i,
        {
            out[i] = floor_lane64(a[i]);
            i += 1;
        }
        Self::from_bits(out)
    }

    /// Every lane rounded up to a whole number.
    pub fn ceil(self) -> (r: Self)
        ensures
            forall|i: int| 0 <= i < 4 ==> r@[i] == ceil_f64(self@[i]),
    {
        let a = self.to_bits();
        let mut out = [0u64; 4];
        let mut i: usize = 0;
        while i < 4
            invariant
                i <= 4,
                a@ == self@,
                forall|j: int| 0 <= j < i ==> out[j] == ceil_f64(a[j]),
            decreases 4 - i,
        {
            out[i] = ceil_lane64(a[i]);
            i += 1;
        }
        Self::from_bits(out)
    }

    /// Every lane rounded toward zero to a whole number.
    pub fn trunc(self) -> (r: Self)
        ensures
            forall|i: int| 0 <= i < 4 ==> r@[i] == trunc_f64(self@[i]),
    {
        let a = self.to_bits();
        let mut out = [0u64; 4];
        let mut i: usize = 0;
        while i < 4
            invariant
                i <= 4,
                a@ == self@,
                forall|j: int| 0 <= j < i ==> out[j] == trunc_f64(a[j]),
            decreases 4 - i,
        {
            out[i] = trunc_lane64(a[i]);
            i += 1;
        }
        Self::from_bits(out)
    }

    /// Every lane rounded to the nearest whole number, halves to the even one.
    pub fn round(self) -> (r: Self)
        ensures
            forall|i: int| 0 <= i < 4 ==> r@[i] == round_f64(self@[i]),
    {
        let a = self.to_bits();
        let mut out = [0u64; 4];
        let mut i: usize = 0;
        while i < 4
            invariant
                i <= 4,
                a@ == self@,
                forall|j: int| 0 <= j < i ==> out[j] == round_f64(a[j]),
            decreases 4 - i,
        {
            out[i] = round_lane64(a[i]);
            i += 1;
        }
        Self::from_bits(out)
    }
}

/// What the lane of a whole number holds: it is no NaN, carries the given sign, and its
/// significand is the number itself, scaled up to its highest bit.
pub proof fn lemma_whole_fields64(negative: bool, n: int)
    requires
        1 <= n <= 0x10_0000_0000_0000,
    ensures
        top_bit(n as nat) <= 52,
        !nan64(whole64(negative, n)),
        (whole64(negative, n) >= 0x8000_0000_0000_0000) == negative,
        exponent64(whole64(negative, n)) == 1023 + top_bit(n as nat),
        significand64(whole64(negative, n)) == n * pow2((52 - top_bit(n as nat)) as nat),
{
    lemma2_to64();
    lemma2_to64_rest();
    let p = top_bit(n as nat);
    lemma_top_bit_brackets(n as nat);
    if p > 52 {
        lemma_pow2_strictly_increases(52, p);
    }
    let unit = pow2((52 - p) as nat) as int;
    let s = n * unit;
    lemma_pow2_adds(p, (52 - p) as nat);
    assert(0x10_0000_0000_0000 <= s < 0x20_0000_0000_0000) by (nonlinear_arith)
        requires
            s == n * unit,
            pow2(p) * unit == 0x10_0000_0000_0000,
            pow2(p) <= n < 2 * pow2(p),
            unit >= 1,
    ;
    let x = whole64(negative, n);
    assert(x % 0x8000_0000_0000_0000 == (1022 + p) * 0x10_0000_0000_0000 + s);
}

/// The whole part of a lane below the whole-number exponent is under `2^52`.
pub proof fn lemma_whole_part_small64(x: u64)
    requires
        exponent64(x) < 1075,
    ensures
        unit64(x) >= 2,
        0 <= significand64(x) / unit64(x) < 0x10_0000_0000_0000,
        0 <= significand64(x) % unit64(x) < unit64(x),
{
    lemma2_to64();
    let e = exponent64(x);
    let k = (1075 - (if e == 0 {
        1
    } else {
        e
    })) as nat;
    if k > 1 {
        lemma_pow2_strictly_increases(1, k);
    }
    let sig = significand64(x);
    let unit = unit64(x);
    lemma_fundamental_div_mod(sig, unit);
    lemma_mod_bound(sig, unit);
    let q = sig / unit;
    assert(0 <= q < 0x10_0000_0000_0000) by (nonlinear_arith)
        requires
            unit * q <= sig,
            sig < unit * q + unit,
            0 <= sig < 0x20_0000_0000_0000,
            unit >= 2,
    ;
}

/// A lane that holds a whole number of at most `2^52` is left alone by all four roundings.
pub proof fn lemma_whole_is_settled64(negative: bool, n: int)
    requires
        0 <= n <= 0x10_0000_0000_0000,
    ensures
        trunc_f64(whole64(negative, n)) == whole64(negative, n),
        floor_f64(whole64(negative, n)) == whole64(negative, n),
        ceil_f64(whole64(negative, n)) == whole64(negative, n),
        round_f64(whole64(negative, n)) == whole64(negative, n),
{
    let x = whole64(negative, n);
    if n == 0 {
        assert(exponent64(x) == 0);
        assert(significand64(x) == 0);
        lemma_pow2_pos(1074);
        lemma_basic_div(0, pow2(1074) as int);
        lemma_small_mod(0, pow2(1074));
        assert(unit64(x) == pow2(1074));
    } else {
        lemma_whole_fields64(negative, n);
        let p = top_bit(n as nat);
        if p < 52 {
            let unit = pow2((52 - p) as nat) as int;
            let s = n * unit;
            lemma_pow2_pos((52 - p) as nat);
            assert(unit64(x) == unit);
            lemma_div_multiples_vanish(n, unit);
            lemma_mod_multiples_basic(n, unit);
            assert(unit * n == s) by (nonlinear_arith)
                requires
                    s == n * unit,
            ;
            assert(s / unit == n);
            assert(s % unit == 0);
        }
    }
}

/// Rounding settles: a lane that was rounded once is left alone by a second rounding of the
/// same kind.
pub proof fn lemma_rounding_settles64(x: u64)
    ensures
        trunc_f64(trunc_f64(x)) == trunc_f64(x),
        floor_f64(floor_f64(x)) == floor_f64(x),
        ceil_f64(ceil_f64(x)) == ceil_f64(x),
        round_f64(round_f64(x)) == round_f64(x),
{
    if nan64(x) {
        assert(nan64(quiet64(x)));
        assert(quiet64(quiet64(x)) == quiet64(x));
    } else if exponent64(x) < 1075 {
        lemma_whole_part_small64(x);
        let sig = significand64(x);
        let unit = unit64(x);
        lemma_whole_is_settled64(x >= 0x8000_0000_0000_0000, sig / unit);
        lemma_whole_is_settled64(x >= 0x8000_0000_0000_0000, sig / unit + 1);
    }
}

/// The whole part of the magnitude of a lane below the whole-number exponent.
pub open spec fn whole_part_of64(x: u64) -> int {
    significand64(x) / unit64(x)
}

/// The magnitude of a lane lies between the lanes of the two whole numbers around it: the
/// whole part below, the next whole number above, and on the lower one exactly where
/// nothing is left over. A set sign bit is all that tells the negative lanes of those two
/// whole numbers from the positive ones.
pub proof fn lemma_whole_brackets64(x: u64)
    requires
        !nan64(x),
        exponent64(x) < 1075,
    ensures
        whole64(false, whole_part_of64(x)) <= x % 0x8000_0000_0000_0000,
        x % 0x8000_0000_0000_0000 <= whole64(false,
            whole_part_of64(x) + 1) <= 0x4330_0000_0000_0000,
        significand64(x) % unit64(x) == 0 ==> whole64(false,
            whole_part_of64(x)) == x % 0x8000_0000_0000_0000,
        significand64(x) % unit64(x) != 0 ==> whole64(false,
            whole_part_of64(x)) < x % 0x8000_0000_0000_0000,
        whole64(true, whole_part_of64(x))
            == 0x8000_0000_0000_0000 + whole64(false, whole_part_of64(x)),
        whole64(true, whole_part_of64(x) + 1)
            == 0x8000_0000_0000_0000 + whole64(false, whole_part_of64(x) + 1),
{
    lemma2_to64();
    lemma2_to64_rest();
    lemma_whole_part_small64(x);
    let e = exponent64(x);
    let sig = significand64(x);
    let unit = unit64(x);
    let q = sig / unit;
    let m = (x % 0x8000_0000_0000_0000) as int;
    lemma_fundamental_div_mod(sig, unit);
    if e < 1023 {
        let k = (1075 - (if e == 0 {
            1
        } else {
            e
        })) as nat;
        if k > 52 + 1 {
            lemma_pow2_strictly_increases(52 + 1, k);
        }
        lemma_basic_div(sig, unit);
        lemma_small_mod(sig as nat, unit as nat);
        assert(q == 0);
        assert(top_bit(1) == 0);
        assert(1 * pow2(52) == 0x10_0000_0000_0000);
        assert(whole64(false, 1) == 0x3FF0_0000_0000_0000);
        assert(whole64(true, 1) == 0x8000_0000_0000_0000 + 0x3FF0_0000_0000_0000);
    } else {
        let k = (1075 - e) as nat;
        let p = (52 - k) as nat;
        lemma_pow2_adds(p, k);
        lemma_pow2_pos(p);
        let lo = pow2(p) as int;
        assert(lo <= q < 2 * lo) by (nonlinear_arith)
            requires
                sig == unit * q + sig % unit,
                0 <= sig % unit < unit,
                lo * unit == 0x10_0000_0000_0000,
                0x10_0000_0000_0000 <= sig < 0x20_0000_0000_0000,
                unit >= 2,
                lo >= 1,
        ;
        lemma_top_bit_decided(q as nat, p);
        assert(pow2((52 - p) as nat) == unit);
        assert(q * unit == unit * q) by (nonlinear_arith);
        assert(m == (1022 + p) * 0x10_0000_0000_0000 + sig);
        assert(whole64(false, q) == (1022 + p) * 0x10_0000_0000_0000 + q * unit);
        assert(whole64(true, q)
            == 0x8000_0000_0000_0000 + (1022 + p) * 0x10_0000_0000_0000 + q * unit);
        if q + 1 < 2 * lo {
            lemma_top_bit_decided((q + 1) as nat, p);
            assert((q + 1) * unit == unit * q + unit) by (nonlinear_arith);
            assert((q + 1) * unit <= 2 * 0x10_0000_0000_0000) by (nonlinear_arith)
                requires
                    0 <= q + 1 <= 2 * lo,
                    lo * unit == 0x10_0000_0000_0000,
                    unit >= 1,
            ;
            assert(whole64(false, q + 1) == (1022 + p) * 0x10_0000_0000_0000 + (q + 1) * unit);
            assert(whole64(true, q + 1)
                == 0x8000_0000_0000_0000 + (1022 + p) * 0x10_0000_0000_0000 + (q + 1) * unit);
        } else {
            lemma_pow2_unfold(p + 1);
            lemma_pow2_adds(p + 1, (k - 1) as nat);
            lemma_top_bit_decided((q + 1) as nat, p + 1);
            let up = pow2((52 - (p + 1)) as nat) as int;
            assert((q + 1) * up == 0x10_0000_0000_0000) by (nonlinear_arith)
                requires
                    q + 1 == pow2(p + 1),
                    pow2(p + 1) * up == 0x10_0000_0000_0000,
            ;
            assert(whole64(false, q + 1)
                == (1022 + p + 1) * 0x10_0000_0000_0000 + 0x10_0000_0000_0000);
            assert(whole64(true, q + 1)
                == 0x8000_0000_0000_0000 + (1022 + p + 1) * 0x10_0000_0000_0000
                    + 0x10_0000_0000_0000);
        }
    }
}

/// Rounding keeps to its side. Rounding down never goes above the lane and rounding up
/// never below it; rounding toward zero never grows the magnitude and keeps the side of
/// zero; rounding to the nearest lands on one of the two; and where down and up agree, the
/// lane was whole and all four give its value.
pub proof fn lemma_rounding_sides64(x: u64)
    requires
        !nan64(x),
    ensures
        !nan64(floor_f64(x)),
        !nan64(ceil_f64(x)),
        !nan64(trunc_f64(x)),
        !nan64(round_f64(x)),
        rank64(floor_f64(x)) <= rank64(x) <= rank64(ceil_f64(x)),
        rank64(x) >= 0 ==> rank64(trunc_f64(x)) == rank64(floor_f64(x)),
        rank64(x) <= 0 ==> rank64(trunc_f64(x)) == rank64(ceil_f64(x)),
        round_f64(x) == floor_f64(x) || round_f64(x) == ceil_f64(x),
        rank64(floor_f64(x)) == rank64(ceil_f64(x)) ==> rank64(floor_f64(x)) == rank64(x),
{
    if exponent64(x) < 1075 {
        lemma_whole_brackets64(x);
        lemma_whole_part_small64(x);
        let q = whole_part_of64(x);
        let lo = whole64(false, q);
        let hi = whole64(false, q + 1);
        let rest = significand64(x) % unit64(x);
        assert(!nan64(lo) && !nan64(hi));
        assert(!nan64(whole64(true, q)) && !nan64(whole64(true, q + 1)));
        assert(rank64(lo) == lo && rank64(hi) == hi);
        assert(rank64(whole64(true, q)) == -lo && rank64(whole64(true, q + 1)) == -hi);
        assert(ceil_div(significand64(x), unit64(x)) == (if rest == 0 {
            q
        } else {
            q + 1
        }));
        assert(round_half_even(significand64(x), unit64(x)) == q || round_half_even(
            significand64(x),
            unit64(x),
        ) == q + 1);
        if rest != 0 {
            assert(round_half_even(significand64(x), unit64(x)) == q ==> 2 * rest <= unit64(x));
        } else {
            assert(round_half_even(significand64(x), unit64(x)) == q);
        }
    }
}

} // verus!
