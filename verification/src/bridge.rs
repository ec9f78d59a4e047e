use crate::conversion::VectorConvertInto;
use crate::float_256::Float32x8;
use crate::ieee::{exponent32, is_nan32, nan32, significand32, unit32};
use crate::int32::Int32x8;
use crate::scaling::{lemma_top_bit_brackets, round_half_even, top_bit, top_bit_of, two_to};
use vstd::arithmetic::div_mod::{
    lemma_basic_div, lemma_div_multiples_vanish, lemma_fundamental_div_mod, lemma_mod_bound,
    lemma_mod_multiples_basic, lemma_small_mod,
};
use vstd::arithmetic::power2::{
    lemma2_to64, lemma_pow2_adds, lemma_pow2_pos, lemma_pow2_strictly_increases, pow2,
};
use vstd::prelude::*;

verus! {

/// The magnitude of a single-precision value rounded to the nearest integer, halves to even.
pub open spec fn rounded_magnitude32(x: u32) -> int {
    let e = exponent32(x);
    if e >= 150 {
        significand32(x) * pow2((e - 150) as nat)
    } else {
        round_half_even(significand32(x), unit32(x))
    }
}

/// A single-precision lane converted to a signed 32-bit lane: the value rounded to the
/// nearest integer, halves to even; a NaN, an infinity or a value that rounds outside the
/// 32-bit range gives the most negative integer.
pub open spec fn f32_to_i32(x: u32) -> i32 {
    let n = rounded_magnitude32(x);
    let v = if x >= 0x8000_0000 {
        -n
    } else {
        n
    };
    if nan32(x) || v < -0x8000_0000 || v >= 0x8000_0000 {
        -0x8000_0000i32
    } else {
        v as i32
    }
}

/// Converts one single-precision lane to a signed 32-bit lane.
pub fn lane_f32_to_i32(x: u32) -> (r: i32)
    ensures
        r == f32_to_i32(x),
{
    let m: u32 = x % 0x8000_0000;
    let e: u32 = m / 0x80_0000;
    let f: u32 = x % 0x80_0000;
    if is_nan32(x) {
        return i32::MIN;
    }
    if e >= 158 {
        proof {
            lemma2_to64();
            if e > 158 {
                lemma_pow2_strictly_increases(8, (e - 150) as nat);
            }
            let p = pow2((e - 150) as nat) as int;
            let s = significand32(x);
            assert(s * p >= 0x8000_0000) by (nonlinear_arith)
                requires
                    s >= 0x80_0000,
                    p >= 0x100,
            ;
        }
        return i32::MIN;
    }
    let sig: u64 = if e == 0 {
        f as u64
    } else {
        0x80_0000 + f as u64
    };
    let n: u64 = if e >= 150 {
        let p = two_to(e - 150);
        proof {
            lemma2_to64();
            if e < 157 {
                lemma_pow2_strictly_increases((e - 150) as nat, 7);
            }
            assert(sig * p < 0x8000_0000) by (nonlinear_arith)
                requires
                    sig < 0x100_0000,
                    p <= 0x80,
            ;
        }
        sig * p
    } else {
        let k: u32 = if e == 0 {
            149
        } else {
            150 - e
        };
        if k >= 25 {
            proof {
                lemma2_to64();
                if k > 25 {
                    lemma_pow2_strictly_increases(25, k as nat);
                }
                lemma_basic_div(sig as int, pow2(k as nat) as int);
                lemma_small_mod(sig as nat, pow2(k as nat));
            }
            0
        } else {
            let den = two_to(k);
            proof {
                lemma_pow2_pos(k as nat);
            }
            let q = sig / den;
            let r = sig % den;
            if 2 * r > den || (2 * r == den && q % 2 == 1) {
                q + 1
            } else {
                q
            }
        }
    };
    assert(n == rounded_magnitude32(x));
    assert(n < 0x8000_0000);
    if x >= 0x8000_0000 {
        (-(n as i64)) as i32
    } else {
        n as i32
    }
}

/// Whether every lane of `r` is the conversion of the same lane of `x`.
pub open spec fn float_to_int_lanes(x: Float32x8, r: Int32x8) -> bool {
    forall|i: int| 0 <= i < 8 ==> r@[i] == f32_to_i32(x@[i])
}

/// Value conversion from single-precision lanes to signed 32-bit lanes, lane by lane.
impl VectorConvertInto<Int32x8> for Float32x8 {
    open spec fn converted(self) -> Int32x8 {
        choose|r: Int32x8| float_to_int_lanes(self, r)
    }

    fn convert_vector(self) -> (r: Int32x8) {
        let a = self.to_bits();
        let mut out = [0i32; 8];
        let mut i: usize = 0;
        while i < 8
            invariant
                i <= 8,
                a@ == self@,
                forall|j: int| 0 <= j < i ==> out[j] == f32_to_i32(a[j]),
            decreases 8 - i,
        {
            out[i] = lane_f32_to_i32(a[i]);
            i += 1;
        }
        let r = Int32x8::from_array(out);
        proof {
            lemma_float_to_int_decided(self, r);
        }
        r
    }
}

/// The conversion of a float vector is the one integer vector whose lanes are the
/// conversions of its lanes.
pub proof fn lemma_float_to_int_decided(x: Float32x8, r: Int32x8)
    requires
        float_to_int_lanes(x, r),
    ensures
        r == VectorConvertInto::<Int32x8>::converted(x),
        float_to_int_lanes(x, VectorConvertInto::<Int32x8>::converted(x)),
{
    let c = VectorConvertInto::<Int32x8>::converted(x);
    assert(float_to_int_lanes(x, c));
    assert(c@ =~= r@);
    c.lemma_lanes_decide(r);
}

/// A signed 32-bit lane converted to a single-precision lane: the nearest single-precision
/// value, halves to the even significand. Zero gives positive zero. With `p` the highest set
/// bit of the magnitude, the exponent field is `127 + p` and the significand holds the top 24
/// bits of the magnitude, rounded; a significand that rounds up to `2^24` carries into the
/// exponent.
pub open spec fn i32_to_f32(n: i32) -> u32 {
    if n == 0 {
        0
    } else {
        let a = if n < 0 {
            -n
        } else {
            n as int
        };
        let p = top_bit(a as nat);
        let significand = if p <= 23 {
            a * pow2((23 - p) as nat)
        } else {
            round_half_even(a, pow2((p - 23) as nat) as int)
        };
        let magnitude = (126 + p) * 0x80_0000 + significand;
        if n < 0 {
            (0x8000_0000 + magnitude) as u32
        } else {
            magnitude as u32
        }
    }
}

/// Converts one signed 32-bit lane to a single-precision lane.
pub fn lane_i32_to_f32(n: i32) -> (r: u32)
    ensures
        r == i32_to_f32(n),
{
    if n == 0 {
        return 0;
    }
    let a: u64 = if n < 0 {
        (-(n as i64)) as u64
    } else {
        n as u64
    };
    let p = top_bit_of(a);
    proof {
        lemma2_to64();
        if p > 31 {
            lemma_pow2_strictly_increases(31, p as nat);
        }
    }
    let significand: u64 = if p <= 23 {
        let scale = two_to(23 - p);
        proof {
            lemma2_to64();
            lemma_pow2_adds(p as nat, (23 - p) as nat);
            let lo = pow2(p as nat) as int;
            assert(a * scale < 2 * (lo * scale)) by (nonlinear_arith)
                requires
                    a < 2 * lo,
                    scale >= 1,
            ;
        }
        a * scale
    } else {
        let den = two_to(p - 23);
        proof {
            lemma2_to64();
            lemma_pow2_adds(23, (p - 23) as nat);
            lemma_fundamental_div_mod(a as int, den as int);
            lemma_mod_bound(a as int, den as int);
            let q = a as int / den as int;
            assert(q < 0x100_0000) by (nonlinear_arith)
                requires
                    den * q <= a,
                    a < 0x100_0000 * den,
                    den >= 1,
            ;
        }
        let q = a / den;
        let r = a % den;
        if 2 * r > den || (2 * r == den && q % 2 == 1) {
            q + 1
        } else {
            q
        }
    };
    let magnitude: u64 = (126 + p as u64) * 0x80_0000 + significand;
    if n < 0 {
        (0x8000_0000 + magnitude) as u32
    } else {
        magnitude as u32
    }
}

/// Whether every lane of `r` is the conversion of the same lane of `x`.
pub open spec fn int_to_float_lanes(x: Int32x8, r: Float32x8) -> bool {
    forall|i: int| 0 <= i < 8 ==> r@[i] == i32_to_f32(x@[i])
}

/// Value conversion from signed 32-bit lanes to single-precision lanes, lane by lane.
impl VectorConvertInto<Float32x8> for Int32x8 {
    open spec fn converted(self) -> Float32x8 {
        choose|r: Float32x8| int_to_float_lanes(self, r)
    }

    fn convert_vector(self) -> (r: Float32x8) {
        let a = self.to_array();
        let mut out = [0u32; 8];
        let mut i: usize = 0;
        while i < 8
            invariant
                i <= 8,
                a@ == self@,
                forall|j: int| 0 <= j < i ==> out[j] == i32_to_f32(a[j]),
            decreases 8 - i,
        {
            out[i] = lane_i32_to_f32(a[i]);
            i += 1;
        }
        let r = Float32x8::from_bits(out);
        proof {
            lemma_int_to_float_decided(self, r);
        }
        r
    }
}

/// The conversion of an integer vector is the one float vector whose lanes are the
/// conversions of its lanes.
pub proof fn lemma_int_to_float_decided(x: Int32x8, r: Float32x8)
    requires
        int_to_float_lanes(x, r),
    ensures
        r == VectorConvertInto::<Float32x8>::converted(x),
        int_to_float_lanes(x, VectorConvertInto::<Float32x8>::converted(x)),
{
    let c = VectorConvertInto::<Float32x8>::converted(x);
    assert(int_to_float_lanes(x, c));
    assert(c@ =~= r@);
    c.lemma_lanes_decide(r);
}

/// An integer of magnitude at most `2^24` survives the trip to single precision and back:
/// the conversion to a float is exact there.
pub proof fn lemma_int_to_float_exact(n: i32)
    requires
        -0x100_0000 <= n <= 0x100_0000,
    ensures
        f32_to_i32(i32_to_f32(n)) == n,
{
    lemma2_to64();
    if n == 0 {
        lemma_pow2_pos(149);
        lemma_basic_div(0, pow2(149) as int);
        lemma_small_mod(0, pow2(149));
        assert(exponent32(0) == 0);
        assert(significand32(0) == 0);
        assert(rounded_magnitude32(0) == 0);
    } else {
        let a: int = if n < 0 {
            -n
        } else {
            n as int
        };
        let p = top_bit(a as nat);
        lemma_top_bit_brackets(a as nat);
        if p > 24 {
            lemma_pow2_strictly_increases(24, p);
        }
        let x = i32_to_f32(n);
        if p <= 23 {
            let unit = pow2((23 - p) as nat) as int;
            let s = a * unit;
            lemma_pow2_adds(p, (23 - p) as nat);
            lemma_pow2_pos((23 - p) as nat);
            assert(0x80_0000 <= s < 0x100_0000) by (nonlinear_arith)
                requires
                    s == a * unit,
                    pow2(p) * unit == 0x80_0000,
                    pow2(p) <= a < 2 * pow2(p),
                    unit >= 1,
            ;
            let magnitude = (126 + p) * 0x80_0000 + s;
            assert(x % 0x8000_0000 == magnitude);
            assert(exponent32(x) == 127 + p);
            assert(significand32(x) == s);
            if p < 23 {
                assert(unit32(x) == unit);
                lemma_div_multiples_vanish(a, unit);
                lemma_mod_multiples_basic(a, unit);
                assert(unit * a == s) by (nonlinear_arith)
                    requires
                        s == a * unit,
                ;
                assert(s / unit == a);
                assert(s % unit == 0);
                assert(round_half_even(s, unit) == a);
            } else {
                assert(unit == 1);
                assert(pow2((exponent32(x) - 150) as nat) == 1);
                assert(s == a) by (nonlinear_arith)
                    requires
                        s == a * unit,
                        unit == 1,
                ;
            }
            assert(rounded_magnitude32(x) == a);
            assert(!nan32(x));
            assert((x >= 0x8000_0000) == (n < 0));
        } else {
            assert(a == 0x100_0000);
            assert(round_half_even(a, pow2(1) as int) == 0x80_0000);
            assert(x % 0x8000_0000 == 151 * 0x80_0000);
            assert(exponent32(x) == 151);
            assert(significand32(x) == 0x80_0000);
            assert(pow2((exponent32(x) - 150) as nat) == 2);
            assert(rounded_magnitude32(x) == significand32(x) * pow2((exponent32(x) - 150) as nat));
            assert(rounded_magnitude32(x) == a);
            assert(!nan32(x));
            assert((x >= 0x8000_0000) == (n < 0));
        }
    }
}

} // verus!
