use vstd::arithmetic::power2::pow2;
use vstd::prelude::*;

verus! {

/// Whether a single-precision bit pattern is a NaN: all exponent bits set and a fraction
/// that is not zero, under either sign.
pub open spec fn nan32(x: u32) -> bool {
    x % 0x8000_0000 > 0x7F80_0000
}

/// Where a single-precision bit pattern that is no NaN stands in numeric order: the bits
/// below the sign bit read as an integer, negated where the sign bit is set. The two zeros
/// share rank 0, and the infinities are the two ends.
pub open spec fn rank32(x: u32) -> int {
    if x >= 0x8000_0000 {
        -(x - 0x8000_0000)
    } else {
        x as int
    }
}

/// Whether neither of two lanes is a NaN.
pub open spec fn ordered32(a: u32, b: u32) -> bool {
    !nan32(a) && !nan32(b)
}

/// A comparison's result lane: every bit set on a hit, every bit clear otherwise.
pub open spec fn mask_f32(hit: bool) -> u32 {
    if hit {
        0xFFFF_FFFF
    } else {
        0
    }
}

/// Ordered equality: a hit where neither lane is a NaN and the two are numerically equal.
pub open spec fn eq_f32(a: u32, b: u32) -> u32 {
    mask_f32(ordered32(a, b) && rank32(a) == rank32(b))
}

/// Inequality: a hit where the lanes differ numerically or either is a NaN.
pub open spec fn ne_f32(a: u32, b: u32) -> u32 {
    mask_f32(!(ordered32(a, b) && rank32(a) == rank32(b)))
}

/// Ordered `a > b`: never a hit where either lane is a NaN.
pub open spec fn gt_f32(a: u32, b: u32) -> u32 {
    mask_f32(ordered32(a, b) && rank32(a) > rank32(b))
}

/// Ordered `a < b`: never a hit where either lane is a NaN.
pub open spec fn lt_f32(a: u32, b: u32) -> u32 {
    mask_f32(ordered32(a, b) && rank32(a) < rank32(b))
}

/// Ordered `a >= b`: never a hit where either lane is a NaN.
pub open spec fn ge_f32(a: u32, b: u32) -> u32 {
    mask_f32(ordered32(a, b) && rank32(a) >= rank32(b))
}

/// Ordered `a <= b`: never a hit where either lane is a NaN.
pub open spec fn le_f32(a: u32, b: u32) -> u32 {
    mask_f32(ordered32(a, b) && rank32(a) <= rank32(b))
}

/// The smaller lane. Where exactly one lane is a NaN the other one is the result; where
/// neither is strictly smaller (equal lanes, two zeros, two NaNs) the result is `b`.
pub open spec fn min_f32(a: u32, b: u32) -> u32 {
    if nan32(b) && !nan32(a) {
        a
    } else if ordered32(a, b) && rank32(a) < rank32(b) {
        a
    } else {
        b
    }
}

/// The larger lane. Where exactly one lane is a NaN the other one is the result; where
/// neither is strictly larger (equal lanes, two zeros, two NaNs) the result is `b`.
pub open spec fn max_f32(a: u32, b: u32) -> u32 {
    if nan32(b) && !nan32(a) {
        a
    } else if ordered32(a, b) && rank32(a) > rank32(b) {
        a
    } else {
        b
    }
}

/// Tells whether a bit pattern is a NaN.
pub fn is_nan32(x: u32) -> (r: bool)
    ensures
        r == nan32(x),
{
    x % 0x8000_0000 > 0x7F80_0000
}

/// Computes the rank of a bit pattern.
pub fn rank_of32(x: u32) -> (r: i64)
    ensures
        r == rank32(x),
{
    if x >= 0x8000_0000 {
        -((x - 0x8000_0000) as i64)
    } else {
        x as i64
    }
}

/// Tells whether `a < b` holds, ordered.
pub fn ordered_lt32(a: u32, b: u32) -> (r: bool)
    ensures
        r == (ordered32(a, b) && rank32(a) < rank32(b)),
{
    !is_nan32(a) && !is_nan32(b) && rank_of32(a) < rank_of32(b)
}

/// Tells whether `a == b` holds, ordered.
pub fn ordered_eq32(a: u32, b: u32) -> (r: bool)
    ensures
        r == (ordered32(a, b) && rank32(a) == rank32(b)),
{
    !is_nan32(a) && !is_nan32(b) && rank_of32(a) == rank_of32(b)
}

/// A lane that is no NaN equals itself.
pub proof fn lemma_eq_reflexive_f32(x: u32)
    requires
        !nan32(x),
    ensures
        eq_f32(x, x) == 0xFFFF_FFFF,
{
}

/// No lane, NaN or not, is greater than itself.
pub proof fn lemma_gt_irreflexive_f32(x: u32)
    ensures
        gt_f32(x, x) == 0,
        lt_f32(x, x) == 0,
{
}

/// Of two lanes that are no NaNs, the minimum and the maximum are numerically those two
/// lanes, smaller first; bit for bit too, unless the two are numerically equal.
pub proof fn lemma_min_max_f32(a: u32, b: u32)
    requires
        !nan32(a),
        !nan32(b),
    ensures
        rank32(min_f32(a, b)) <= rank32(max_f32(a, b)),
        (rank32(min_f32(a, b)) == rank32(a) && rank32(max_f32(a, b)) == rank32(b))
            || (rank32(min_f32(a, b)) == rank32(b) && rank32(max_f32(a, b)) == rank32(a)),
        rank32(a) != rank32(b) ==> (min_f32(a, b) == a && max_f32(a, b) == b) || (min_f32(
            a,
            b,
        ) == b && max_f32(a, b) == a),
{
}

/// Where exactly one lane is a NaN, the minimum and the maximum are both the other lane.
pub proof fn lemma_min_max_one_nan_f32(a: u32, b: u32)
    requires
        nan32(a) != nan32(b),
    ensures
        !nan32(min_f32(a, b)),
        min_f32(a, b) == max_f32(a, b),
        min_f32(a, b) == (if nan32(a) { b } else { a }),
{
}

/// Whether a double-precision bit pattern is a NaN: all exponent bits set and a fraction
/// that is not zero, under either sign.
pub open spec fn nan64(x: u64) -> bool {
    x % 0x8000_0000_0000_0000 > 0x7FF0_0000_0000_0000
}

/// Where a double-precision bit pattern that is no NaN stands in numeric order: the bits
/// below the sign bit read as an integer, negated where the sign bit is set. The two zeros
/// share rank 0, and the infinities are the two ends.
pub open spec fn rank64(x: u64) -> int {
    if x >= 0x8000_0000_0000_0000 {
        -(x - 0x8000_0000_0000_0000)
    } else {
        x as int
    }
}

/// Whether neither of two lanes is a NaN.
pub open spec fn ordered64(a: u64, b: u64) -> bool {
    !nan64(a) && !nan64(b)
}

/// A comparison's result lane: every bit set on a hit, every bit clear otherwise.
pub open spec fn mask_f64(hit: bool) -> u64 {
    if hit {
        0xFFFF_FFFF_FFFF_FFFF
    } else {
        0
    }
}

/// Ordered equality: a hit where neither lane is a NaN and the two are numerically equal.
pub open spec fn eq_f64(a: u64, b: u64) -> u64 {
    mask_f64(ordered64(a, b) && rank64(a) == rank64(b))
}

/// Inequality: a hit where the lanes differ numerically or either is a NaN.
pub open spec fn ne_f64(a: u64, b: u64) -> u64 {
    mask_f64(!(ordered64(a, b) && rank64(a) == rank64(b)))
}

/// Ordered `a > b`: never a hit where either lane is a NaN.
pub open spec fn gt_f64(a: u64, b: u64) -> u64 {
    mask_f64(ordered64(a, b) && rank64(a) > rank64(b))
}

/// Ordered `a < b`: never a hit where either lane is a NaN.
pub open spec fn lt_f64(a: u64, b: u64) -> u64 {
    mask_f64(ordered64(a, b) && rank64(a) < rank64(b))
}

/// Ordered `a >= b`: never a hit where either lane is a NaN.
pub open spec fn ge_f64(a: u64, b: u64) -> u64 {
    mask_f64(ordered64(a, b) && rank64(a) >= rank64(b))
}

/// Ordered `a <= b`: never a hit where either lane is a NaN.
pub open spec fn le_f64(a: u64, b: u64) -> u64 {
    mask_f64(ordered64(a, b) && rank64(a) <= rank64(b))
}

/// The smaller lane. Where exactly one lane is a NaN the other one is the result; where
/// neither is strictly smaller (equal lanes, two zeros, two NaNs) the result is `b`.
pub open spec fn min_f64(a: u64, b: u64) -> u64 {
    if nan64(b) && !nan64(a) {
        a
    } else if ordered64(a, b) && rank64(a) < rank64(b) {
        a
    } else {
        b
    }
}

/// The larger lane. Where exactly one lane is a NaN the other one is the result; where
/// neither is strictly larger (equal lanes, two zeros, two NaNs) the result is `b`.
pub open spec fn max_f64(a: u64, b: u64) -> u64 {
    if nan64(b) && !nan64(a) {
        a
    } else if ordered64(a, b) && rank64(a) > rank64(b) {
        a
    } else {
        b
    }
}

/// Tells whether a bit pattern is a NaN.
pub fn is_nan64(x: u64) -> (r: bool)
    ensures
        r == nan64(x),
{
    x % 0x8000_0000_0000_0000 > 0x7FF0_0000_0000_0000
}

/// Computes the rank of a bit pattern.
pub fn rank_of64(x: u64) -> (r: i128)
    ensures
        r == rank64(x),
{
    if x >= 0x8000_0000_0000_0000 {
        -((x - 0x8000_0000_0000_0000) as i128)
    } else {
        x as i128
    }
}

/// Tells whether `a < b` holds, ordered.
pub fn ordered_lt64(a: u64, b: u64) -> (r: bool)
    ensures
        r == (ordered64(a, b) && rank64(a) < rank64(b)),
{
    !is_nan64(a) && !is_nan64(b) && rank_of64(a) < rank_of64(b)
}

/// Tells whether `a == b` holds, ordered.
pub fn ordered_eq64(a: u64, b: u64) -> (r: bool)
    ensures
        r == (ordered64(a, b) && rank64(a) == rank64(b)),
{
    !is_nan64(a) && !is_nan64(b) && rank_of64(a) == rank_of64(b)
}

/// A lane that is no NaN equals itself.
pub proof fn lemma_eq_reflexive_f64(x: u64)
    requires
        !nan64(x),
    ensures
        eq_f64(x, x) == 0xFFFF_FFFF_FFFF_FFFF,
{
}

/// No lane, NaN or not, is greater than itself.
pub proof fn lemma_gt_irreflexive_f64(x: u64)
    ensures
        gt_f64(x, x) == 0,
        lt_f64(x, x) == 0,
{
}

/// Of two lanes that are no NaNs, the minimum and the maximum are numerically those two
/// lanes, smaller first; bit for bit too, unless the two are numerically equal.
pub proof fn lemma_min_max_f64(a: u64, b: u64)
    requires
        !nan64(a),
        !nan64(b),
    ensures
        rank64(min_f64(a, b)) <= rank64(max_f64(a, b)),
        (rank64(min_f64(a, b)) == rank64(a) && rank64(max_f64(a, b)) == rank64(b))
            || (rank64(min_f64(a, b)) == rank64(b) && rank64(max_f64(a, b)) == rank64(a)),
        rank64(a) != rank64(b) ==> (min_f64(a, b) == a && max_f64(a, b) == b) || (min_f64(
            a,
            b,
        ) == b && max_f64(a, b) == a),
{
}

/// Where exactly one lane is a NaN, the minimum and the maximum are both the other lane.
pub proof fn lemma_min_max_one_nan_f64(a: u64, b: u64)
    requires
        nan64(a) != nan64(b),
    ensures
        !nan64(min_f64(a, b)),
        min_f64(a, b) == max_f64(a, b),
        min_f64(a, b) == (if nan64(a) { b } else { a }),
{
}

/// The exponent field of a single-precision bit pattern.
pub open spec fn exponent32(x: u32) -> int {
    ((x % 0x8000_0000) / 0x80_0000) as int
}

/// The significand of a single-precision bit pattern that is neither a NaN nor an
/// infinity, as an integer: the fraction field, with the implicit leading one unless the
/// exponent field is zero. The magnitude of the value is the significand times two to the
/// power `max(exponent, 1) - 150`.
pub open spec fn significand32(x: u32) -> int {
    if exponent32(x) == 0 {
        (x % 0x80_0000) as int
    } else {
        0x80_0000 + x % 0x80_0000
    }
}

/// How many significand units make one whole number, for a single-precision lane whose
/// exponent field is below 150: two to the power `150 - max(exponent, 1)`.
pub open spec fn unit32(x: u32) -> int {
    let e = exponent32(x);
    pow2((150 - (if e == 0 {
        1
    } else {
        e
    })) as nat) as int
}

/// The exponent field of a double-precision bit pattern.
pub open spec fn exponent64(x: u64) -> int {
    ((x % 0x8000_0000_0000_0000) / 0x10_0000_0000_0000) as int
}

/// The significand of a double-precision bit pattern that is neither a NaN nor an
/// infinity, as an integer: the fraction field, with the implicit leading one unless the
/// exponent field is zero. The magnitude of the value is the significand times two to the
/// power `max(exponent, 1) - 1075`.
pub open spec fn significand64(x: u64) -> int {
    if exponent64(x) == 0 {
        (x % 0x10_0000_0000_0000) as int
    } else {
        0x10_0000_0000_0000 + x % 0x10_0000_0000_0000
    }
}

/// How many significand units make one whole number, for a double-precision lane whose
/// exponent field is below 1075: two to the power `1075 - max(exponent, 1)`.
pub open spec fn unit64(x: u64) -> int {
    let e = exponent64(x);
    pow2((1075 - (if e == 0 {
        1
    } else {
        e
    })) as nat) as int
}

} // verus!
