use vstd::multiset::Multiset;
use vstd::prelude::*;

verus! {

/// A comparison's result lane for `i8`: every bit set on a hit, every bit clear otherwise.
pub open spec fn mask_i8(hit: bool) -> i8 {
    if hit {
        -1i8
    } else {
        0
    }
}

/// Lane-wise equality test.
pub open spec fn eq_i8(a: i8, b: i8) -> i8 {
    mask_i8(a == b)
}

/// A lane compared with itself for equality has every bit set.
pub proof fn lemma_eq_reflexive_i8(x: i8)
    ensures
        eq_i8(x, x) == mask_i8(true),
        eq_i8(x, x) == -1,
{
}

/// Lane-wise strict greater-than, signed.
pub open spec fn gt_i8(a: i8, b: i8) -> i8 {
    mask_i8(a > b)
}

/// No lane is greater than itself.
pub proof fn lemma_gt_irreflexive_i8(x: i8)
    ensures
        gt_i8(x, x) == 0,
{
}

/// The smaller of two lanes.
pub open spec fn min_i8(a: i8, b: i8) -> i8 {
    if a <= b {
        a
    } else {
        b
    }
}

/// The larger of two lanes.
pub open spec fn max_i8(a: i8, b: i8) -> i8 {
    if a <= b {
        b
    } else {
        a
    }
}

/// The minimum and the maximum of two lanes are those two lanes, smaller first.
pub proof fn lemma_min_max_i8(a: i8, b: i8)
    ensures
        min_i8(a, b) <= max_i8(a, b),
        (min_i8(a, b) == a && max_i8(a, b) == b) || (min_i8(a, b) == b && max_i8(a, b)
            == a),
        Multiset::<i8>::empty().insert(min_i8(a, b)).insert(max_i8(a, b))
            =~= Multiset::<i8>::empty().insert(a).insert(b),
{
}

/// Absolute value of a signed lane; the most negative value has no positive counterpart and
/// stays as it is.
pub open spec fn abs_i8(a: i8) -> i8 {
    if a >= 0 || a == -0x80 {
        a
    } else {
        (-a) as i8
    }
}

/// A comparison's result lane for `u8`: every bit set on a hit, every bit clear otherwise.
pub open spec fn mask_u8(hit: bool) -> u8 {
    if hit {
        0xFF
    } else {
        0
    }
}

/// Lane-wise equality test.
pub open spec fn eq_u8(a: u8, b: u8) -> u8 {
    mask_u8(a == b)
}

/// A lane compared with itself for equality has every bit set.
pub proof fn lemma_eq_reflexive_u8(x: u8)
    ensures
        eq_u8(x, x) == mask_u8(true),
        eq_u8(x, x) == 0xFF,
{
}

/// The smaller of two lanes.
pub open spec fn min_u8(a: u8, b: u8) -> u8 {
    if a <= b {
        a
    } else {
        b
    }
}

/// The larger of two lanes.
pub open spec fn max_u8(a: u8, b: u8) -> u8 {
    if a <= b {
        b
    } else {
        a
    }
}

/// The minimum and the maximum of two lanes are those two lanes, smaller first.
pub proof fn lemma_min_max_u8(a: u8, b: u8)
    ensures
        min_u8(a, b) <= max_u8(a, b),
        (min_u8(a, b) == a && max_u8(a, b) == b) || (min_u8(a, b) == b && max_u8(a, b)
            == a),
        Multiset::<u8>::empty().insert(min_u8(a, b)).insert(max_u8(a, b))
            =~= Multiset::<u8>::empty().insert(a).insert(b),
{
}

/// A comparison's result lane for `i16`: every bit set on a hit, every bit clear otherwise.
pub open spec fn mask_i16(hit: bool) -> i16 {
    if hit {
        -1i16
    } else {
        0
    }
}

/// Lane-wise equality test.
pub open spec fn eq_i16(a: i16, b: i16) -> i16 {
    mask_i16(a == b)
}

/// A lane compared with itself for equality has every bit set.
pub proof fn lemma_eq_reflexive_i16(x: i16)
    ensures
        eq_i16(x, x) == mask_i16(true),
        eq_i16(x, x) == -1,
{
}

/// Lane-wise strict greater-than, signed.
pub open spec fn gt_i16(a: i16, b: i16) -> i16 {
    mask_i16(a > b)
}

/// No lane is greater than itself.
pub proof fn lemma_gt_irreflexive_i16(x: i16)
    ensures
        gt_i16(x, x) == 0,
{
}

/// The smaller of two lanes.
pub open spec fn min_i16(a: i16, b: i16) -> i16 {
    if a <= b {
        a
    } else {
        b
    }
}

/// The larger of two lanes.
pub open spec fn max_i16(a: i16, b: i16) -> i16 {
    if a <= b {
        b
    } else {
        a
    }
}

/// The minimum and the maximum of two lanes are those two lanes, smaller first.
pub proof fn lemma_min_max_i16(a: i16, b: i16)
    ensures
        min_i16(a, b) <= max_i16(a, b),
        (min_i16(a, b) == a && max_i16(a, b) == b) || (min_i16(a, b) == b && max_i16(a, b)
            == a),
        Multiset::<i16>::empty().insert(min_i16(a, b)).insert(max_i16(a, b))
            =~= Multiset::<i16>::empty().insert(a).insert(b),
{
}

/// Absolute value of a signed lane; the most negative value has no positive counterpart and
/// stays as it is.
pub open spec fn abs_i16(a: i16) -> i16 {
    if a >= 0 || a == -0x8000 {
        a
    } else {
        (-a) as i16
    }
}

/// Arithmetic right shift of a signed 16-bit lane by `n` bits, sign-filled; a shift of 16
/// or more leaves only copies of the sign bit.
pub open spec fn sra_i16(a: i16, n: u8) -> i16 {
    if n < 16 {
        a >> n
    } else {
        a >> 15u8
    }
}

/// A comparison's result lane for `u16`: every bit set on a hit, every bit clear otherwise.
pub open spec fn mask_u16(hit: bool) -> u16 {
    if hit {
        0xFFFF
    } else {
        0
    }
}

/// Lane-wise equality test.
pub open spec fn eq_u16(a: u16, b: u16) -> u16 {
    mask_u16(a == b)
}

/// A lane compared with itself for equality has every bit set.
pub proof fn lemma_eq_reflexive_u16(x: u16)
    ensures
        eq_u16(x, x) == mask_u16(true),
        eq_u16(x, x) == 0xFFFF,
{
}

/// The smaller of two lanes.
pub open spec fn min_u16(a: u16, b: u16) -> u16 {
    if a <= b {
        a
    } else {
        b
    }
}

/// The larger of two lanes.
pub open spec fn max_u16(a: u16, b: u16) -> u16 {
    if a <= b {
        b
    } else {
        a
    }
}

/// The minimum and the maximum of two lanes are those two lanes, smaller first.
pub proof fn lemma_min_max_u16(a: u16, b: u16)
    ensures
        min_u16(a, b) <= max_u16(a, b),
        (min_u16(a, b) == a && max_u16(a, b) == b) || (min_u16(a, b) == b && max_u16(a, b)
            == a),
        Multiset::<u16>::empty().insert(min_u16(a, b)).insert(max_u16(a, b))
            =~= Multiset::<u16>::empty().insert(a).insert(b),
{
}

/// Left shift of a 16-bit pattern by `n` bits, zero-filled; a shift of 16 or more clears it.
pub open spec fn shl_u16(a: u16, n: u8) -> u16 {
    if n < 16 {
        a << n
    } else {
        0
    }
}

/// Logical right shift of a 16-bit pattern by `n` bits, zero-filled; a shift of 16 or more
/// clears it.
pub open spec fn shr_u16(a: u16, n: u8) -> u16 {
    if n < 16 {
        a >> n
    } else {
        0
    }
}

/// A comparison's result lane for `i32`: every bit set on a hit, every bit clear otherwise.
pub open spec fn mask_i32(hit: bool) -> i32 {
    if hit {
        -1i32
    } else {
        0
    }
}

/// Lane-wise equality test.
pub open spec fn eq_i32(a: i32, b: i32) -> i32 {
    mask_i32(a == b)
}

/// A lane compared with itself for equality has every bit set.
pub proof fn lemma_eq_reflexive_i32(x: i32)
    ensures
        eq_i32(x, x) == mask_i32(true),
        eq_i32(x, x) == -1,
{
}

/// Lane-wise strict greater-than, signed.
pub open spec fn gt_i32(a: i32, b: i32) -> i32 {
    mask_i32(a > b)
}

/// No lane is greater than itself.
pub proof fn lemma_gt_irreflexive_i32(x: i32)
    ensures
        gt_i32(x, x) == 0,
{
}

/// The smaller of two lanes.
pub open spec fn min_i32(a: i32, b: i32) -> i32 {
    if a <= b {
        a
    } else {
        b
    }
}

/// The larger of two lanes.
pub open spec fn max_i32(a: i32, b: i32) -> i32 {
    if a <= b {
        b
    } else {
        a
    }
}

/// The minimum and the maximum of two lanes are those two lanes, smaller first.
pub proof fn lemma_min_max_i32(a: i32, b: i32)
    ensures
        min_i32(a, b) <= max_i32(a, b),
        (min_i32(a, b) == a && max_i32(a, b) == b) || (min_i32(a, b) == b && max_i32(a, b)
            == a),
        Multiset::<i32>::empty().insert(min_i32(a, b)).insert(max_i32(a, b))
            =~= Multiset::<i32>::empty().insert(a).insert(b),
{
}

/// Absolute value of a signed lane; the most negative value has no positive counterpart and
/// stays as it is.
pub open spec fn abs_i32(a: i32) -> i32 {
    if a >= 0 || a == -0x8000_0000 {
        a
    } else {
        (-a) as i32
    }
}

/// Arithmetic right shift of a signed 32-bit lane by `n` bits, sign-filled; a shift of 32
/// or more leaves only copies of the sign bit.
pub open spec fn sra_i32(a: i32, n: u8) -> i32 {
    if n < 32 {
        a >> n
    } else {
        a >> 31u8
    }
}

/// A comparison's result lane for `u32`: every bit set on a hit, every bit clear otherwise.
pub open spec fn mask_u32(hit: bool) -> u32 {
    if hit {
        0xFFFF_FFFF
    } else {
        0
    }
}

/// Lane-wise equality test.
pub open spec fn eq_u32(a: u32, b: u32) -> u32 {
    mask_u32(a == b)
}

/// A lane compared with itself for equality has every bit set.
pub proof fn lemma_eq_reflexive_u32(x: u32)
    ensures
        eq_u32(x, x) == mask_u32(true),
        eq_u32(x, x) == 0xFFFF_FFFF,
{
}

/// The smaller of two lanes.
pub open spec fn min_u32(a: u32, b: u32) -> u32 {
    if a <= b {
        a
    } else {
        b
    }
}

/// The larger of two lanes.
pub open spec fn max_u32(a: u32, b: u32) -> u32 {
    if a <= b {
        b
    } else {
        a
    }
}

/// The minimum and the maximum of two lanes are those two lanes, smaller first.
pub proof fn lemma_min_max_u32(a: u32, b: u32)
    ensures
        min_u32(a, b) <= max_u32(a, b),
        (min_u32(a, b) == a && max_u32(a, b) == b) || (min_u32(a, b) == b && max_u32(a, b)
            == a),
        Multiset::<u32>::empty().insert(min_u32(a, b)).insert(max_u32(a, b))
            =~= Multiset::<u32>::empty().insert(a).insert(b),
{
}

/// Left shift of a 32-bit pattern by `n` bits, zero-filled; a shift of 32 or more clears it.
pub open spec fn shl_u32(a: u32, n: u8) -> u32 {
    if n < 32 {
        a << n
    } else {
        0
    }
}

/// Logical right shift of a 32-bit pattern by `n` bits, zero-filled; a shift of 32 or more
/// clears it.
pub open spec fn shr_u32(a: u32, n: u8) -> u32 {
    if n < 32 {
        a >> n
    } else {
        0
    }
}

/// A comparison's result lane for `i64`: every bit set on a hit, every bit clear otherwise.
pub open spec fn mask_i64(hit: bool) -> i64 {
    if hit {
        -1i64
    } else {
        0
    }
}

/// Lane-wise equality test.
pub open spec fn eq_i64(a: i64, b: i64) -> i64 {
    mask_i64(a == b)
}

/// A lane compared with itself for equality has every bit set.
pub proof fn lemma_eq_reflexive_i64(x: i64)
    ensures
        eq_i64(x, x) == mask_i64(true),
        eq_i64(x, x) == -1,
{
}

/// Lane-wise strict greater-than, signed.
pub open spec fn gt_i64(a: i64, b: i64) -> i64 {
    mask_i64(a > b)
}

/// No lane is greater than itself.
pub proof fn lemma_gt_irreflexive_i64(x: i64)
    ensures
        gt_i64(x, x) == 0,
{
}

/// A comparison's result lane for `u64`: every bit set on a hit, every bit clear otherwise.
pub open spec fn mask_u64(hit: bool) -> u64 {
    if hit {
        0xFFFF_FFFF_FFFF_FFFF
    } else {
        0
    }
}

/// Lane-wise equality test.
pub open spec fn eq_u64(a: u64, b: u64) -> u64 {
    mask_u64(a == b)
}

/// A lane compared with itself for equality has every bit set.
pub proof fn lemma_eq_reflexive_u64(x: u64)
    ensures
        eq_u64(x, x) == mask_u64(true),
        eq_u64(x, x) == 0xFFFF_FFFF_FFFF_FFFF,
{
}

/// Left shift of a 64-bit pattern by `n` bits, zero-filled; a shift of 64 or more clears it.
pub open spec fn shl_u64(a: u64, n: u8) -> u64 {
    if n < 64 {
        a << n
    } else {
        0
    }
}

/// Logical right shift of a 64-bit pattern by `n` bits, zero-filled; a shift of 64 or more
/// clears it.
pub open spec fn shr_u64(a: u64, n: u8) -> u64 {
    if n < 64 {
        a >> n
    } else {
        0
    }
}

} // verus!
