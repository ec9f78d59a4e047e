use crate::conversion::{From256i, To256i, Vector256, VectorConvertInto, VectorTransmuteInto};
use crate::ieee::{
    eq_f32, eq_f64, ge_f32, ge_f64, gt_f32, gt_f64, is_nan32, is_nan64, le_f32, le_f64, lt_f32,
    lt_f64, max_f32, max_f64, min_f32, min_f64, ne_f32, ne_f64, ordered_eq32, ordered_eq64,
    ordered_lt32, ordered_lt64,
};
use crate::register::{bit32, bit8, join32, join64, test_bit8, Register256};
use vstd::prelude::*;

verus! {

/// Eight single-precision floating-point lanes in one 256-bit payload. The view is the
/// lanes' IEEE 754 bit patterns, lane 0 first.
#[derive(Clone, Copy, Debug)]
pub struct Float32x8(pub Register256);

impl View for Float32x8 {
    type V = Seq<u32>;

    open spec fn view(&self) -> Seq<u32> {
        self.0.lanes_u32()
    }
}

impl To256i for Float32x8 {
    open spec fn payload(self) -> Register256 {
        self.0
    }

    fn to_256i(self) -> (r: Register256) {
        self.0
    }
}

impl From256i for Float32x8 {
    open spec fn with_payload(x: Register256) -> Self {
        Float32x8(x)
    }

    fn from_256i(x: Register256) -> (r: Self) {
        Float32x8(x)
    }
}

impl Vector256 for Float32x8 {
    proof fn lemma_payload_kept(x: Register256) {
    }

    proof fn lemma_value_kept(self) {
    }
}

impl Float32x8 {
    /// Every lane positive zero: every bit clear.
    pub fn zero() -> (r: Self)
        ensures
            forall|i: int| 0 <= i < 8 ==> r@[i] == 0,
            forall|i: int| 0 <= i < 32 ==> r.0.bytes[i] == 0,
    {
        Self(Register256::zero())
    }

    /// The vector whose lanes have the bit patterns in `bits`, in order.
    pub fn from_bits(bits: [u32; 8]) -> (r: Self)
        ensures
            r@ == bits@,
    {
        Self(Register256::from_u32(bits))
    }

    /// The lanes' bit patterns, in order.
    pub fn to_bits(self) -> (r: [u32; 8])
        ensures
            r@ == self@,
    {
        self.0.to_u32()
    }

    /// Every lane with the bit pattern `v`.
    pub fn splat_bits(v: u32) -> (r: Self)
        ensures
            forall|i: int| 0 <= i < 8 ==> r@[i] == v,
    {
        let mut out = [0u32; 8];
        let mut i: usize = 0;
        while i < 8
            invariant
                i <= 8,
                forall|j: int| 0 <= j < i ==> out[j] == v,
            decreases 8 - i,
        {
            out[i] = v;
            i += 1;
        }
        Self::from_bits(out)
    }

    /// The sign bit of each lane: bit `i` of the result is the sign bit of lane `i`, and the
    /// bits from 8 up are clear.
    pub fn mask(self) -> (r: u32)
        ensures
            forall|i: int| 0 <= i < 32 ==> bit32(r, i) == (i < 8 && self@[i] >= 0x8000_0000),
    {
        let r = self.0.sign_mask(4);
        assert forall|i: int| 0 <= i < 32
            implies bit32(r, i) == (i < 8 && self@[i] >= 0x8000_0000) by {
            if i < 8 {
                assert(self@[i]
                    == join32(self.0.bytes[4 * i], self.0.bytes[4 * i + 1],
                        self.0.bytes[4 * i + 2], self.0.bytes[4 * i + 3]));
            }
        }
        r
    }

    /// Bitwise `(!self) & rhs`.
    pub fn andnot(self, rhs: Self) -> (r: Self)
        ensures
            forall|i: int| 0 <= i < 32 ==> r.0.bytes[i] == (!self.0.bytes[i] & rhs.0.bytes[i]),
    {
        Self(self.0.andnot(rhs.0))
    }

    /// Bitwise AND.
    pub fn bitand(self, rhs: Self) -> (r: Self)
        ensures
            forall|i: int| 0 <= i < 32 ==> r.0.bytes[i] == (self.0.bytes[i] & rhs.0.bytes[i]),
    {
        Self(self.0.bitand(rhs.0))
    }

    /// Bitwise AND, in place.
    pub fn bitand_assign(&mut self, rhs: Self)
        ensures
            forall|i: int|
                0 <= i < 32 ==> final(self).0.bytes[i] == (old(self).0.bytes[i] & rhs.0.bytes[i]),
    {
        *self = self.bitand(rhs);
    }

    /// Bitwise OR.
    pub fn bitor(self, rhs: Self) -> (r: Self)
        ensures
            forall|i: int| 0 <= i < 32 ==> r.0.bytes[i] == (self.0.bytes[i] | rhs.0.bytes[i]),
    {
        Self(self.0.bitor(rhs.0))
    }

    /// Bitwise OR, in place.
    pub fn bitor_assign(&mut self, rhs: Self)
        ensures
            forall|i: int|
                0 <= i < 32 ==> final(self).0.bytes[i] == (old(self).0.bytes[i] | rhs.0.bytes[i]),
    {
        *self = self.bitor(rhs);
    }

    /// Bitwise XOR.
    pub fn bitxor(self, rhs: Self) -> (r: Self)
        ensures
            forall|i: int| 0 <= i < 32 ==> r.0.bytes[i] == (self.0.bytes[i] ^ rhs.0.bytes[i]),
    {
        Self(self.0.bitxor(rhs.0))
    }

    /// Bitwise XOR, in place.
    pub fn bitxor_assign(&mut self, rhs: Self)
        ensures
            forall|i: int|
                0 <= i < 32 ==> final(self).0.bytes[i] == (old(self).0.bytes[i] ^ rhs.0.bytes[i]),
    {
        *self = self.bitxor(rhs);
    }

    /// Picks each lane from `rhs` where bit `i` of the selector is set, from `self` where it
    /// is clear.
    pub fn blend<const I: u8>(self, rhs: Self) -> (r: Self)
        ensures
            forall|i: int| 0 <= i < 8 ==> r@[i] == (if bit8(I, i) { rhs@[i] } else { self@[i] }),
    {
        let a = self.to_bits();
        let b = rhs.to_bits();
        let mut out = [0u32; 8];
        let mut i: usize = 0;
        while i < 8
            invariant
                i <= 8,
                a@ == self@,
                b@ == rhs@,
                forall|j: int| 0 <= j < i ==> out[j] == (if bit8(I, j) { b[j] } else { a[j] }),
            decreases 8 - i,
        {
            out[i] = if test_bit8(I, i as u8) { b[i] } else { a[i] };
            i += 1;
        }
        Self::from_bits(out)
    }

    /// Lane-wise ordered equality: every bit of a lane is set where neither operand lane is a NaN
    /// and the two are equal, and clear elsewhere.
    pub fn eq(self, rhs: Self) -> (r: Self)
        ensures
            forall|i: int| 0 <= i < 8 ==> r@[i] == eq_f32(self@[i], rhs@[i]),
    {
        let a = self.to_bits();
        let b = rhs.to_bits();
        let mut out = [0u32; 8];
        let mut i: usize = 0;
        while i < 8
            invariant
                i <= 8,
                a@ == self@,
                b@ == rhs@,
                forall|j: int| 0 <= j < i ==> out[j] == eq_f32(a[j], b[j]),
            decreases 8 - i,
        {
            out[i] = if ordered_eq32(a[i], b[i]) { 0xFFFF_FFFF } else { 0 };
            i += 1;
        }
        Self::from_bits(out)
    }

    /// Lane-wise inequality: every bit of a lane is set where the operand lanes differ or either is
    /// a NaN, and clear elsewhere.
    pub fn ne(self, rhs: Self) -> (r: Self)
        ensures
            forall|i: int| 0 <= i < 8 ==> r@[i] == ne_f32(self@[i], rhs@[i]),
    {
        let a = self.to_bits();
        let b = rhs.to_bits();
        let mut out = [0u32; 8];
        let mut i: usize = 0;
        while i < 8
            invariant
                i <= 8,
                a@ == self@,
                b@ == rhs@,
                forall|j: int| 0 <= j < i ==> out[j] == ne_f32(a[j], b[j]),
            decreases 8 - i,
        {
            out[i] = if !ordered_eq32(a[i], b[i]) { 0xFFFF_FFFF } else { 0 };
            i += 1;
        }
        Self::from_bits(out)
    }

    /// Lane-wise ordered `self > rhs`; a NaN on either side clears the lane.
    pub fn gt(self, rhs: Self) -> (r: Self)
        ensures
            forall|i: int| 0 <= i < 8 ==> r@[i] == gt_f32(self@[i], rhs@[i]),
    {
        let a = self.to_bits();
        let b = rhs.to_bits();
        let mut out = [0u32; 8];
        let mut i: usize = 0;
        while i < 8
            invariant
                i <= 8,
                a@ == self@,
                b@ == rhs@,
                forall|j: int| 0 <= j < i ==> out[j] == gt_f32(a[j], b[j]),
            decreases 8 - i,
        {
            out[i] = if ordered_lt32(b[i], a[i]) { 0xFFFF_FFFF } else { 0 };
            i += 1;
        }
        Self::from_bits(out)
    }

    /// Lane-wise ordered `self < rhs`; a NaN on either side clears the lane.
    pub fn lt(self, rhs: Self) -> (r: Self)
        ensures
            forall|i: int| 0 <= i < 8 ==> r@[i] == lt_f32(self@[i], rhs@[i]),
    {
        let a = self.to_bits();
        let b = rhs.to_bits();
        let mut out = [0u32; 8];
        let mut i: usize = 0;
        while i < 8
            invariant
                i <= 8,
                a@ == self@,
                b@ == rhs@,
                forall|j: int| 0 <= j < i ==> out[j] == lt_f32(a[j], b[j]),
            decreases 8 - i,
        {
            out[i] = if ordered_lt32(a[i], b[i]) { 0xFFFF_FFFF } else { 0 };
            i += 1;
        }
        Self::from_bits(out)
    }

    /// Lane-wise ordered `self >= rhs`; a NaN on either side clears the lane.
    pub fn ge(self, rhs: Self) -> (r: Self)
        ensures
            forall|i: int| 0 <= i < 8 ==> r@[i] == ge_f32(self@[i], rhs@[i]),
    {
        let a = self.to_bits();
        let b = rhs.to_bits();
        let mut out = [0u32; 8];
        let mut i: usize = 0;
        while i < 8
            invariant
                i <= 8,
                a@ == self@,
                b@ == rhs@,
                forall|j: int| 0 <= j < i ==> out[j] == ge_f32(a[j], b[j]),
            decreases 8 - i,
        {
            out[i] = if ordered_lt32(b[i], a[i]) || ordered_eq32(a[i], b[i]) {
                0xFFFF_FFFF
            } else {
                0
            };
            i += 1;
        }
        Self::from_bits(out)
    }

    /// Lane-wise ordered `self <= rhs`; a NaN on either side clears the lane.
    pub fn le(self, rhs: Self) -> (r: Self)
        ensures
            forall|i: int| 0 <= i < 8 ==> r@[i] == le_f32(self@[i], rhs@[i]),
    {
        let a = self.to_bits();
        let b = rhs.to_bits();
        let mut out = [0u32; 8];
        let mut i: usize = 0;
        while i < 8
            invariant
                i <= 8,
                a@ == self@,
                b@ == rhs@,
                forall|j: int| 0 <= j < i ==> out[j] == le_f32(a[j], b[j]),
            decreases 8 - i,
        {
            out[i] = if ordered_lt32(a[i], b[i]) || ordered_eq32(a[i], b[i]) {
                0xFFFF_FFFF
            } else {
                0
            };
            i += 1;
        }
        Self::from_bits(out)
    }

    /// Lane-wise minimum. A lane with exactly one NaN operand takes the other operand; a lane whose
    /// operands are equal, both zero or both NaN takes `rhs`.
    pub fn min(self, rhs: Self) -> (r: Self)
        ensures
            forall|i: int| 0 <= i < 8 ==> r@[i] == min_f32(self@[i], rhs@[i]),
    {
        let a = self.to_bits();
        let b = rhs.to_bits();
        let mut out = [0u32; 8];
        let mut i: usize = 0;
        while i < 8
            invariant
                i <= 8,
                a@ == self@,
                b@ == rhs@,
                forall|j: int| 0 <= j < i ==> out[j] == min_f32(a[j], b[j]),
            decreases 8 - i,
        {
            out[i] = if is_nan32(b[i]) && !is_nan32(a[i]) {
                a[i]
            } else if ordered_lt32(a[i], b[i]) {
                a[i]
            } else {
                b[i]
            };
            i += 1;
        }
        Self::from_bits(out)
    }

    /// Lane-wise maximum. A lane with exactly one NaN operand takes the other operand; a lane whose
    /// operands are equal, both zero or both NaN takes `rhs`.
    pub fn max(self, rhs: Self) -> (r: Self)
        ensures
            forall|i: int| 0 <= i < 8 ==> r@[i] == max_f32(self@[i], rhs@[i]),
    {
        let a = self.to_bits();
        let b = rhs.to_bits();
        let mut out = [0u32; 8];
        let mut i: usize = 0;
        while i < 8
            invariant
                i <= 8,
                a@ == self@,
                b@ == rhs@,
                forall|j: int| 0 <= j < i ==> out[j] == max_f32(a[j], b[j]),
            decreases 8 - i,
        {
            out[i] = if is_nan32(b[i]) && !is_nan32(a[i]) {
                a[i]
            } else if ordered_lt32(b[i], a[i]) {
                a[i]
            } else {
                b[i]
            };
            i += 1;
        }
        Self::from_bits(out)
    }

    /// An array made into a vector and read back is the same array: whatever array is read
    /// from a vector that holds the lanes of `array` equals `array`.
    pub proof fn lemma_array_round_trip(self, array: [u32; 8], back: [u32; 8])
        requires
            self@ == array@,
            back@ == self@,
        ensures
            back == array,
    {
        assert(back@ =~= array@);
    }

    /// The lanes decide the vector: two vectors with the same lanes have the same payload,
    /// so a vector read into an array and made from it again is the same vector.
    pub proof fn lemma_lanes_decide(self, other: Self)
        requires
            self@ == other@,
        ensures
            self == other,
    {
        self.0.lemma_lanes_u32_decide(other.0);
    }

    /// Converts into `T` wherever a value conversion into `T` is defined.
    pub fn convert<T>(self) -> (r: T) where Self: VectorConvertInto<T>
        ensures
            r == VectorConvertInto::<T>::converted(self),
    {
        self.convert_vector()
    }

    /// Reinterprets the payload as a `T`; no bit changes.
    pub fn transmute<T>(self) -> (r: T) where Self: VectorTransmuteInto<T>
        ensures
            r == VectorTransmuteInto::<T>::transmuted(self),
    {
        self.transmute_vector()
    }
}

/// Four double-precision floating-point lanes in one 256-bit payload. The view is the
/// lanes' IEEE 754 bit patterns, lane 0 first.
#[derive(Clone, Copy, Debug)]
pub struct Float64x4(pub Register256);

impl View for Float64x4 {
    type V = Seq<u64>;

    open spec fn view(&self) -> Seq<u64> {
        self.0.lanes_u64()
    }
}

impl To256i for Float64x4 {
    open spec fn payload(self) -> Register256 {
        self.0
    }

    fn to_256i(self) -> (r: Register256) {
        self.0
    }
}

impl From256i for Float64x4 {
    open spec fn with_payload(x: Register256) -> Self {
        Float64x4(x)
    }

    fn from_256i(x: Register256) -> (r: Self) {
        Float64x4(x)
    }
}

impl Vector256 for Float64x4 {
    proof fn lemma_payload_kept(x: Register256) {
    }

    proof fn lemma_value_kept(self) {
    }
}

impl Float64x4 {
    /// Every lane positive zero: every bit clear.
    pub fn zero() -> (r: Self)
        ensures
            forall|i: int| 0 <= i < 4 ==> r@[i] == 0,
            forall|i: int| 0 <= i < 32 ==> r.0.bytes[i] == 0,
    {
        Self(Register256::zero())
    }

    /// The vector whose lanes have the bit patterns in `bits`, in order.
    pub fn from_bits(bits: [u64; 4]) -> (r: Self)
        ensures
            r@ == bits@,
    {
        Self(Register256::from_u64(bits))
    }

    /// The lanes' bit patterns, in order.
    pub fn to_bits(self) -> (r: [u64; 4])
        ensures
            r@ == self@,
    {
        self.0.to_u64()
    }

    /// Every lane with the bit pattern `v`.
    pub fn splat_bits(v: u64) -> (r: Self)
        ensures
            forall|i: int| 0 <= i < 4 ==> r@[i] == v,
    {
        let mut out = [0u64; 4];
        let mut i: usize = 0;
        while i < 4
            invariant
                i <= 4,
                forall|j: int| 0 <= j < i ==> out[j] == v,
            decreases 4 - i,
        {
            out[i] = v;
            i += 1;
        }
        Self::from_bits(out)
    }

    /// The sign bit of each lane: bit `i` of the result is the sign bit of lane `i`, and the
    /// bits from 4 up are clear.
    pub fn mask(self) -> (r: u32)
        ensures
            forall|i: int|
                0 <= i < 32 ==> bit32(r, i) == (i < 4 && self@[i] >= 0x8000_0000_0000_0000),
    {
        let r = self.0.sign_mask(8);
        assert forall|i: int| 0 <= i < 32
            implies bit32(r, i) == (i < 4 && self@[i] >= 0x8000_0000_0000_0000) by {
            if i < 4 {
                assert(self@[i]
                    == join64(self.0.bytes[8 * i], self.0.bytes[8 * i + 1],
                        self.0.bytes[8 * i + 2], self.0.bytes[8 * i + 3], self.0.bytes[8 * i + 4],
                        self.0.bytes[8 * i + 5], self.0.bytes[8 * i + 6],
                        self.0.bytes[8 * i + 7]));
            }
        }
        r
    }

    /// Bitwise `(!self) & rhs`.
    pub fn andnot(self, rhs: Self) -> (r: Self)
        ensures
            forall|i: int| 0 <= i < 32 ==> r.0.bytes[i] == (!self.0.bytes[i] & rhs.0.bytes[i]),
    {
        Self(self.0.andnot(rhs.0))
    }

    /// Bitwise AND.
    pub fn bitand(self, rhs: Self) -> (r: Self)
        ensures
            forall|i: int| 0 <= i < 32 ==> r.0.bytes[i] == (self.0.bytes[i] & rhs.0.bytes[i]),
    {
        Self(self.0.bitand(rhs.0))
    }

    /// Bitwise AND, in place.
    pub fn bitand_assign(&mut self, rhs: Self)
        ensures
            forall|i: int|
                0 <= i < 32 ==> final(self).0.bytes[i] == (old(self).0.bytes[i] & rhs.0.bytes[i]),
    {
        *self = self.bitand(rhs);
    }

    /// Bitwise OR.
    pub fn bitor(self, rhs: Self) -> (r: Self)
        ensures
            forall|i: int| 0 <= i < 32 ==> r.0.bytes[i] == (self.0.bytes[i] | rhs.0.bytes[i]),
    {
        Self(self.0.bitor(rhs.0))
    }

    /// Bitwise OR, in place.
    pub fn bitor_assign(&mut self, rhs: Self)
        ensures
            forall|i: int|
                0 <= i < 32 ==> final(self).0.bytes[i] == (old(self).0.bytes[i] | rhs.0.bytes[i]),
    {
        *self = self.bitor(rhs);
    }

    /// Bitwise XOR.
    pub fn bitxor(self, rhs: Self) -> (r: Self)
        ensures
            forall|i: int| 0 <= i < 32 ==> r.0.bytes[i] == (self.0.bytes[i] ^ rhs.0.bytes[i]),
    {
        Self(self.0.bitxor(rhs.0))
    }

    /// Bitwise XOR, in place.
    pub fn bitxor_assign(&mut self, rhs: Self)
        ensures
            forall|i: int|
                0 <= i < 32 ==> final(self).0.bytes[i] == (old(self).0.bytes[i] ^ rhs.0.bytes[i]),
    {
        *self = self.bitxor(rhs);
    }

    /// Picks each lane from `rhs` where bit `i` of the selector is set, from `self` where it
    /// is clear.
    pub fn blend<const I: u8>(self, rhs: Self) -> (r: Self)
        requires
            I < 16,
        ensures
            forall|i: int| 0 <= i < 4 ==> r@[i] == (if bit8(I, i) { rhs@[i] } else { self@[i] }),
    {
        let a = self.to_bits();
        let b = rhs.to_bits();
        let mut out = [0u64; 4];
        let mut i: usize = 0;
        while i < 4
            invariant
                i <= 4,
                a@ == self@,
                b@ == rhs@,
                forall|j: int| 0 <= j < i ==> out[j] == (if bit8(I, j) { b[j] } else { a[j] }),
            decreases 4 - i,
        {
            out[i] = if test_bit8(I, i as u8) { b[i] } else { a[i] };
            i += 1;
        }
        Self::from_bits(out)
    }

    /// Lane-wise ordered equality: every bit of a lane is set where neither operand lane is a NaN
    /// and the two are equal, and clear elsewhere.
    pub fn eq(self, rhs: Self) -> (r: Self)
        ensures
            forall|i: int| 0 <= i < 4 ==> r@[i] == eq_f64(self@[i], rhs@[i]),
    {
        let a = self.to_bits();
        let b = rhs.to_bits();
        let mut out = [0u64; 4];
        let mut i: usize = 0;
        while i < 4
            invariant
                i <= 4,
                a@ == self@,
                b@ == rhs@,
                forall|j: int| 0 <= j < i ==> out[j] == eq_f64(a[j], b[j]),
            decreases 4 - i,
        {
            out[i] = if ordered_eq64(a[i], b[i]) { 0xFFFF_FFFF_FFFF_FFFF } else { 0 };
            i += 1;
        }
        Self::from_bits(out)
    }

    /// Lane-wise inequality: every bit of a lane is set where the operand lanes differ or either is
    /// a NaN, and clear elsewhere.
    pub fn ne(self, rhs: Self) -> (r: Self)
        ensures
            forall|i: int| 0 <= i < 4 ==> r@[i] == ne_f64(self@[i], rhs@[i]),
    {
        let a = self.to_bits();
        let b = rhs.to_bits();
        let mut out = [0u64; 4];
        let mut i: usize = 0;
        while i < 4
            invariant
                i <= 4,
                a@ == self@,
                b@ == rhs@,
                forall|j: int| 0 <= j < i ==> out[j] == ne_f64(a[j], b[j]),
            decreases 4 - i,
        {
            out[i] = if !ordered_eq64(a[i], b[i]) { 0xFFFF_FFFF_FFFF_FFFF } else { 0 };
            i += 1;
        }
        Self::from_bits(out)
    }

    /// Lane-wise ordered `self > rhs`; a NaN on either side clears the lane.
    pub fn gt(self, rhs: Self) -> (r: Self)
        ensures
            forall|i: int| 0 <= i < 4 ==> r@[i] == gt_f64(self@[i], rhs@[i]),
    {
        let a = self.to_bits();
        let b = rhs.to_bits();
        let mut out = [0u64; 4];
        let mut i: usize = 0;
        while i < 4
            invariant
                i <= 4,
                a@ == self@,
                b@ == rhs@,
                forall|j: int| 0 <= j < i ==> out[j] == gt_f64(a[j], b[j]),
            decreases 4 - i,
        {
            out[i] = if ordered_lt64(b[i], a[i]) { 0xFFFF_FFFF_FFFF_FFFF } else { 0 };
            i += 1;
        }
        Self::from_bits(out)
    }

    /// Lane-wise ordered `self < rhs`; a NaN on either side clears the lane.
    pub fn lt(self, rhs: Self) -> (r: Self)
        ensures
            forall|i: int| 0 <= i < 4 ==> r@[i] == lt_f64(self@[i], rhs@[i]),
    {
        let a = self.to_bits();
        let b = rhs.to_bits();
        let mut out = [0u64; 4];
        let mut i: usize = 0;
        while i < 4
            invariant
                i <= 4,
                a@ == self@,
                b@ == rhs@,
                forall|j: int| 0 <= j < i ==> out[j] == lt_f64(a[j], b[j]),
            decreases 4 - i,
        {
            out[i] = if ordered_lt64(a[i], b[i]) { 0xFFFF_FFFF_FFFF_FFFF } else { 0 };
            i += 1;
        }
        Self::from_bits(out)
    }

    /// Lane-wise ordered `self >= rhs`; a NaN on either side clears the lane.
    pub fn ge(self, rhs: Self) -> (r: Self)
        ensures
            forall|i: int| 0 <= i < 4 ==> r@[i] == ge_f64(self@[i], rhs@[i]),
    {
        let a = self.to_bits();
        let b = rhs.to_bits();
        let mut out = [0u64; 4];
        let mut i: usize = 0;
        while i < 4
            invariant
                i <= 4,
                a@ == self@,
                b@ == rhs@,
                forall|j: int| 0 <= j < i ==> out[j] == ge_f64(a[j], b[j]),
            decreases 4 - i,
        {
            out[i] = if ordered_lt64(b[i], a[i]) || ordered_eq64(a[i], b[i]) {
                0xFFFF_FFFF_FFFF_FFFF
            } else {
                0
            };
            i += 1;
        }
        Self::from_bits(out)
    }

    /// Lane-wise ordered `self <= rhs`; a NaN on either side clears the lane.
    pub fn le(self, rhs: Self) -> (r: Self)
        ensures
            forall|i: int| 0 <= i < 4 ==> r@[i] == le_f64(self@[i], rhs@[i]),
    {
        let a = self.to_bits();
        let b = rhs.to_bits();
        let mut out = [0u64; 4];
        let mut i: usize = 0;
        while i < 4
            invariant
                i <= 4,
                a@ == self@,
                b@ == rhs@,
                forall|j: int| 0 <= j < i ==> out[j] == le_f64(a[j], b[j]),
            decreases 4 - i,
        {
            out[i] = if ordered_lt64(a[i], b[i]) || ordered_eq64(a[i], b[i]) {
                0xFFFF_FFFF_FFFF_FFFF
            } else {
                0
            };
            i += 1;
        }
        Self::from_bits(out)
    }

    /// Lane-wise minimum. A lane with exactly one NaN operand takes the other operand; a lane whose
    /// operands are equal, both zero or both NaN takes `rhs`.
    pub fn min(self, rhs: Self) -> (r: Self)
        ensures
            forall|i: int| 0 <= i < 4 ==> r@[i] == min_f64(self@[i], rhs@[i]),
    {
        let a = self.to_bits();
        let b = rhs.to_bits();
        let mut out = [0u64; 4];
        let mut i: usize = 0;
        while i < 4
            invariant
                i <= 4,
                a@ == self@,
                b@ == rhs@,
                forall|j: int| 0 <= j < i ==> out[j] == min_f64(a[j], b[j]),
            decreases 4 - i,
        {
            out[i] = if is_nan64(b[i]) && !is_nan64(a[i]) {
                a[i]
            } else if ordered_lt64(a[i], b[i]) {
                a[i]
            } else {
                b[i]
            };
            i += 1;
        }
        Self::from_bits(out)
    }

    /// Lane-wise maximum. A lane with exactly one NaN operand takes the other operand; a lane whose
    /// operands are equal, both zero or both NaN takes `rhs`.
    pub fn max(self, rhs: Self) -> (r: Self)
        ensures
            forall|i: int| 0 <= i < 4 ==> r@[i] == max_f64(self@[i], rhs@[i]),
    {
        let a = self.to_bits();
        let b = rhs.to_bits();
        let mut out = [0u64; 4];
        let mut i: usize = 0;
        while i < 4
            invariant
                i <= 4,
                a@ == self@,
                b@ == rhs@,
                forall|j: int| 0 <= j < i ==> out[j] == max_f64(a[j], b[j]),
            decreases 4 - i,
        {
            out[i] = if is_nan64(b[i]) && !is_nan64(a[i]) {
                a[i]
            } else if ordered_lt64(b[i], a[i]) {
                a[i]
            } else {
                b[i]
            };
            i += 1;
        }
        Self::from_bits(out)
    }

    /// An array made into a vector and read back is the same array: whatever array is read
    /// from a vector that holds the lanes of `array` equals `array`.
    pub proof fn lemma_array_round_trip(self, array: [u64; 4], back: [u64; 4])
        requires
            self@ == array@,
            back@ == self@,
        ensures
            back == array,
    {
        assert(back@ =~= array@);
    }

    /// The lanes decide the vector: two vectors with the same lanes have the same payload,
    /// so a vector read into an array and made from it again is the same vector.
    pub proof fn lemma_lanes_decide(self, other: Self)
        requires
            self@ == other@,
        ensures
            self == other,
    {
        self.0.lemma_lanes_u64_decide(other.0);
    }

    /// Converts into `T` wherever a value conversion into `T` is defined.
    pub fn convert<T>(self) -> (r: T) where Self: VectorConvertInto<T>
        ensures
            r == VectorConvertInto::<T>::converted(self),
    {
        self.convert_vector()
    }

    /// Reinterprets the payload as a `T`; no bit changes.
    pub fn transmute<T>(self) -> (r: T) where Self: VectorTransmuteInto<T>
        ensures
            r == VectorTransmuteInto::<T>::transmuted(self),
    {
        self.transmute_vector()
    }
}

} // verus!
