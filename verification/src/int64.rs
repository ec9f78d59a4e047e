use crate::conversion::{From256i, To256i, Vector256, VectorConvertInto, VectorTransmuteInto};
use crate::lane::{eq_i64, eq_u64, gt_i64, shl_u64, shr_u64};
use crate::register::{bit32, Register256, signed64, unsigned64};
use vstd::prelude::*;

verus! {

/// Four signed 64-bit lanes in one 256-bit payload. The view is the lanes, lane 0 first.
#[derive(Clone, Copy, Debug)]
pub struct Int64x4(pub Register256);

impl View for Int64x4 {
    type V = Seq<i64>;

    open spec fn view(&self) -> Seq<i64> {
        self.0.lanes_i64()
    }
}

impl To256i for Int64x4 {
    open spec fn payload(self) -> Register256 {
        self.0
    }

    fn to_256i(self) -> (r: Register256) {
        self.0
    }
}

impl From256i for Int64x4 {
    open spec fn with_payload(x: Register256) -> Self {
        Int64x4(x)
    }

    fn from_256i(x: Register256) -> (r: Self) {
        Int64x4(x)
    }
}

impl Vector256 for Int64x4 {
    proof fn lemma_payload_kept(x: Register256) {
    }

    proof fn lemma_value_kept(self) {
    }
}

/// The signed lanes read as their two's-complement counterparts: the payload is untouched.
impl VectorConvertInto<Uint64x4> for Int64x4 {
    open spec fn converted(self) -> Uint64x4 {
        Uint64x4(self.0)
    }

    fn convert_vector(self) -> (r: Uint64x4) {
        Uint64x4(self.0)
    }
}

impl From<Uint64x4> for Int64x4 {
    fn from(x: Uint64x4) -> (r: Self) {
        Int64x4(x.0)
    }
}

impl vstd::std_specs::convert::FromSpecImpl<Uint64x4> for Int64x4 {
    open spec fn obeys_from_spec() -> bool {
        true
    }

    open spec fn from_spec(x: Uint64x4) -> Self {
        Int64x4(x.0)
    }
}

impl Int64x4 {
    /// Every lane zero.
    pub fn zero() -> (r: Self)
        ensures
            forall|i: int| 0 <= i < 4 ==> r@[i] == 0,
            forall|i: int| 0 <= i < 32 ==> r.0.bytes[i] == 0,
    {
        Self(Register256::zero())
    }

    /// The vector whose lanes are the elements of `array`, in order.
    pub fn from_array(array: [i64; 4]) -> (r: Self)
        ensures
            r@ == array@,
    {
        Self(Register256::from_i64(array))
    }

    /// The lanes, in order.
    pub fn to_array(self) -> (r: [i64; 4])
        ensures
            r@ == self@,
    {
        self.0.to_i64()
    }

    /// Every lane equal to `v`.
    pub fn splat(v: i64) -> (r: Self)
        ensures
            forall|i: int| 0 <= i < 4 ==> r@[i] == v,
    {
        let mut out = [0i64; 4];
        let mut i: usize = 0;
        while i < 4
            invariant
                i <= 4,
                forall|j: int| 0 <= j < i ==> out[j] == v,
            decreases 4 - i,
        {
            out[i] = v;
            i += 1;
        }
        Self::from_array(out)
    }

    /// The top bit of each of the 32 bytes: bit `i` of the result is the top bit of byte `i`,
    /// whatever the lane width.
    pub fn mask(self) -> (r: u32)
        ensures
            forall|i: int| 0 <= i < 32 ==> bit32(r, i) == (self.0.bytes[i] >= 0x80),
    {
        self.0.sign_mask(1)
    }

    /// The vector with lane `I` replaced by `value`.
    pub fn insert<const I: u8>(self, value: i64) -> (r: Self)
        requires
            I < 4,
        ensures
            r@ == self@.update(I as int, value),
    {
        let mut a = self.to_array();
        a[I as usize] = value;
        let r = Self::from_array(a);
        assert(r@ =~= self@.update(I as int, value));
        r
    }

    /// Bitwise `(!self) & rhs`.
    pub fn andnot(self, rhs: Self) -> (r: Self)
        ensures
            forall|i: int| 0 <= i < 32 ==> r.0.bytes[i] == (!self.0.bytes[i] & rhs.0.bytes[i]),
    {
        Self(self.0.andnot(rhs.0))
    }

    /// Bitwise AND.
    pub fn bitand(self, rhs: Self) -> (r: Self)
        ensures
            forall|i: int| 0 <= i < 32 ==> r.0.bytes[i] == (self.0.bytes[i] & rhs.0.bytes[i]),
    {
        Self(self.0.bitand(rhs.0))
    }

    /// Bitwise AND, in place.
    pub fn bitand_assign(&mut self, rhs: Self)
        ensures
            forall|i: int|
                0 <= i < 32 ==> final(self).0.bytes[i] == (old(self).0.bytes[i] & rhs.0.bytes[i]),
    {
        *self = self.bitand(rhs);
    }

    /// Bitwise OR.
    pub fn bitor(self, rhs: Self) -> (r: Self)
        ensures
            forall|i: int| 0 <= i < 32 ==> r.0.bytes[i] == (self.0.bytes[i] | rhs.0.bytes[i]),
    {
        Self(self.0.bitor(rhs.0))
    }

    /// Bitwise OR, in place.
    pub fn bitor_assign(&mut self, rhs: Self)
        ensures
            forall|i: int|
                0 <= i < 32 ==> final(self).0.bytes[i] == (old(self).0.bytes[i] | rhs.0.bytes[i]),
    {
        *self = self.bitor(rhs);
    }

    /// Bitwise XOR.
    pub fn bitxor(self, rhs: Self) -> (r: Self)
        ensures
            forall|i: int| 0 <= i < 32 ==> r.0.bytes[i] == (self.0.bytes[i] ^ rhs.0.bytes[i]),
    {
        Self(self.0.bitxor(rhs.0))
    }

    /// Bitwise XOR, in place.
    pub fn bitxor_assign(&mut self, rhs: Self)
        ensures
            forall|i: int|
                0 <= i < 32 ==> final(self).0.bytes[i] == (old(self).0.bytes[i] ^ rhs.0.bytes[i]),
    {
        *self = self.bitxor(rhs);
    }

    /// Lane-wise equality: a lane of the result has every bit set where the two lanes are equal,
    /// and is zero elsewhere.
    pub fn eq(self, rhs: Self) -> (r: Self)
        ensures
            forall|i: int| 0 <= i < 4 ==> r@[i] == eq_i64(self@[i], rhs@[i]),
    {
        let a = self.to_array();
        let b = rhs.to_array();
        let mut out = [0i64; 4];
        let mut i: usize = 0;
        while i < 4
            invariant
                i <= 4,
                a@ == self@,
                b@ == rhs@,
                forall|j: int| 0 <= j < i ==> out[j] == eq_i64(a[j], b[j]),
            decreases 4 - i,
        {
            out[i] = if a[i] == b[i] { -1 } else { 0 };
            i += 1;
        }
        Self::from_array(out)
    }

    /// Lane-wise signed `self > rhs`: a lane of the result has every bit set where it holds, and is
    /// zero elsewhere.
    pub fn gt(self, rhs: Self) -> (r: Self)
        ensures
            forall|i: int| 0 <= i < 4 ==> r@[i] == gt_i64(self@[i], rhs@[i]),
    {
        let a = self.to_array();
        let b = rhs.to_array();
        let mut out = [0i64; 4];
        let mut i: usize = 0;
        while i < 4
            invariant
                i <= 4,
                a@ == self@,
                b@ == rhs@,
                forall|j: int| 0 <= j < i ==> out[j] == gt_i64(a[j], b[j]),
            decreases 4 - i,
        {
            out[i] = if a[i] > b[i] { -1 } else { 0 };
            i += 1;
        }
        Self::from_array(out)
    }

    /// Lane-wise sum, wrapping modulo 2^64.
    pub fn add(self, rhs: Self) -> (r: Self)
        ensures
            forall|i: int| 0 <= i < 4 ==> r@[i] == self@[i].wrapping_add(rhs@[i]),
    {
        let a = self.to_array();
        let b = rhs.to_array();
        let mut out = [0i64; 4];
        let mut i: usize = 0;
        while i < 4
            invariant
                i <= 4,
                a@ == self@,
                b@ == rhs@,
                forall|j: int| 0 <= j < i ==> out[j] == a[j].wrapping_add(b[j]),
            decreases 4 - i,
        {
            out[i] = a[i].wrapping_add(b[i]);
            i += 1;
        }
        Self::from_array(out)
    }

    /// Lane-wise wrapping sum, in place.
    pub fn add_assign(&mut self, rhs: Self)
        ensures
            forall|i: int| 0 <= i < 4 ==> final(self)@[i] == old(self)@[i].wrapping_add(rhs@[i]),
    {
        *self = self.add(rhs);
    }

    /// Lane-wise difference, wrapping modulo 2^64.
    pub fn sub(self, rhs: Self) -> (r: Self)
        ensures
            forall|i: int| 0 <= i < 4 ==> r@[i] == self@[i].wrapping_sub(rhs@[i]),
    {
        let a = self.to_array();
        let b = rhs.to_array();
        let mut out = [0i64; 4];
        let mut i: usize = 0;
        while i < 4
            invariant
                i <= 4,
                a@ == self@,
                b@ == rhs@,
                forall|j: int| 0 <= j < i ==> out[j] == a[j].wrapping_sub(b[j]),
            decreases 4 - i,
        {
            out[i] = a[i].wrapping_sub(b[i]);
            i += 1;
        }
        Self::from_array(out)
    }

    /// Lane-wise wrapping difference, in place.
    pub fn sub_assign(&mut self, rhs: Self)
        ensures
            forall|i: int| 0 <= i < 4 ==> final(self)@[i] == old(self)@[i].wrapping_sub(rhs@[i]),
    {
        *self = self.sub(rhs);
    }

    /// Shifts the bit pattern of every lane left by `N` bits, filling with zeros.
    pub fn shl<const N: u8>(self) -> (r: Self)
        ensures
            forall|i: int| 0 <= i < 4 ==> r.0.lanes_u64()[i] == shl_u64(self.0.lanes_u64()[i], N),
    {
        let a = self.0.to_u64();
        let mut out = [0u64; 4];
        let mut i: usize = 0;
        while i < 4
            invariant
                i <= 4,
                a@ == self.0.lanes_u64(),
                forall|j: int| 0 <= j < i ==> out[j] == shl_u64(a[j], N),
            decreases 4 - i,
        {
            out[i] = if N < 64 { a[i] << N } else { 0 };
            i += 1;
        }
        Self(Register256::from_u64(out))
    }

    /// Shifts the bit pattern of every lane right by `N` bits, filling with zeros.
    pub fn shr_l<const N: u8>(self) -> (r: Self)
        ensures
            forall|i: int| 0 <= i < 4 ==> r.0.lanes_u64()[i] == shr_u64(self.0.lanes_u64()[i], N),
    {
        let a = self.0.to_u64();
        let mut out = [0u64; 4];
        let mut i: usize = 0;
        while i < 4
            invariant
                i <= 4,
                a@ == self.0.lanes_u64(),
                forall|j: int| 0 <= j < i ==> out[j] == shr_u64(a[j], N),
            decreases 4 - i,
        {
            out[i] = if N < 64 { a[i] >> N } else { 0 };
            i += 1;
        }
        Self(Register256::from_u64(out))
    }

    /// An array made into a vector and read back is the same array: whatever array is read
    /// from a vector that holds the lanes of `array` equals `array`.
    pub proof fn lemma_array_round_trip(self, array: [i64; 4], back: [i64; 4])
        requires
            self@ == array@,
            back@ == self@,
        ensures
            back == array,
    {
        assert(back@ =~= array@);
    }

    /// The lanes decide the vector: two vectors with the same lanes have the same payload,
    /// so a vector read into an array and made from it again is the same vector.
    pub proof fn lemma_lanes_decide(self, other: Self)
        requires
            self@ == other@,
        ensures
            self == other,
    {
        assert forall|i: int| 0 <= i < 4
            implies self.0.lanes_u64()[i] == other.0.lanes_u64()[i] by {
            assert(self.0.lanes_i64()[i] == signed64(self.0.lanes_u64()[i]));
            assert(other.0.lanes_i64()[i] == signed64(other.0.lanes_u64()[i]));
            assert(self@[i] == other@[i]);
        }
        assert(self.0.lanes_u64() =~= other.0.lanes_u64());
        self.0.lemma_lanes_u64_decide(other.0);
    }

    /// Converts into `T` wherever a value conversion into `T` is defined.
    pub fn convert<T>(self) -> (r: T) where Self: VectorConvertInto<T>
        ensures
            r == VectorConvertInto::<T>::converted(self),
    {
        self.convert_vector()
    }

    /// Reinterprets the payload as a `T`; no bit changes.
    pub fn transmute<T>(self) -> (r: T) where Self: VectorTransmuteInto<T>
        ensures
            r == VectorTransmuteInto::<T>::transmuted(self),
    {
        self.transmute_vector()
    }
}

/// Converting to the other signedness and back gives the same value back, and neither step
/// changes a bit of the payload.
pub proof fn lemma_signedness_round_trip_64(x: Int64x4, y: Uint64x4)
    ensures
        VectorConvertInto::<Uint64x4>::converted(x).payload() == x.payload(),
        VectorConvertInto::<Int64x4>::converted(y).payload() == y.payload(),
        VectorConvertInto::<Int64x4>::converted(VectorConvertInto::<Uint64x4>::converted(x)) == x,
        VectorConvertInto::<Uint64x4>::converted(VectorConvertInto::<Int64x4>::converted(y)) == y,
        forall|i: int|
            0 <= i < 4 ==> VectorConvertInto::<Uint64x4>::converted(x)@[i] == unsigned64(
                x@[i],
            ),
        forall|i: int|
            0 <= i < 4 ==> VectorConvertInto::<Int64x4>::converted(y)@[i] == signed64(y@[i]),
{
}

/// Four unsigned 64-bit lanes in one 256-bit payload. The view is the lanes, lane 0 first.
#[derive(Clone, Copy, Debug)]
pub struct Uint64x4(pub Register256);

impl View for Uint64x4 {
    type V = Seq<u64>;

    open spec fn view(&self) -> Seq<u64> {
        self.0.lanes_u64()
    }
}

impl To256i for Uint64x4 {
    open spec fn payload(self) -> Register256 {
        self.0
    }

    fn to_256i(self) -> (r: Register256) {
        self.0
    }
}

impl From256i for Uint64x4 {
    open spec fn with_payload(x: Register256) -> Self {
        Uint64x4(x)
    }

    fn from_256i(x: Register256) -> (r: Self) {
        Uint64x4(x)
    }
}

impl Vector256 for Uint64x4 {
    proof fn lemma_payload_kept(x: Register256) {
    }

    proof fn lemma_value_kept(self) {
    }
}

/// The unsigned lanes read as their two's-complement counterparts: the payload is untouched.
impl VectorConvertInto<Int64x4> for Uint64x4 {
    open spec fn converted(self) -> Int64x4 {
        Int64x4(self.0)
    }

    fn convert_vector(self) -> (r: Int64x4) {
        Int64x4(self.0)
    }
}

impl From<Int64x4> for Uint64x4 {
    fn from(x: Int64x4) -> (r: Self) {
        Uint64x4(x.0)
    }
}

impl vstd::std_specs::convert::FromSpecImpl<Int64x4> for Uint64x4 {
    open spec fn obeys_from_spec() -> bool {
        true
    }

    open spec fn from_spec(x: Int64x4) -> Self {
        Uint64x4(x.0)
    }
}

impl Uint64x4 {
    /// Every lane zero.
    pub fn zero() -> (r: Self)
        ensures
            forall|i: int| 0 <= i < 4 ==> r@[i] == 0,
            forall|i: int| 0 <= i < 32 ==> r.0.bytes[i] == 0,
    {
        Self(Register256::zero())
    }

    /// The vector whose lanes are the elements of `array`, in order.
    pub fn from_array(array: [u64; 4]) -> (r: Self)
        ensures
            r@ == array@,
    {
        Self(Register256::from_u64(array))
    }

    /// The lanes, in order.
    pub fn to_array(self) -> (r: [u64; 4])
        ensures
            r@ == self@,
    {
        self.0.to_u64()
    }

    /// Every lane equal to `v`.
    pub fn splat(v: u64) -> (r: Self)
        ensures
            forall|i: int| 0 <= i < 4 ==> r@[i] == v,
    {
        let mut out = [0u64; 4];
        let mut i: usize = 0;
        while i < 4
            invariant
                i <= 4,
                forall|j: int| 0 <= j < i ==> out[j] == v,
            decreases 4 - i,
        {
            out[i] = v;
            i += 1;
        }
        Self::from_array(out)
    }

    /// The top bit of each of the 32 bytes: bit `i` of the result is the top bit of byte `i`,
    /// whatever the lane width.
    pub fn mask(self) -> (r: u32)
        ensures
            forall|i: int| 0 <= i < 32 ==> bit32(r, i) == (self.0.bytes[i] >= 0x80),
    {
        self.0.sign_mask(1)
    }

    /// The vector with lane `I` replaced by `value`.
    pub fn insert<const I: u8>(self, value: u64) -> (r: Self)
        requires
            I < 4,
        ensures
            r@ == self@.update(I as int, value),
    {
        let mut a = self.to_array();
        a[I as usize] = value;
        let r = Self::from_array(a);
        assert(r@ =~= self@.update(I as int, value));
        r
    }

    /// Bitwise `(!self) & rhs`.
    pub fn andnot(self, rhs: Self) -> (r: Self)
        ensures
            forall|i: int| 0 <= i < 32 ==> r.0.bytes[i] == (!self.0.bytes[i] & rhs.0.bytes[i]),
    {
        Self(self.0.andnot(rhs.0))
    }

    /// Bitwise AND.
    pub fn bitand(self, rhs: Self) -> (r: Self)
        ensures
            forall|i: int| 0 <= i < 32 ==> r.0.bytes[i] == (self.0.bytes[i] & rhs.0.bytes[i]),
    {
        Self(self.0.bitand(rhs.0))
    }

    /// Bitwise AND, in place.
    pub fn bitand_assign(&mut self, rhs: Self)
        ensures
            forall|i: int|
                0 <= i < 32 ==> final(self).0.bytes[i] == (old(self).0.bytes[i] & rhs.0.bytes[i]),
    {
        *self = self.bitand(rhs);
    }

    /// Bitwise OR.
    pub fn bitor(self, rhs: Self) -> (r: Self)
        ensures
            forall|i: int| 0 <= i < 32 ==> r.0.bytes[i] == (self.0.bytes[i] | rhs.0.bytes[i]),
    {
        Self(self.0.bitor(rhs.0))
    }

    /// Bitwise OR, in place.
    pub fn bitor_assign(&mut self, rhs: Self)
        ensures
            forall|i: int|
                0 <= i < 32 ==> final(self).0.bytes[i] == (old(self).0.bytes[i] | rhs.0.bytes[i]),
    {
        *self = self.bitor(rhs);
    }

    /// Bitwise XOR.
    pub fn bitxor(self, rhs: Self) -> (r: Self)
        ensures
            forall|i: int| 0 <= i < 32 ==> r.0.bytes[i] == (self.0.bytes[i] ^ rhs.0.bytes[i]),
    {
        Self(self.0.bitxor(rhs.0))
    }

    /// Bitwise XOR, in place.
    pub fn bitxor_assign(&mut self, rhs: Self)
        ensures
            forall|i: int|
                0 <= i < 32 ==> final(self).0.bytes[i] == (old(self).0.bytes[i] ^ rhs.0.bytes[i]),
    {
        *self = self.bitxor(rhs);
    }

    /// Lane-wise equality: a lane of the result has every bit set where the two lanes are equal,
    /// and is zero elsewhere.
    pub fn eq(self, rhs: Self) -> (r: Self)
        ensures
            forall|i: int| 0 <= i < 4 ==> r@[i] == eq_u64(self@[i], rhs@[i]),
    {
        let a = self.to_array();
        let b = rhs.to_array();
        let mut out = [0u64; 4];
        let mut i: usize = 0;
        while i < 4
            invariant
                i <= 4,
                a@ == self@,
                b@ == rhs@,
                forall|j: int| 0 <= j < i ==> out[j] == eq_u64(a[j], b[j]),
            decreases 4 - i,
        {
            out[i] = if a[i] == b[i] { 0xFFFF_FFFF_FFFF_FFFF } else { 0 };
            i += 1;
        }
        Self::from_array(out)
    }

    /// Lane-wise sum, wrapping modulo 2^64.
    pub fn add(self, rhs: Self) -> (r: Self)
        ensures
            forall|i: int| 0 <= i < 4 ==> r@[i] == self@[i].wrapping_add(rhs@[i]),
    {
        let a = self.to_array();
        let b = rhs.to_array();
        let mut out = [0u64; 4];
        let mut i: usize = 0;
        while i < 4
            invariant
                i <= 4,
                a@ == self@,
                b@ == rhs@,
                forall|j: int| 0 <= j < i ==> out[j] == a[j].wrapping_add(b[j]),
            decreases 4 - i,
        {
            out[i] = a[i].wrapping_add(b[i]);
            i += 1;
        }
        Self::from_array(out)
    }

    /// Lane-wise wrapping sum, in place.
    pub fn add_assign(&mut self, rhs: Self)
        ensures
            forall|i: int| 0 <= i < 4 ==> final(self)@[i] == old(self)@[i].wrapping_add(rhs@[i]),
    {
        *self = self.add(rhs);
    }

    /// Lane-wise difference, wrapping modulo 2^64.
    pub fn sub(self, rhs: Self) -> (r: Self)
        ensures
            forall|i: int| 0 <= i < 4 ==> r@[i] == self@[i].wrapping_sub(rhs@[i]),
    {
        let a = self.to_array();
        let b = rhs.to_array();
        let mut out = [0u64; 4];
        let mut i: usize = 0;
        while i < 4
            invariant
                i <= 4,
                a@ == self@,
                b@ == rhs@,
                forall|j: int| 0 <= j < i ==> out[j] == a[j].wrapping_sub(b[j]),
            decreases 4 - i,
        {
            out[i] = a[i].wrapping_sub(b[i]);
            i += 1;
        }
        Self::from_array(out)
    }

    /// Lane-wise wrapping difference, in place.
    pub fn sub_assign(&mut self, rhs: Self)
        ensures
            forall|i: int| 0 <= i < 4 ==> final(self)@[i] == old(self)@[i].wrapping_sub(rhs@[i]),
    {
        *self = self.sub(rhs);
    }

    /// Shifts the bit pattern of every lane left by `N` bits, filling with zeros.
    pub fn shl<const N: u8>(self) -> (r: Self)
        ensures
            forall|i: int| 0 <= i < 4 ==> r.0.lanes_u64()[i] == shl_u64(self.0.lanes_u64()[i], N),
    {
        let a = self.0.to_u64();
        let mut out = [0u64; 4];
        let mut i: usize = 0;
        while i < 4
            invariant
                i <= 4,
                a@ == self.0.lanes_u64(),
                forall|j: int| 0 <= j < i ==> out[j] == shl_u64(a[j], N),
            decreases 4 - i,
        {
            out[i] = if N < 64 { a[i] << N } else { 0 };
            i += 1;
        }
        Self(Register256::from_u64(out))
    }

    /// Shifts the bit pattern of every lane right by `N` bits, filling with zeros.
    pub fn shr_l<const N: u8>(self) -> (r: Self)
        ensures
            forall|i: int| 0 <= i < 4 ==> r.0.lanes_u64()[i] == shr_u64(self.0.lanes_u64()[i], N),
    {
        let a = self.0.to_u64();
        let mut out = [0u64; 4];
        let mut i: usize = 0;
        while i < 4
            invariant
                i <= 4,
                a@ == self.0.lanes_u64(),
                forall|j: int| 0 <= j < i ==> out[j] == shr_u64(a[j], N),
            decreases 4 - i,
        {
            out[i] = if N < 64 { a[i] >> N } else { 0 };
            i += 1;
        }
        Self(Register256::from_u64(out))
    }

    /// An array made into a vector and read back is the same array: whatever array is read
    /// from a vector that holds the lanes of `array` equals `array`.
    pub proof fn lemma_array_round_trip(self, array: [u64; 4], back: [u64; 4])
        requires
            self@ == array@,
            back@ == self@,
        ensures
            back == array,
    {
        assert(back@ =~= array@);
    }

    /// The lanes decide the vector: two vectors with the same lanes have the same payload,
    /// so a vector read into an array and made from it again is the same vector.
    pub proof fn lemma_lanes_decide(self, other: Self)
        requires
            self@ == other@,
        ensures
            self == other,
    {
        self.0.lemma_lanes_u64_decide(other.0);
    }

    /// Converts into `T` wherever a value conversion into `T` is defined.
    pub fn convert<T>(self) -> (r: T) where Self: VectorConvertInto<T>
        ensures
            r == VectorConvertInto::<T>::converted(self),
    {
        self.convert_vector()
    }

    /// Reinterprets the payload as a `T`; no bit changes.
    pub fn transmute<T>(self) -> (r: T) where Self: VectorTransmuteInto<T>
        ensures
            r == VectorTransmuteInto::<T>::transmuted(self),
    {
        self.transmute_vector()
    }
}

} // verus!
