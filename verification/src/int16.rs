use crate::conversion::{From256i, To256i, Vector256, VectorConvertInto, VectorTransmuteInto};
use crate::lane::{
    abs_i16, eq_i16, eq_u16, gt_i16, max_i16, max_u16, min_i16, min_u16, shl_u16, shr_u16,
    sra_i16,
};
use crate::register::{bit32, bit8, Register256, signed16, test_bit8, unsigned16};
use vstd::prelude::*;

verus! {

/// Sixteen signed 16-bit lanes in one 256-bit payload. The view is the lanes, lane 0 first.
#[derive(Clone, Copy, Debug)]
pub struct Int16x16(pub Register256);

impl View for Int16x16 {
    type V = Seq<i16>;

    open spec fn view(&self) -> Seq<i16> {
        self.0.lanes_i16()
    }
}

impl To256i for Int16x16 {
    open spec fn payload(self) -> Register256 {
        self.0
    }

    fn to_256i(self) -> (r: Register256) {
        self.0
    }
}

impl From256i for Int16x16 {
    open spec fn with_payload(x: Register256) -> Self {
        Int16x16(x)
    }

    fn from_256i(x: Register256) -> (r: Self) {
        Int16x16(x)
    }
}

impl Vector256 for Int16x16 {
    proof fn lemma_payload_kept(x: Register256) {
    }

    proof fn lemma_value_kept(self) {
    }
}

/// The signed lanes read as their two's-complement counterparts: the payload is untouched.
impl VectorConvertInto<Uint16x16> for Int16x16 {
    open spec fn converted(self) -> Uint16x16 {
        Uint16x16(self.0)
    }

    fn convert_vector(self) -> (r: Uint16x16) {
        Uint16x16(self.0)
    }
}

impl From<Uint16x16> for Int16x16 {
    fn from(x: Uint16x16) -> (r: Self) {
        Int16x16(x.0)
    }
}

impl vstd::std_specs::convert::FromSpecImpl<Uint16x16> for Int16x16 {
    open spec fn obeys_from_spec() -> bool {
        true
    }

    open spec fn from_spec(x: Uint16x16) -> Self {
        Int16x16(x.0)
    }
}

impl Int16x16 {
    /// Every lane zero.
    pub fn zero() -> (r: Self)
        ensures
            forall|i: int| 0 <= i < 16 ==> r@[i] == 0,
            forall|i: int| 0 <= i < 32 ==> r.0.bytes[i] == 0,
    {
        Self(Register256::zero())
    }

    /// The vector whose lanes are the elements of `array`, in order.
    pub fn from_array(array: [i16; 16]) -> (r: Self)
        ensures
            r@ == array@,
    {
        Self(Register256::from_i16(array))
    }

    /// The lanes, in order.
    pub fn to_array(self) -> (r: [i16; 16])
        ensures
            r@ == self@,
    {
        self.0.to_i16()
    }

    /// Every lane equal to `v`.
    pub fn splat(v: i16) -> (r: Self)
        ensures
            forall|i: int| 0 <= i < 16 ==> r@[i] == v,
    {
        let mut out = [0i16; 16];
        let mut i: usize = 0;
        while i < 16
            invariant
                i <= 16,
                forall|j: int| 0 <= j < i ==> out[j] == v,
            decreases 16 - i,
        {
            out[i] = v;
            i += 1;
        }
        Self::from_array(out)
    }

    /// The top bit of each of the 32 bytes: bit `i` of the result is the top bit of byte `i`,
    /// whatever the lane width.
    pub fn mask(self) -> (r: u32)
        ensures
            forall|i: int| 0 <= i < 32 ==> bit32(r, i) == (self.0.bytes[i] >= 0x80),
    {
        self.0.sign_mask(1)
    }

    /// The vector with lane `I` replaced by `value`.
    pub fn insert<const I: u8>(self, value: i16) -> (r: Self)
        requires
            I < 16,
        ensures
            r@ == self@.update(I as int, value),
    {
        let mut a = self.to_array();
        a[I as usize] = value;
        let r = Self::from_array(a);
        assert(r@ =~= self@.update(I as int, value));
        r
    }

    /// Bitwise `(!self) & rhs`.
    pub fn andnot(self, rhs: Self) -> (r: Self)
        ensures
            forall|i: int| 0 <= i < 32 ==> r.0.bytes[i] == (!self.0.bytes[i] & rhs.0.bytes[i]),
    {
        Self(self.0.andnot(rhs.0))
    }

    /// Bitwise AND.
    pub fn bitand(self, rhs: Self) -> (r: Self)
        ensures
            forall|i: int| 0 <= i < 32 ==> r.0.bytes[i] == (self.0.bytes[i] & rhs.0.bytes[i]),
    {
        Self(self.0.bitand(rhs.0))
    }

    /// Bitwise AND, in place.
    pub fn bitand_assign(&mut self, rhs: Self)
        ensures
            forall|i: int|
                0 <= i < 32 ==> final(self).0.bytes[i] == (old(self).0.bytes[i] & rhs.0.bytes[i]),
    {
        *self = self.bitand(rhs);
    }

    /// Bitwise OR.
    pub fn bitor(self, rhs: Self) -> (r: Self)
        ensures
            forall|i: int| 0 <= i < 32 ==> r.0.bytes[i] == (self.0.bytes[i] | rhs.0.bytes[i]),
    {
        Self(self.0.bitor(rhs.0))
    }

    /// Bitwise OR, in place.
    pub fn bitor_assign(&mut self, rhs: Self)
        ensures
            forall|i: int|
                0 <= i < 32 ==> final(self).0.bytes[i] == (old(self).0.bytes[i] | rhs.0.bytes[i]),
    {
        *self = self.bitor(rhs);
    }

    /// Bitwise XOR.
    pub fn bitxor(self, rhs: Self) -> (r: Self)
        ensures
            forall|i: int| 0 <= i < 32 ==> r.0.bytes[i] == (self.0.bytes[i] ^ rhs.0.bytes[i]),
    {
        Self(self.0.bitxor(rhs.0))
    }

    /// Bitwise XOR, in place.
    pub fn bitxor_assign(&mut self, rhs: Self)
        ensures
            forall|i: int|
                0 <= i < 32 ==> final(self).0.bytes[i] == (old(self).0.bytes[i] ^ rhs.0.bytes[i]),
    {
        *self = self.bitxor(rhs);
    }

    /// Lane-wise equality: a lane of the result has every bit set where the two lanes are equal,
    /// and is zero elsewhere.
    pub fn eq(self, rhs: Self) -> (r: Self)
        ensures
            forall|i: int| 0 <= i < 16 ==> r@[i] == eq_i16(self@[i], rhs@[i]),
    {
        let a = self.to_array();
        let b = rhs.to_array();
        let mut out = [0i16; 16];
        let mut i: usize = 0;
        while i < 16
            invariant
                i <= 16,
                a@ == self@,
                b@ == rhs@,
                forall|j: int| 0 <= j < i ==> out[j] == eq_i16(a[j], b[j]),
            decreases 16 - i,
        {
            out[i] = if a[i] == b[i] { -1 } else { 0 };
            i += 1;
        }
        Self::from_array(out)
    }

    /// Lane-wise signed `self > rhs`: a lane of the result has every bit set where it holds, and is
    /// zero elsewhere.
    pub fn gt(self, rhs: Self) -> (r: Self)
        ensures
            forall|i: int| 0 <= i < 16 ==> r@[i] == gt_i16(self@[i], rhs@[i]),
    {
        let a = self.to_array();
        let b = rhs.to_array();
        let mut out = [0i16; 16];
        let mut i: usize = 0;
        while i < 16
            invariant
                i <= 16,
                a@ == self@,
                b@ == rhs@,
                forall|j: int| 0 <= j < i ==> out[j] == gt_i16(a[j], b[j]),
            decreases 16 - i,
        {
            out[i] = if a[i] > b[i] { -1 } else { 0 };
            i += 1;
        }
        Self::from_array(out)
    }

    /// Lane-wise sum, wrapping modulo 2^16.
    pub fn add(self, rhs: Self) -> (r: Self)
        ensures
            forall|i: int| 0 <= i < 16 ==> r@[i] == self@[i].wrapping_add(rhs@[i]),
    {
        let a = self.to_array();
        let b = rhs.to_array();
        let mut out = [0i16; 16];
        let mut i: usize = 0;
        while i < 16
            invariant
                i <= 16,
                a@ == self@,
                b@ == rhs@,
                forall|j: int| 0 <= j < i ==> out[j] == a[j].wrapping_add(b[j]),
            decreases 16 - i,
        {
            out[i] = a[i].wrapping_add(b[i]);
            i += 1;
        }
        Self::from_array(out)
    }

    /// Lane-wise wrapping sum, in place.
    pub fn add_assign(&mut self, rhs: Self)
        ensures
            forall|i: int| 0 <= i < 16 ==> final(self)@[i] == old(self)@[i].wrapping_add(rhs@[i]),
    {
        *self = self.add(rhs);
    }

    /// Lane-wise difference, wrapping modulo 2^16.
    pub fn sub(self, rhs: Self) -> (r: Self)
        ensures
            forall|i: int| 0 <= i < 16 ==> r@[i] == self@[i].wrapping_sub(rhs@[i]),
    {
        let a = self.to_array();
        let b = rhs.to_array();
        let mut out = [0i16; 16];
        let mut i: usize = 0;
        while i < 16
            invariant
                i <= 16,
                a@ == self@,
                b@ == rhs@,
                forall|j: int| 0 <= j < i ==> out[j] == a[j].wrapping_sub(b[j]),
            decreases 16 - i,
        {
            out[i] = a[i].wrapping_sub(b[i]);
            i += 1;
        }
        Self::from_array(out)
    }

    /// Lane-wise wrapping difference, in place.
    pub fn sub_assign(&mut self, rhs: Self)
        ensures
            forall|i: int| 0 <= i < 16 ==> final(self)@[i] == old(self)@[i].wrapping_sub(rhs@[i]),
    {
        *self = self.sub(rhs);
    }

    /// Lane-wise signed minimum.
    pub fn min(self, rhs: Self) -> (r: Self)
        ensures
            forall|i: int| 0 <= i < 16 ==> r@[i] == min_i16(self@[i], rhs@[i]),
    {
        let a = self.to_array();
        let b = rhs.to_array();
        let mut out = [0i16; 16];
        let mut i: usize = 0;
        while i < 16
            invariant
                i <= 16,
                a@ == self@,
                b@ == rhs@,
                forall|j: int| 0 <= j < i ==> out[j] == min_i16(a[j], b[j]),
            decreases 16 - i,
        {
            out[i] = if a[i] <= b[i] { a[i] } else { b[i] };
            i += 1;
        }
        Self::from_array(out)
    }

    /// Lane-wise signed maximum.
    pub fn max(self, rhs: Self) -> (r: Self)
        ensures
            forall|i: int| 0 <= i < 16 ==> r@[i] == max_i16(self@[i], rhs@[i]),
    {
        let a = self.to_array();
        let b = rhs.to_array();
        let mut out = [0i16; 16];
        let mut i: usize = 0;
        while i < 16
            invariant
                i <= 16,
                a@ == self@,
                b@ == rhs@,
                forall|j: int| 0 <= j < i ==> out[j] == max_i16(a[j], b[j]),
            decreases 16 - i,
        {
            out[i] = if a[i] <= b[i] { b[i] } else { a[i] };
            i += 1;
        }
        Self::from_array(out)
    }

    /// Lane-wise absolute value; a lane holding the most negative value keeps it.
    pub fn abs(self) -> (r: Self)
        ensures
            forall|i: int| 0 <= i < 16 ==> r@[i] == abs_i16(self@[i]),
    {
        let a = self.to_array();
        let mut out = [0i16; 16];
        let mut i: usize = 0;
        while i < 16
            invariant
                i <= 16,
                a@ == self@,
                forall|j: int| 0 <= j < i ==> out[j] == abs_i16(a[j]),
            decreases 16 - i,
        {
            out[i] = if a[i] >= 0 || a[i] == i16::MIN { a[i] } else { -a[i] };
            i += 1;
        }
        Self::from_array(out)
    }

    /// Shifts the bit pattern of every lane left by `N` bits, filling with zeros.
    pub fn shl<const N: u8>(self) -> (r: Self)
        ensures
            forall|i: int| 0 <= i < 16 ==> r.0.lanes_u16()[i] == shl_u16(self.0.lanes_u16()[i], N),
    {
        let a = self.0.to_u16();
        let mut out = [0u16; 16];
        let mut i: usize = 0;
        while i < 16
            invariant
                i <= 16,
                a@ == self.0.lanes_u16(),
                forall|j: int| 0 <= j < i ==> out[j] == shl_u16(a[j], N),
            decreases 16 - i,
        {
            out[i] = if N < 16 { a[i] << N } else { 0 };
            i += 1;
        }
        Self(Register256::from_u16(out))
    }

    /// Shifts the bit pattern of every lane right by `N` bits, filling with zeros.
    pub fn shr_l<const N: u8>(self) -> (r: Self)
        ensures
            forall|i: int| 0 <= i < 16 ==> r.0.lanes_u16()[i] == shr_u16(self.0.lanes_u16()[i], N),
    {
        let a = self.0.to_u16();
        let mut out = [0u16; 16];
        let mut i: usize = 0;
        while i < 16
            invariant
                i <= 16,
                a@ == self.0.lanes_u16(),
                forall|j: int| 0 <= j < i ==> out[j] == shr_u16(a[j], N),
            decreases 16 - i,
        {
            out[i] = if N < 16 { a[i] >> N } else { 0 };
            i += 1;
        }
        Self(Register256::from_u16(out))
    }

    /// Shifts every lane, read as signed, right by `N` bits, filling with copies of its sign bit.
    pub fn shr_a<const N: u8>(self) -> (r: Self)
        ensures
            forall|i: int| 0 <= i < 16 ==> r.0.lanes_i16()[i] == sra_i16(self.0.lanes_i16()[i], N),
    {
        let a = self.0.to_i16();
        let mut out = [0i16; 16];
        let mut i: usize = 0;
        while i < 16
            invariant
                i <= 16,
                a@ == self.0.lanes_i16(),
                forall|j: int| 0 <= j < i ==> out[j] == sra_i16(a[j], N),
            decreases 16 - i,
        {
            out[i] = if N < 16 { a[i] >> N } else { a[i] >> 15u8 };
            i += 1;
        }
        Self(Register256::from_i16(out))
    }

    /// Picks each lane from `rhs` where the selector's bit for that lane is set, from `self`
    /// where it is clear. Lane `i` goes by bit `i % 8`: both halves of the vector share the eight
    /// bits.
    pub fn blend<const N: u8>(self, rhs: Self) -> (r: Self)
        ensures
            forall|i: int|
                0 <= i < 16 ==> r@[i] == (if bit8(N, i % 8) { rhs@[i] } else { self@[i] }),
    {
        let a = self.to_array();
        let b = rhs.to_array();
        let mut out = [0i16; 16];
        let mut i: usize = 0;
        while i < 16
            invariant
                i <= 16,
                a@ == self@,
                b@ == rhs@,
                forall|j: int| 0 <= j < i ==> out[j] == (if bit8(N, j % 8) { b[j] } else { a[j] }),
            decreases 16 - i,
        {
            out[i] = if test_bit8(N, (i % 8) as u8) { b[i] } else { a[i] };
            i += 1;
        }
        Self::from_array(out)
    }

    /// An array made into a vector and read back is the same array: whatever array is read
    /// from a vector that holds the lanes of `array` equals `array`.
    pub proof fn lemma_array_round_trip(self, array: [i16; 16], back: [i16; 16])
        requires
            self@ == array@,
            back@ == self@,
        ensures
            back == array,
    {
        assert(back@ =~= array@);
    }

    /// The lanes decide the vector: two vectors with the same lanes have the same payload,
    /// so a vector read into an array and made from it again is the same vector.
    pub proof fn lemma_lanes_decide(self, other: Self)
        requires
            self@ == other@,
        ensures
            self == other,
    {
        assert forall|i: int| 0 <= i < 16
            implies self.0.lanes_u16()[i] == other.0.lanes_u16()[i] by {
            assert(self.0.lanes_i16()[i] == signed16(self.0.lanes_u16()[i]));
            assert(other.0.lanes_i16()[i] == signed16(other.0.lanes_u16()[i]));
            assert(self@[i] == other@[i]);
        }
        assert(self.0.lanes_u16() =~= other.0.lanes_u16());
        self.0.lemma_lanes_u16_decide(other.0);
    }

    /// Converts into `T` wherever a value conversion into `T` is defined.
    pub fn convert<T>(self) -> (r: T) where Self: VectorConvertInto<T>
        ensures
            r == VectorConvertInto::<T>::converted(self),
    {
        self.convert_vector()
    }

    /// Reinterprets the payload as a `T`; no bit changes.
    pub fn transmute<T>(self) -> (r: T) where Self: VectorTransmuteInto<T>
        ensures
            r == VectorTransmuteInto::<T>::transmuted(self),
    {
        self.transmute_vector()
    }
}

/// Converting to the other signedness and back gives the same value back, and neither step
/// changes a bit of the payload.
pub proof fn lemma_signedness_round_trip_16(x: Int16x16, y: Uint16x16)
    ensures
        VectorConvertInto::<Uint16x16>::converted(x).payload() == x.payload(),
        VectorConvertInto::<Int16x16>::converted(y).payload() == y.payload(),
        VectorConvertInto::<Int16x16>::converted(VectorConvertInto::<Uint16x16>::converted(x)) == x,
        VectorConvertInto::<Uint16x16>::converted(VectorConvertInto::<Int16x16>::converted(y)) == y,
        forall|i: int|
            0 <= i < 16 ==> VectorConvertInto::<Uint16x16>::converted(x)@[i] == unsigned16(
                x@[i],
            ),
        forall|i: int|
            0 <= i < 16 ==> VectorConvertInto::<Int16x16>::converted(y)@[i] == signed16(y@[i]),
{
}

/// Sixteen unsigned 16-bit lanes in one 256-bit payload. The view is the lanes, lane 0 first.
#[derive(Clone, Copy, Debug)]
pub struct Uint16x16(pub Register256);

impl View for Uint16x16 {
    type V = Seq<u16>;

    open spec fn view(&self) -> Seq<u16> {
        self.0.lanes_u16()
    }
}

impl To256i for Uint16x16 {
    open spec fn payload(self) -> Register256 {
        self.0
    }

    fn to_256i(self) -> (r: Register256) {
        self.0
    }
}

impl From256i for Uint16x16 {
    open spec fn with_payload(x: Register256) -> Self {
        Uint16x16(x)
    }

    fn from_256i(x: Register256) -> (r: Self) {
        Uint16x16(x)
    }
}

impl Vector256 for Uint16x16 {
    proof fn lemma_payload_kept(x: Register256) {
    }

    proof fn lemma_value_kept(self) {
    }
}

/// The unsigned lanes read as their two's-complement counterparts: the payload is untouched.
impl VectorConvertInto<Int16x16> for Uint16x16 {
    open spec fn converted(self) -> Int16x16 {
        Int16x16(self.0)
    }

    fn convert_vector(self) -> (r: Int16x16) {
        Int16x16(self.0)
    }
}

impl From<Int16x16> for Uint16x16 {
    fn from(x: Int16x16) -> (r: Self) {
        Uint16x16(x.0)
    }
}

impl vstd::std_specs::convert::FromSpecImpl<Int16x16> for Uint16x16 {
    open spec fn obeys_from_spec() -> bool {
        true
    }

    open spec fn from_spec(x: Int16x16) -> Self {
        Uint16x16(x.0)
    }
}

impl Uint16x16 {
    /// Every lane zero.
    pub fn zero() -> (r: Self)
        ensures
            forall|i: int| 0 <= i < 16 ==> r@[i] == 0,
            forall|i: int| 0 <= i < 32 ==> r.0.bytes[i] == 0,
    {
        Self(Register256::zero())
    }

    /// The vector whose lanes are the elements of `array`, in order.
    pub fn from_array(array: [u16; 16]) -> (r: Self)
        ensures
            r@ == array@,
    {
        Self(Register256::from_u16(array))
    }

    /// The lanes, in order.
    pub fn to_array(self) -> (r: [u16; 16])
        ensures
            r@ == self@,
    {
        self.0.to_u16()
    }

    /// Every lane equal to `v`.
    pub fn splat(v: u16) -> (r: Self)
        ensures
            forall|i: int| 0 <= i < 16 ==> r@[i] == v,
    {
        let mut out = [0u16; 16];
        let mut i: usize = 0;
        while i < 16
            invariant
                i <= 16,
                forall|j: int| 0 <= j < i ==> out[j] == v,
            decreases 16 - i,
        {
            out[i] = v;
            i += 1;
        }
        Self::from_array(out)
    }

    /// The top bit of each of the 32 bytes: bit `i` of the result is the top bit of byte `i`,
    /// whatever the lane width.
    pub fn mask(self) -> (r: u32)
        ensures
            forall|i: int| 0 <= i < 32 ==> bit32(r, i) == (self.0.bytes[i] >= 0x80),
    {
        self.0.sign_mask(1)
    }

    /// The vector with lane `I` replaced by `value`.
    pub fn insert<const I: u8>(self, value: u16) -> (r: Self)
        requires
            I < 16,
        ensures
            r@ == self@.update(I as int, value),
    {
        let mut a = self.to_array();
        a[I as usize] = value;
        let r = Self::from_array(a);
        assert(r@ =~= self@.update(I as int, value));
        r
    }

    /// Bitwise `(!self) & rhs`.
    pub fn andnot(self, rhs: Self) -> (r: Self)
        ensures
            forall|i: int| 0 <= i < 32 ==> r.0.bytes[i] == (!self.0.bytes[i] & rhs.0.bytes[i]),
    {
        Self(self.0.andnot(rhs.0))
    }

    /// Bitwise AND.
    pub fn bitand(self, rhs: Self) -> (r: Self)
        ensures
            forall|i: int| 0 <= i < 32 ==> r.0.bytes[i] == (self.0.bytes[i] & rhs.0.bytes[i]),
    {
        Self(self.0.bitand(rhs.0))
    }

    /// Bitwise AND, in place.
    pub fn bitand_assign(&mut self, rhs: Self)
        ensures
            forall|i: int|
                0 <= i < 32 ==> final(self).0.bytes[i] == (old(self).0.bytes[i] & rhs.0.bytes[i]),
    {
        *self = self.bitand(rhs);
    }

    /// Bitwise OR.
    pub fn bitor(self, rhs: Self) -> (r: Self)
        ensures
            forall|i: int| 0 <= i < 32 ==> r.0.bytes[i] == (self.0.bytes[i] | rhs.0.bytes[i]),
    {
        Self(self.0.bitor(rhs.0))
    }

    /// Bitwise OR, in place.
    pub fn bitor_assign(&mut self, rhs: Self)
        ensures
            forall|i: int|
                0 <= i < 32 ==> final(self).0.bytes[i] == (old(self).0.bytes[i] | rhs.0.bytes[i]),
    {
        *self = self.bitor(rhs);
    }

    /// Bitwise XOR.
    pub fn bitxor(self, rhs: Self) -> (r: Self)
        ensures
            forall|i: int| 0 <= i < 32 ==> r.0.bytes[i] == (self.0.bytes[i] ^ rhs.0.bytes[i]),
    {
        Self(self.0.bitxor(rhs.0))
    }

    /// Bitwise XOR, in place.
    pub fn bitxor_assign(&mut self, rhs: Self)
        ensures
            forall|i: int|
                0 <= i < 32 ==> final(self).0.bytes[i] == (old(self).0.bytes[i] ^ rhs.0.bytes[i]),
    {
        *self = self.bitxor(rhs);
    }

    /// Lane-wise equality: a lane of the result has every bit set where the two lanes are equal,
    /// and is zero elsewhere.
    pub fn eq(self, rhs: Self) -> (r: Self)
        ensures
            forall|i: int| 0 <= i < 16 ==> r@[i] == eq_u16(self@[i], rhs@[i]),
    {
        let a = self.to_array();
        let b = rhs.to_array();
        let mut out = [0u16; 16];
        let mut i: usize = 0;
        while i < 16
            invariant
                i <= 16,
                a@ == self@,
                b@ == rhs@,
                forall|j: int| 0 <= j < i ==> out[j] == eq_u16(a[j], b[j]),
            decreases 16 - i,
        {
            out[i] = if a[i] == b[i] { 0xFFFF } else { 0 };
            i += 1;
        }
        Self::from_array(out)
    }

    /// Lane-wise sum, wrapping modulo 2^16.
    pub fn add(self, rhs: Self) -> (r: Self)
        ensures
            forall|i: int| 0 <= i < 16 ==> r@[i] == self@[i].wrapping_add(rhs@[i]),
    {
        let a = self.to_array();
        let b = rhs.to_array();
        let mut out = [0u16; 16];
        let mut i: usize = 0;
        while i < 16
            invariant
                i <= 16,
                a@ == self@,
                b@ == rhs@,
                forall|j: int| 0 <= j < i ==> out[j] == a[j].wrapping_add(b[j]),
            decreases 16 - i,
        {
            out[i] = a[i].wrapping_add(b[i]);
            i += 1;
        }
        Self::from_array(out)
    }

    /// Lane-wise wrapping sum, in place.
    pub fn add_assign(&mut self, rhs: Self)
        ensures
            forall|i: int| 0 <= i < 16 ==> final(self)@[i] == old(self)@[i].wrapping_add(rhs@[i]),
    {
        *self = self.add(rhs);
    }

    /// Lane-wise difference, wrapping modulo 2^16.
    pub fn sub(self, rhs: Self) -> (r: Self)
        ensures
            forall|i: int| 0 <= i < 16 ==> r@[i] == self@[i].wrapping_sub(rhs@[i]),
    {
        let a = self.to_array();
        let b = rhs.to_array();
        let mut out = [0u16; 16];
        let mut i: usize = 0;
        while i < 16
            invariant
                i <= 16,
                a@ == self@,
                b@ == rhs@,
                forall|j: int| 0 <= j < i ==> out[j] == a[j].wrapping_sub(b[j]),
            decreases 16 - i,
        {
            out[i] = a[i].wrapping_sub(b[i]);
            i += 1;
        }
        Self::from_array(out)
    }

    /// Lane-wise wrapping difference, in place.
    pub fn sub_assign(&mut self, rhs: Self)
        ensures
            forall|i: int| 0 <= i < 16 ==> final(self)@[i] == old(self)@[i].wrapping_sub(rhs@[i]),
    {
        *self = self.sub(rhs);
    }

    /// Lane-wise unsigned minimum.
    pub fn min(self, rhs: Self) -> (r: Self)
        ensures
            forall|i: int| 0 <= i < 16 ==> r@[i] == min_u16(self@[i], rhs@[i]),
    {
        let a = self.to_array();
        let b = rhs.to_array();
        let mut out = [0u16; 16];
        let mut i: usize = 0;
        while i < 16
            invariant
                i <= 16,
                a@ == self@,
                b@ == rhs@,
                forall|j: int| 0 <= j < i ==> out[j] == min_u16(a[j], b[j]),
            decreases 16 - i,
        {
            out[i] = if a[i] <= b[i] { a[i] } else { b[i] };
            i += 1;
        }
        Self::from_array(out)
    }

    /// Lane-wise unsigned maximum.
    pub fn max(self, rhs: Self) -> (r: Self)
        ensures
            forall|i: int| 0 <= i < 16 ==> r@[i] == max_u16(self@[i], rhs@[i]),
    {
        let a = self.to_array();
        let b = rhs.to_array();
        let mut out = [0u16; 16];
        let mut i: usize = 0;
        while i < 16
            invariant
                i <= 16,
                a@ == self@,
                b@ == rhs@,
                forall|j: int| 0 <= j < i ==> out[j] == max_u16(a[j], b[j]),
            decreases 16 - i,
        {
            out[i] = if a[i] <= b[i] { b[i] } else { a[i] };
            i += 1;
        }
        Self::from_array(out)
    }

    /// Shifts the bit pattern of every lane left by `N` bits, filling with zeros.
    pub fn shl<const N: u8>(self) -> (r: Self)
        ensures
            forall|i: int| 0 <= i < 16 ==> r.0.lanes_u16()[i] == shl_u16(self.0.lanes_u16()[i], N),
    {
        let a = self.0.to_u16();
        let mut out = [0u16; 16];
        let mut i: usize = 0;
        while i < 16
            invariant
                i <= 16,
                a@ == self.0.lanes_u16(),
                forall|j: int| 0 <= j < i ==> out[j] == shl_u16(a[j], N),
            decreases 16 - i,
        {
            out[i] = if N < 16 { a[i] << N } else { 0 };
            i += 1;
        }
        Self(Register256::from_u16(out))
    }

    /// Shifts the bit pattern of every lane right by `N` bits, filling with zeros.
    pub fn shr_l<const N: u8>(self) -> (r: Self)
        ensures
            forall|i: int| 0 <= i < 16 ==> r.0.lanes_u16()[i] == shr_u16(self.0.lanes_u16()[i], N),
    {
        let a = self.0.to_u16();
        let mut out = [0u16; 16];
        let mut i: usize = 0;
        while i < 16
            invariant
                i <= 16,
                a@ == self.0.lanes_u16(),
                forall|j: int| 0 <= j < i ==> out[j] == shr_u16(a[j], N),
            decreases 16 - i,
        {
            out[i] = if N < 16 { a[i] >> N } else { 0 };
            i += 1;
        }
        Self(Register256::from_u16(out))
    }

    /// Shifts every lane, read as signed, right by `N` bits, filling with copies of its sign bit.
    pub fn shr_a<const N: u8>(self) -> (r: Self)
        ensures
            forall|i: int| 0 <= i < 16 ==> r.0.lanes_i16()[i] == sra_i16(self.0.lanes_i16()[i], N),
    {
        let a = self.0.to_i16();
        let mut out = [0i16; 16];
        let mut i: usize = 0;
        while i < 16
            invariant
                i <= 16,
                a@ == self.0.lanes_i16(),
                forall|j: int| 0 <= j < i ==> out[j] == sra_i16(a[j], N),
            decreases 16 - i,
        {
            out[i] = if N < 16 { a[i] >> N } else { a[i] >> 15u8 };
            i += 1;
        }
        Self(Register256::from_i16(out))
    }

    /// Picks each lane from `rhs` where the selector's bit for that lane is set, from `self`
    /// where it is clear. Lane `i` goes by bit `i % 8`: both halves of the vector share the eight
    /// bits.
    pub fn blend<const N: u8>(self, rhs: Self) -> (r: Self)
        ensures
            forall|i: int|
                0 <= i < 16 ==> r@[i] == (if bit8(N, i % 8) { rhs@[i] } else { self@[i] }),
    {
        let a = self.to_array();
        let b = rhs.to_array();
        let mut out = [0u16; 16];
        let mut i: usize = 0;
        while i < 16
            invariant
                i <= 16,
                a@ == self@,
                b@ == rhs@,
                forall|j: int| 0 <= j < i ==> out[j] == (if bit8(N, j % 8) { b[j] } else { a[j] }),
            decreases 16 - i,
        {
            out[i] = if test_bit8(N, (i % 8) as u8) { b[i] } else { a[i] };
            i += 1;
        }
        Self::from_array(out)
    }

    /// An array made into a vector and read back is the same array: whatever array is read
    /// from a vector that holds the lanes of `array` equals `array`.
    pub proof fn lemma_array_round_trip(self, array: [u16; 16], back: [u16; 16])
        requires
            self@ == array@,
            back@ == self@,
        ensures
            back == array,
    {
        assert(back@ =~= array@);
    }

    /// The lanes decide the vector: two vectors with the same lanes have the same payload,
    /// so a vector read into an array and made from it again is the same vector.
    pub proof fn lemma_lanes_decide(self, other: Self)
        requires
            self@ == other@,
        ensures
            self == other,
    {
        self.0.lemma_lanes_u16_decide(other.0);
    }

    /// Converts into `T` wherever a value conversion into `T` is defined.
    pub fn convert<T>(self) -> (r: T) where Self: VectorConvertInto<T>
        ensures
            r == VectorConvertInto::<T>::converted(self),
    {
        self.convert_vector()
    }

    /// Reinterprets the payload as a `T`; no bit changes.
    pub fn transmute<T>(self) -> (r: T) where Self: VectorTransmuteInto<T>
        ensures
            r == VectorTransmuteInto::<T>::transmuted(self),
    {
        self.transmute_vector()
    }
}

} // verus!
